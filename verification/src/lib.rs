//! Core of a web-analytics tray application: resolving a requested
//! period into a concrete time range, gap-filling the sparse per-site
//! series the remote API returns, folding per-site results into a ranked
//! snapshot, and the decisions of the periodic refresh loop.  Network
//! transport and the UI shell stay with the caller.
pub mod calendar;
pub mod client;
pub mod jsondoc;
pub mod scheduler;
pub mod series;
pub mod settings;
pub mod snapshot;
pub mod text;
pub mod timerange;
