//! User configuration: the immutable input record of a pipeline run, and
//! the defaults applied when a stored record omits optional fields.
use crate::jsondoc::{bool_of, doc_bool, doc_get, doc_str, json_doc_of, key_of, parse_json_doc,
    str_of, JsonDoc};
use vstd::prelude::*;

verus! {

/// The caller-owned configuration of a pipeline run.
#[derive(Clone, Debug)]
pub struct Settings {
    pub token: String,
    pub account_id: String,
    pub period: String,
    pub exclude_bots: bool,
    pub theme: String,
    pub refresh_interval: String,
}

/// Default for the bot-exclusion flag when a record omits it.
pub fn default_true() -> (r: bool)
    ensures
        r == true,
{
    true
}

/// Default theme when a record omits it.
pub fn default_theme() -> (r: String)
    ensures
        r@ == "auto"@,
{
    "auto".to_owned()
}

/// Default refresh cadence when a record omits it.
pub fn default_refresh_interval() -> (r: String)
    ensures
        r@ == "15m"@,
{
    "15m".to_owned()
}

impl core::default::Default for Settings {
    /// Empty credentials and period, bots excluded, automatic theme, a
    /// fifteen-minute cadence.
    fn default() -> (r: Settings)
        ensures
            r.token@ == Seq::<char>::empty(),
            r.account_id@ == Seq::<char>::empty(),
            r.period@ == Seq::<char>::empty(),
            r.exclude_bots == true,
            r.theme@ == "auto"@,
            r.refresh_interval@ == "15m"@,
    {
        Settings {
            token: String::new(),
            account_id: String::new(),
            period: String::new(),
            exclude_bots: true,
            theme: default_theme(),
            refresh_interval: default_refresh_interval(),
        }
    }
}

/// Builds a record from its stored fields: a missing `exclude_bots` means
/// `true`, a missing `theme` means `auto`, a missing `refresh_interval`
/// means `15m`; present values, `false` included, are kept as given.
pub fn settings_from_fields(
    token: String,
    account_id: String,
    period: String,
    exclude_bots: Option<bool>,
    theme: Option<String>,
    refresh_interval: Option<String>,
) -> (r: Settings)
    ensures
        r.token == token,
        r.account_id == account_id,
        r.period == period,
        r.exclude_bots == (match exclude_bots {
            Some(b) => b,
            None => true,
        }),
        (match theme {
            Some(t) => r.theme == t,
            None => r.theme@ == "auto"@,
        }),
        (match refresh_interval {
            Some(t) => r.refresh_interval == t,
            None => r.refresh_interval@ == "15m"@,
        }),
{
    let exclude_bots = match exclude_bots {
        Some(b) => b,
        None => default_true(),
    };
    let theme = match theme {
        Some(t) => t,
        None => default_theme(),
    };
    let refresh_interval = match refresh_interval {
        Some(t) => t,
        None => default_refresh_interval(),
    };
    Settings { token, account_id, period, exclude_bots, theme, refresh_interval }
}

/// A stored record's document is readable: the three required fields
/// are strings, and each optional field is absent or of its type.
pub open spec fn settings_doc_ok(d: JsonDoc) -> bool {
    &&& doc_str(doc_get(d, "token"@)) is Some
    &&& doc_str(doc_get(d, "account_id"@)) is Some
    &&& doc_str(doc_get(d, "period"@)) is Some
    &&& (doc_get(d, "exclude_bots"@) is None || doc_bool(doc_get(d, "exclude_bots"@)) is Some)
    &&& (doc_get(d, "theme"@) is None || doc_str(doc_get(d, "theme"@)) is Some)
    &&& (doc_get(d, "refresh_interval"@) is None || doc_str(doc_get(d, "refresh_interval"@))
        is Some)
}

/// Reads a stored settings record: the three required string fields are
/// taken as given; an absent `exclude_bots` means `true`, an absent
/// `theme` means `auto`, an absent `refresh_interval` means `15m`; a
/// present field of the wrong type is an error, as is a text that is
/// not a JSON document.
pub fn parse_settings(json: &str) -> (r: Result<Settings, String>)
    ensures
        json_doc_of(json@) is Err ==> r is Err && r->Err_0 == json_doc_of(json@)->Err_0,
        json_doc_of(json@) is Ok ==> ((r is Ok) <==> settings_doc_ok(json_doc_of(json@)->Ok_0)),
        json_doc_of(json@) is Ok && r is Ok ==> ({
            let d = json_doc_of(json@)->Ok_0;
            &&& (r->Ok_0).token@ == doc_str(doc_get(d, "token"@))->0
            &&& (r->Ok_0).account_id@ == doc_str(doc_get(d, "account_id"@))->0
            &&& (r->Ok_0).period@ == doc_str(doc_get(d, "period"@))->0
            &&& (r->Ok_0).exclude_bots == (match doc_bool(doc_get(d, "exclude_bots"@)) {
                Some(b) => b,
                None => true,
            })
            &&& (r->Ok_0).theme@ == (match doc_str(doc_get(d, "theme"@)) {
                Some(t) => t,
                None => ("auto")@,
            })
            &&& (r->Ok_0).refresh_interval@ == (match doc_str(doc_get(d, "refresh_interval"@)) {
                Some(t) => t,
                None => ("15m")@,
            })
        }),
{
    let d = match parse_json_doc(json) {
        Ok(v) => v,
        Err(e) => {
            return Err(e);
        },
    };
    let token = match str_of(key_of(&d, "token")) {
        Some(s) => s.to_owned(),
        None => {
            return Err(String::from_str("invalid settings: token"));
        },
    };
    let account_id = match str_of(key_of(&d, "account_id")) {
        Some(s) => s.to_owned(),
        None => {
            return Err(String::from_str("invalid settings: account_id"));
        },
    };
    let period = match str_of(key_of(&d, "period")) {
        Some(s) => s.to_owned(),
        None => {
            return Err(String::from_str("invalid settings: period"));
        },
    };
    let exclude_bots = match key_of(&d, "exclude_bots") {
        Some(x) => match bool_of(Some(x)) {
            Some(b) => Some(b),
            None => {
                return Err(String::from_str("invalid settings: exclude_bots"));
            },
        },
        None => None,
    };
    let theme = match key_of(&d, "theme") {
        Some(x) => match str_of(Some(x)) {
            Some(s) => Some(s.to_owned()),
            None => {
                return Err(String::from_str("invalid settings: theme"));
            },
        },
        None => None,
    };
    let refresh_interval = match key_of(&d, "refresh_interval") {
        Some(x) => match str_of(Some(x)) {
            Some(s) => Some(s.to_owned()),
            None => {
                return Err(String::from_str("invalid settings: refresh_interval"));
            },
        },
        None => None,
    };
    Ok(settings_from_fields(token, account_id, period, exclude_bots, theme, refresh_interval))
}

/// The record a fresh install starts from: the defaults with the
/// one-day period selected.
pub fn initial_settings() -> (r: Settings)
    ensures
        r.token@ == Seq::<char>::empty(),
        r.account_id@ == Seq::<char>::empty(),
        r.period@ == ("24h")@,
        r.exclude_bots == true,
        r.theme@ == ("auto")@,
        r.refresh_interval@ == ("15m")@,
{
    Settings {
        token: String::new(),
        account_id: String::new(),
        period: "24h".to_owned(),
        exclude_bots: true,
        theme: default_theme(),
        refresh_interval: default_refresh_interval(),
    }
}

/// Rejects a run before any network call when the token or the account
/// identifier is empty; accepts it otherwise.
pub fn check_config(settings: &Settings) -> (r: Result<(), String>)
    ensures
        (r is Err) <==> (settings.token@.len() == 0 || settings.account_id@.len() == 0),
        r is Err ==> r->Err_0@ == "Please configure API token and Account ID in settings"@,
{
    if settings.token.as_str().is_empty() || settings.account_id.as_str().is_empty() {
        Err("Please configure API token and Account ID in settings".to_owned())
    } else {
        Ok(())
    }
}

} // verus!
