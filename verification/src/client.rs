//! The remote-API boundary: building the discovery URL, the GraphQL
//! query and its JSON request body — all verified, with a proven JSON
//! string escaper — and reading the JSON responses back through thin
//! trusted wrappers around `serde_json`, with every decision about the
//! extracted values made in verified code.
use crate::jsondoc::{doc_get, doc_index, doc_items, doc_str, doc_sub, doc_u64, errors_debug,
    errors_debug_chars, index_of, items_of, json_doc_of, key_of, parse_json_doc, str_of, sub_of,
    u64_of, JsonDoc};
use crate::series::{bucket_count, daily_points_ok, date_or_zero, datetime_or_zero,
    fill_series_gaps, hourly_points_ok, raw_view};
use crate::snapshot::SiteData;
use crate::text::digit_char;
use vstd::prelude::*;

verus! {

/// The hexadecimal digit character for a nibble value.
pub open spec fn hex_char(d: int) -> char {
    if d == 10 {
        'a'
    } else if d == 11 {
        'b'
    } else if d == 12 {
        'c'
    } else if d == 13 {
        'd'
    } else if d == 14 {
        'e'
    } else if d == 15 {
        'f'
    } else {
        digit_char(d)
    }
}

/// How one character appears inside a JSON string literal: quote,
/// backslash and the named control characters get a two-character
/// escape, other control characters the `\u00..` form, everything else
/// stands as itself.
pub open spec fn json_escaped_char(c: char) -> Seq<char> {
    if c == '"' {
        seq!['\\', '"']
    } else if c == '\\' {
        seq!['\\', '\\']
    } else if c == '\n' {
        seq!['\\', 'n']
    } else if c == '\r' {
        seq!['\\', 'r']
    } else if c == '\t' {
        seq!['\\', 't']
    } else if (c as int) < 32 {
        let hi = hex_char((c as int) / 16);
        let lo = hex_char((c as int) % 16);
        seq!['\\', 'u', '0', '0', hi, lo]
    } else {
        seq![c]
    }
}

/// A string as it appears inside a JSON string literal.
pub open spec fn json_escaped(s: Seq<char>) -> Seq<char>
    decreases s.len(),
{
    if s.len() == 0 {
        Seq::empty()
    } else {
        json_escaped(s.drop_last()) + json_escaped_char(s.last())
    }
}

/// The one-character string for a nibble value.
fn hex_str(d: u64) -> (r: &'static str)
    requires
        d < 16,
    ensures
        r@ == seq![hex_char(d as int)],
{
    proof {
        reveal_strlit("a");
        reveal_strlit("b");
        reveal_strlit("c");
        reveal_strlit("d");
        reveal_strlit("e");
        reveal_strlit("f");
    }
    if d < 10 {
        crate::text::digit_str(d)
    } else {
        let r = match d {
            10 => "a",
            11 => "b",
            12 => "c",
            13 => "d",
            14 => "e",
            _ => "f",
        };
        proof {
            assert(r@ =~= seq![hex_char(d as int)]);
        }
        r
    }
}

/// Relies on `String::push`: appends exactly the one character.
#[verifier::external_body]
fn push_char(s: &mut String, c: char)
    ensures
        final(s)@ == old(s)@ + seq![c],
{
    s.push(c);
}

/// Appends a string escaped for the inside of a JSON string literal.
pub fn push_json_escaped(out: &mut String, s: &str)
    ensures
        final(out)@ == old(out)@ + json_escaped(s@),
{
    let n = s.unicode_len();
    let mut i: usize = 0;
    proof {
        assert(s@.take(0) =~= Seq::<char>::empty());
        assert(old(out)@ + json_escaped(s@.take(0)) =~= old(out)@);
    }
    while i < n
        invariant
            n == s@.len(),
            i <= n,
            out@ == old(out)@ + json_escaped(s@.take(i as int)),
        decreases n - i,
    {
        proof {
            reveal_strlit("\\\"");
            reveal_strlit("\\\\");
            reveal_strlit("\\n");
            reveal_strlit("\\r");
            reveal_strlit("\\t");
            reveal_strlit("\\u00");
            assert(("\\\"")@ =~= seq!['\\', '"']);
            assert(("\\\\")@ =~= seq!['\\', '\\']);
            assert(("\\n")@ =~= seq!['\\', 'n']);
            assert(("\\r")@ =~= seq!['\\', 'r']);
            assert(("\\t")@ =~= seq!['\\', 't']);
            assert(("\\u00")@ =~= seq!['\\', 'u', '0', '0']);
        }
        let c = s.get_char(i);
        if c == '"' {
            out.append("\\\"");
        } else if c == '\\' {
            out.append("\\\\");
        } else if c == '\n' {
            out.append("\\n");
        } else if c == '\r' {
            out.append("\\r");
        } else if c == '\t' {
            out.append("\\t");
        } else if (c as u32) < 32 {
            let u = c as u32 as u64;
            out.append("\\u00");
            out.append(hex_str(u / 16));
            out.append(hex_str(u % 16));
        } else {
            push_char(out, c);
        }
        proof {
            assert(s@.take(i + 1).drop_last() =~= s@.take(i as int));
            assert(s@.take(i + 1).last() == s@[i as int]);
            assert(out@ =~= old(out)@ + json_escaped(s@.take(i + 1)));
        }
        i = i + 1;
    }
    proof {
        assert(s@.take(n as int) =~= s@);
    }
}

/// The site-discovery endpoint for an account.
pub fn sites_url(account_id: &str) -> (r: String)
    ensures
        r@ == ("https://api.cloudflare.com/client/v4/accounts/")@ + account_id@ + (
        "/rum/site_info/list")@,
{
    let mut s = String::from_str("https://api.cloudflare.com/client/v4/accounts/");
    s.append(account_id);
    s.append("/rum/site_info/list");
    proof {
        assert(s@ =~= ("https://api.cloudflare.com/client/v4/accounts/")@ + account_id@ + (
        "/rum/site_info/list")@);
    }
    s
}

/// The GraphQL endpoint.
pub fn graphql_url() -> (r: &'static str)
    ensures
        r@ == ("https://api.cloudflare.com/client/v4/graphql")@,
{
    "https://api.cloudflare.com/client/v4/graphql"
}

/// The value of the authorization header for a token.
pub fn bearer_value(token: &str) -> (r: String)
    ensures
        r@ == ("Bearer ")@ + token@,
{
    let mut s = String::from_str("Bearer ");
    s.append(token);
    proof {
        assert(s@ =~= ("Bearer ")@ + token@);
    }
    s
}

/// The message for a failed discovery call: the HTTP status, then the
/// response body.
pub fn api_error_message(status: &str, body: &str) -> (r: String)
    ensures
        r@ == ("API error ")@ + status@ + (": ")@ + body@,
{
    let mut s = String::from_str("API error ");
    s.append(status);
    s.append(": ");
    s.append(body);
    proof {
        assert(s@ =~= ("API error ")@ + status@ + (": ")@ + body@);
    }
    s
}

/// The message for a failed metrics call.
pub fn graphql_error_message(status: &str) -> (r: String)
    ensures
        r@ == ("GraphQL error: ")@ + status@,
{
    let mut s = String::from_str("GraphQL error: ");
    s.append(status);
    proof {
        assert(s@ =~= ("GraphQL error: ")@ + status@);
    }
    s
}

/// The GraphQL query text: aggregate totals plus a time series bucketed
/// by the given dimension.
pub open spec fn query_chars(ts_field: Seq<char>) -> Seq<char> {
    (
    "{\n  viewer {\n    accounts(filter: { accountTag: $accountTag }) {\n      totals: rumPageloadEventsAdaptiveGroups(limit: 1, filter: $filter) {\n        count\n        sum { visits }\n      }\n      series: rumPageloadEventsAdaptiveGroups(limit: 5000, filter: $filter) {\n        count\n        sum { visits }\n        dimensions { ts: ")@
        + ts_field + (" }\n      }\n    }\n  }\n}")@
}

/// Renders the GraphQL query for a bucket dimension.
pub fn graphql_query(ts_field: &str) -> (r: String)
    ensures
        r@ == query_chars(ts_field@),
{
    let mut s = String::from_str(
        "{\n  viewer {\n    accounts(filter: { accountTag: $accountTag }) {\n      totals: rumPageloadEventsAdaptiveGroups(limit: 1, filter: $filter) {\n        count\n        sum { visits }\n      }\n      series: rumPageloadEventsAdaptiveGroups(limit: 5000, filter: $filter) {\n        count\n        sum { visits }\n        dimensions { ts: ",
    );
    s.append(ts_field);
    s.append(" }\n      }\n    }\n  }\n}");
    proof {
        assert(s@ =~= query_chars(ts_field@));
    }
    s
}

/// The AND-combined filter list of a metrics query: the time window, the
/// site tag, and — only when bots are excluded — the bot predicate.
pub open spec fn filters_chars(
    site_tag: Seq<char>,
    start: Seq<char>,
    end: Seq<char>,
    exclude_bots: bool,
) -> Seq<char> {
    ("{\"datetime_geq\":\"")@ + json_escaped(start) + ("\",\"datetime_leq\":\"")@ + json_escaped(
        end,
    ) + ("\"},{\"siteTag\":\"")@ + json_escaped(site_tag) + ("\"}")@ + (if exclude_bots {
        (",{\"bot\":0}")@
    } else {
        Seq::<char>::empty()
    })
}

/// The whole JSON body of a metrics request.
pub open spec fn metrics_body_chars(
    account_tag: Seq<char>,
    site_tag: Seq<char>,
    start: Seq<char>,
    end: Seq<char>,
    exclude_bots: bool,
    ts_field: Seq<char>,
) -> Seq<char> {
    ("{\"query\":\"")@ + json_escaped(query_chars(ts_field)) + ("\",\"variables\":{\"accountTag\":\"")@
        + json_escaped(account_tag) + ("\",\"filter\":{\"AND\":[")@ + filters_chars(
        site_tag,
        start,
        end,
        exclude_bots,
    ) + ("]}}}")@
}

/// Builds the JSON body of a metrics request, every embedded string
/// escaped.
pub fn metrics_request_body(
    account_tag: &str,
    site_tag: &str,
    start: &str,
    end: &str,
    exclude_bots: bool,
    ts_field: &str,
) -> (r: String)
    ensures
        r@ == metrics_body_chars(
            account_tag@,
            site_tag@,
            start@,
            end@,
            exclude_bots,
            ts_field@,
        ),
{
    let query = graphql_query(ts_field);
    let mut s = String::from_str("{\"query\":\"");
    push_json_escaped(&mut s, query.as_str());
    s.append("\",\"variables\":{\"accountTag\":\"");
    push_json_escaped(&mut s, account_tag);
    s.append("\",\"filter\":{\"AND\":[");
    s.append("{\"datetime_geq\":\"");
    push_json_escaped(&mut s, start);
    s.append("\",\"datetime_leq\":\"");
    push_json_escaped(&mut s, end);
    s.append("\"},{\"siteTag\":\"");
    push_json_escaped(&mut s, site_tag);
    s.append("\"}");
    if exclude_bots {
        s.append(",{\"bot\":0}");
    }
    s.append("]}}}");
    proof {
        assert(s@ =~= metrics_body_chars(
            account_tag@,
            site_tag@,
            start@,
            end@,
            exclude_bots,
            ts_field@,
        ));
    }
    s
}

/// A tolerated-absence count: a missing or non-numeric field reads as
/// zero.
pub fn u64_or_zero(v: Option<u64>) -> (r: u64)
    ensures
        r == (match v {
            Some(n) => n,
            None => 0u64,
        }),
{
    match v {
        Some(n) => n,
        None => 0,
    }
}

/// A discovered site is kept only when both its display name and its
/// site tag were present as strings; otherwise the entry is skipped, not
/// an error.
pub fn site_entry(name: Option<&str>, tag: Option<&str>) -> (r: Option<(String, String)>)
    ensures
        name is Some && tag is Some ==> r is Some && (r->0).0@ == name->0@ && (r->0).1@ == tag
            ->0@,
        name is None || tag is None ==> r is None,
{
    match (name, tag) {
        (Some(n), Some(t)) => Some((n.to_owned(), t.to_owned())),
        _ => None,
    }
}

/// A series point is kept only when its bucket key was present as a
/// string; its counts tolerate absence as zero.
pub fn series_entry(ts: Option<&str>, visits: Option<u64>, page_views: Option<u64>) -> (r: Option<
    (String, (u64, u64)),
>)
    ensures
        ts is Some ==> r is Some && (r->0).0@ == ts->0@ && ((r->0).1).0 == (match visits {
            Some(n) => n,
            None => 0u64,
        }) && ((r->0).1).1 == (match page_views {
            Some(n) => n,
            None => 0u64,
        }),
        ts is None ==> r is None,
{
    match ts {
        Some(key) => Some((key.to_owned(), (u64_or_zero(visits), u64_or_zero(page_views)))),
        None => None,
    }
}

/// The view of a collected site list.
pub open spec fn pairs_view(s: Seq<(String, String)>) -> Seq<(Seq<char>, Seq<char>)> {
    Seq::new(s.len(), |i: int| (s[i].0@, s[i].1@))
}

/// The pair a discovery entry contributes: present only when both the
/// display name and the site tag are strings.
pub open spec fn spec_site_pair(e: JsonDoc) -> Option<(Seq<char>, Seq<char>)> {
    let name = doc_str(doc_sub(doc_get(e, "ruleset"@), "zone_name"@));
    let tag = doc_str(doc_get(e, "site_tag"@));
    if name is Some && tag is Some {
        Some((name->0, tag->0))
    } else {
        None
    }
}

/// The complete entries of a discovery array, in order.
pub open spec fn sites_of_items(items: Seq<JsonDoc>) -> Seq<(Seq<char>, Seq<char>)>
    decreases items.len(),
{
    if items.len() == 0 {
        Seq::empty()
    } else {
        sites_of_items(items.drop_last()) + (match spec_site_pair(items.last()) {
            Some(p) => seq![p],
            None => Seq::empty(),
        })
    }
}

/// The site list a discovery document denotes: the complete entries of
/// its `result` array, in order; none when that array is missing.
pub open spec fn sites_of_doc(doc: JsonDoc) -> Option<Seq<(Seq<char>, Seq<char>)>> {
    match doc_items(doc_get(doc, "result"@)) {
        Some(items) => Some(sites_of_items(items)),
        None => None,
    }
}

/// Reads the discovery document: exactly the complete entries of its
/// `result` array, in order, incomplete entries skipped individually.
/// A document without a `result` array is the one fatal shape error.
pub fn extract_sites(doc: &JsonDoc) -> (r: Result<Vec<(String, String)>, String>)
    ensures
        (r is Ok) <==> (sites_of_doc(*doc) is Some),
        r is Ok ==> pairs_view((r->Ok_0)@) == sites_of_doc(*doc)->0,
        r is Err ==> r->Err_0@ == ("Invalid response: missing result array")@,
{
    let arr = match items_of(key_of(doc, "result")) {
        Some(a) => a,
        None => {
            return Err(String::from_str("Invalid response: missing result array"));
        },
    };
    let mut out: Vec<(String, String)> = Vec::new();
    let n = arr.len();
    let mut i: usize = 0;
    proof {
        assert(arr@.take(0) =~= Seq::<JsonDoc>::empty());
        assert(pairs_view(out@) =~= sites_of_items(arr@.take(0)));
    }
    while i < n
        invariant
            i <= n == arr@.len(),
            pairs_view(out@) == sites_of_items(arr@.take(i as int)),
        decreases n - i,
    {
        let entry = &arr[i];
        let name = str_of(sub_of(key_of(entry, "ruleset"), "zone_name"));
        let tag = str_of(key_of(entry, "site_tag"));
        match site_entry(name, tag) {
            Some(pair) => {
                out.push(pair);
            },
            None => (),
        }
        proof {
            assert(arr@.take(i + 1).drop_last() =~= arr@.take(i as int));
            assert(arr@.take(i + 1).last() == arr@[i as int]);
            assert(pairs_view(out@) =~= sites_of_items(arr@.take(i + 1)));
        }
        i = i + 1;
    }
    proof {
        assert(arr@.take(n as int) =~= arr@);
    }
    Ok(out)
}

/// Interprets a whole discovery exchange: a non-success status is the
/// transport error with the stated message; a successful one reads the
/// body as `extract_sites` does, an unparseable body failing with the
/// parser's message.
pub fn sites_response(status_ok: bool, status: &str, body: &str) -> (r: Result<Vec<
    (String, String),
>, String>)
    ensures
        !status_ok ==> r is Err && r->Err_0@ == ("API error ")@ + status@ + (": ")@ + body@,
        status_ok && json_doc_of(body@) is Err ==> r is Err && r->Err_0 == json_doc_of(
            body@,
        )->Err_0,
        status_ok && json_doc_of(body@) is Ok ==> ({
            let doc = json_doc_of(body@)->Ok_0;
            &&& (r is Ok) <==> (sites_of_doc(doc) is Some)
            &&& r is Ok ==> pairs_view((r->Ok_0)@) == sites_of_doc(doc)->0
            &&& r is Err ==> r->Err_0@ == ("Invalid response: missing result array")@
        }),
{
    if !status_ok {
        return Err(api_error_message(status, body));
    }
    match parse_json_doc(body) {
        Ok(doc) => extract_sites(&doc),
        Err(e) => Err(e),
    }
}

/// The account object of a metrics document: `data.viewer.accounts[0]`.
pub open spec fn account_doc(doc: JsonDoc) -> Option<JsonDoc> {
    doc_index(doc_sub(doc_sub(doc_get(doc, "data"@), "viewer"@), "accounts"@), 0)
}

/// The remote error list of a metrics document, when it carries one.
pub open spec fn doc_errors(doc: JsonDoc) -> Option<Seq<JsonDoc>> {
    doc_items(doc_get(doc, "errors"@))
}

/// A metrics document is fatal exactly when it carries a non-empty
/// remote error list.
pub open spec fn errors_fatal(doc: JsonDoc) -> bool {
    match doc_errors(doc) {
        Some(es) => es.len() > 0,
        None => false,
    }
}

/// A tolerated absence: a missing reading counts as zero.
pub open spec fn or_zero(v: Option<u64>) -> u64 {
    match v {
        Some(n) => n,
        None => 0u64,
    }
}

/// The first element of the aggregate `totals` array.
pub open spec fn totals_doc(doc: JsonDoc) -> Option<JsonDoc> {
    doc_index(doc_sub(account_doc(doc), "totals"@), 0)
}

/// The aggregate visits of a metrics document: `totals[0].sum.visits`,
/// zero when absent or not a count.
pub open spec fn visits_of_doc(doc: JsonDoc) -> u64 {
    or_zero(doc_u64(doc_sub(doc_sub(totals_doc(doc), "sum"@), "visits"@)))
}

/// The aggregate page views of a metrics document: `totals[0].count`,
/// zero when absent or not a count.
pub open spec fn page_views_of_doc(doc: JsonDoc) -> u64 {
    or_zero(doc_u64(doc_sub(totals_doc(doc), "count"@)))
}

/// The raw bucket a series point contributes: present only when its
/// bucket key is a string; its counts tolerate absence as zero.
pub open spec fn spec_series_point(p: JsonDoc) -> Option<(Seq<char>, (u64, u64))> {
    match doc_str(doc_sub(doc_get(p, "dimensions"@), "ts"@)) {
        Some(ts) => Some(
            (
                ts,
                (
                    or_zero(doc_u64(doc_sub(doc_get(p, "sum"@), "visits"@))),
                    or_zero(doc_u64(doc_get(p, "count"@))),
                ),
            ),
        ),
        None => None,
    }
}

/// The raw buckets of a series array, in order.
pub open spec fn raw_of_items(items: Seq<JsonDoc>) -> Seq<(Seq<char>, (u64, u64))>
    decreases items.len(),
{
    if items.len() == 0 {
        Seq::empty()
    } else {
        raw_of_items(items.drop_last()) + (match spec_series_point(items.last()) {
            Some(p) => seq![p],
            None => Seq::empty(),
        })
    }
}

/// The series points of a metrics document; an absent or non-array
/// `series` reads as empty.
pub open spec fn series_items_of_doc(doc: JsonDoc) -> Seq<JsonDoc> {
    match doc_items(doc_sub(account_doc(doc), "series"@)) {
        Some(v) => v,
        None => Seq::empty(),
    }
}

/// The raw bucket mapping of a metrics document.
pub open spec fn raw_of_doc(doc: JsonDoc) -> Seq<(Seq<char>, (u64, u64))> {
    raw_of_items(series_items_of_doc(doc))
}

/// Reads a metrics document: a non-empty remote error list is fatal and
/// the message carries its rendering; otherwise the aggregate totals
/// and the sparse series, every absent part tolerated as zero or empty.
pub fn extract_metrics(doc: &JsonDoc) -> (r: Result<(u64, u64, Vec<(String, (u64, u64))>),
    String,
>)
    ensures
        (r is Err) <==> errors_fatal(*doc),
        r is Err ==> r->Err_0@ == ("GraphQL errors: ")@ + errors_debug_chars(doc_errors(*doc)->0),
        r is Ok ==> (r->Ok_0).0 == visits_of_doc(*doc) && (r->Ok_0).1 == page_views_of_doc(*doc)
            && raw_view(((r->Ok_0).2)@) == raw_of_doc(*doc),
{
    match items_of(key_of(doc, "errors")) {
        Some(arr) => {
            if arr.len() > 0 {
                let mut msg = String::from_str("GraphQL errors: ");
                msg.append(errors_debug(arr).as_str());
                proof {
                    assert(msg@ =~= ("GraphQL errors: ")@ + errors_debug_chars(
                        doc_errors(*doc)->0,
                    ));
                }
                return Err(msg);
            }
        },
        None => (),
    }
    let acct = index_of(sub_of(sub_of(key_of(doc, "data"), "viewer"), "accounts"), 0);
    let totals = index_of(sub_of(acct, "totals"), 0);
    let visits = u64_or_zero(u64_of(sub_of(sub_of(totals, "sum"), "visits")));
    let page_views = u64_or_zero(u64_of(sub_of(totals, "count")));
    let mut raw: Vec<(String, (u64, u64))> = Vec::new();
    match items_of(sub_of(acct, "series")) {
        Some(sarr) => {
            let n = sarr.len();
            let mut i: usize = 0;
            proof {
                assert(sarr@.take(0) =~= Seq::<JsonDoc>::empty());
                assert(raw_view(raw@) =~= raw_of_items(sarr@.take(0)));
            }
            while i < n
                invariant
                    i <= n == sarr@.len(),
                    raw_view(raw@) == raw_of_items(sarr@.take(i as int)),
                decreases n - i,
            {
                let point = &sarr[i];
                let ts = str_of(sub_of(key_of(point, "dimensions"), "ts"));
                let pvis = u64_of(sub_of(key_of(point, "sum"), "visits"));
                let pcount = u64_of(key_of(point, "count"));
                match series_entry(ts, pvis, pcount) {
                    Some(e) => {
                        raw.push(e);
                    },
                    None => (),
                }
                proof {
                    assert(sarr@.take(i + 1).drop_last() =~= sarr@.take(i as int));
                    assert(sarr@.take(i + 1).last() == sarr@[i as int]);
                    assert(raw_view(raw@) =~= raw_of_items(sarr@.take(i + 1)));
                }
                i = i + 1;
            }
            proof {
                assert(sarr@.take(n as int) =~= sarr@);
            }
        },
        None => {
            proof {
                assert(raw_view(raw@) =~= raw_of_items(series_items_of_doc(*doc)));
            }
        },
    }
    Ok((visits, page_views, raw))
}

/// Interprets a whole metrics exchange: a non-success status is the
/// transport error with the stated message; a successful one reads the
/// body as `extract_metrics` does, an unparseable body failing with the
/// parser's message.
pub fn metrics_response(status_ok: bool, status: &str, body: &str) -> (r: Result<(
    u64,
    u64,
    Vec<(String, (u64, u64))>,
), String>)
    ensures
        !status_ok ==> r is Err && r->Err_0@ == ("GraphQL error: ")@ + status@,
        status_ok && json_doc_of(body@) is Err ==> r is Err && r->Err_0 == json_doc_of(
            body@,
        )->Err_0,
        status_ok && json_doc_of(body@) is Ok ==> ({
            let doc = json_doc_of(body@)->Ok_0;
            &&& (r is Err) <==> errors_fatal(doc)
            &&& r is Ok ==> (r->Ok_0).0 == visits_of_doc(doc) && (r->Ok_0).1 == page_views_of_doc(
                doc,
            ) && raw_view(((r->Ok_0).2)@) == raw_of_doc(doc)
        }),
{
    if !status_ok {
        return Err(graphql_error_message(status));
    }
    match parse_json_doc(body) {
        Ok(doc) => extract_metrics(&doc),
        Err(e) => Err(e),
    }
}

/// Assembles one site's snapshot entry: the aggregate totals as fetched
/// — deliberately not reconciled with the series sum — and the
/// gap-filled series over the resolved range.
pub fn make_site_data(
    name: &str,
    visits: u64,
    page_views: u64,
    start: &str,
    end: &str,
    ts_field: &str,
    raw: &Vec<(String, (u64, u64))>,
) -> (r: SiteData)
    ensures
        r.name@ == name@,
        r.visits == visits,
        r.page_views == page_views,
        ts_field@ == "datetimeHour"@ ==> r.series@.len() == bucket_count(
            datetime_or_zero(start@),
            datetime_or_zero(end@),
            3600,
        ) && hourly_points_ok(r.series@, datetime_or_zero(start@), raw@),
        ts_field@ != "datetimeHour"@ ==> r.series@.len() == bucket_count(
            date_or_zero(start@),
            date_or_zero(end@),
            86400,
        ) && daily_points_ok(r.series@, date_or_zero(start@), raw@),
{
    SiteData {
        name: name.to_owned(),
        visits,
        page_views,
        series: fill_series_gaps(start, end, ts_field, raw),
    }
}

} // verus!
