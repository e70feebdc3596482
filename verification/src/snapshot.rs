//! Folding per-site fetch results into the ranked snapshot: failures are
//! routed to a side log, successes are sorted by total visits, descending
//! and stable.
use crate::series::SeriesPoint;
use vstd::prelude::*;
use vstd::seq_lib::*;

verus! {

/// One site's share of a snapshot: the aggregate totals and the
/// gap-filled series.
#[derive(Clone, Debug)]
pub struct SiteData {
    pub name: String,
    pub visits: u64,
    pub page_views: u64,
    pub series: Vec<SeriesPoint>,
}

/// The payloads of the successful results, in order.
pub open spec fn ok_sites(s: Seq<Result<SiteData, String>>) -> Seq<SiteData>
    decreases s.len(),
{
    if s.len() == 0 {
        Seq::empty()
    } else if s[0] is Ok {
        seq![s[0]->Ok_0] + ok_sites(s.drop_first())
    } else {
        ok_sites(s.drop_first())
    }
}

/// The messages of the failed results, in order.
pub open spec fn err_messages(s: Seq<Result<SiteData, String>>) -> Seq<String>
    decreases s.len(),
{
    if s.len() == 0 {
        Seq::empty()
    } else if s[0] is Err {
        seq![s[0]->Err_0] + err_messages(s.drop_first())
    } else {
        err_messages(s.drop_first())
    }
}

/// Visit totals never increase along the sequence.
pub open spec fn sorted_desc(s: Seq<SiteData>) -> bool {
    forall|i: int, j: int| 0 <= i < j < s.len() ==> s[i].visits >= s[j].visits
}

/// Where a stable descending insertion puts `x`: after every element
/// with at least as many visits.
pub open spec fn insert_pos(s: Seq<SiteData>, x: SiteData) -> int
    decreases s.len(),
{
    if s.len() == 0 || s[0].visits < x.visits {
        0
    } else {
        1 + insert_pos(s.drop_first(), x)
    }
}

/// Inserts `x` after every element with at least as many visits.
pub open spec fn insert_desc(s: Seq<SiteData>, x: SiteData) -> Seq<SiteData>
    decreases s.len(),
{
    if s.len() == 0 || s[0].visits < x.visits {
        seq![x] + s
    } else {
        seq![s[0]] + insert_desc(s.drop_first(), x)
    }
}

/// The stable descending sort by visits, as repeated insertion.
pub open spec fn stable_sort_desc(s: Seq<SiteData>) -> Seq<SiteData>
    decreases s.len(),
{
    if s.len() == 0 {
        Seq::empty()
    } else {
        insert_desc(stable_sort_desc(s.drop_last()), s.last())
    }
}

/// The entries with exactly `v` total visits.
pub open spec fn visits_eq(v: u64) -> spec_fn(SiteData) -> bool {
    |e: SiteData| e.visits == v
}

proof fn lemma_insert_pos_props(s: Seq<SiteData>, x: SiteData)
    ensures
        0 <= insert_pos(s, x) <= s.len(),
        forall|j: int| 0 <= j < insert_pos(s, x) ==> s[j].visits >= x.visits,
        insert_pos(s, x) == s.len() || s[insert_pos(s, x)].visits < x.visits,
        insert_desc(s, x) == s.take(insert_pos(s, x)) + seq![x] + s.skip(insert_pos(s, x)),
    decreases s.len(),
{
    if s.len() == 0 || s[0].visits < x.visits {
        assert(insert_desc(s, x) =~= s.take(0) + seq![x] + s.skip(0));
    } else {
        lemma_insert_pos_props(s.drop_first(), x);
        let p = insert_pos(s, x);
        assert forall|j: int| 0 <= j < p implies s[j].visits >= x.visits by {
            if j > 0 {
                assert(s.drop_first()[j - 1] == s[j]);
            }
        }
        if p < s.len() {
            assert(s.drop_first()[p - 1] == s[p]);
        }
        assert(insert_desc(s, x) =~= s.take(p) + seq![x] + s.skip(p));
    }
}

proof fn lemma_insert_desc_sorted(s: Seq<SiteData>, x: SiteData)
    requires
        sorted_desc(s),
    ensures
        sorted_desc(insert_desc(s, x)),
        insert_desc(s, x).len() == s.len() + 1,
{
    lemma_insert_pos_props(s, x);
    let p = insert_pos(s, x);
    let t = insert_desc(s, x);
    assert forall|i: int, j: int| 0 <= i < j < t.len() implies t[i].visits >= t[j].visits by {
        if i < p {
            assert(t[i] == s[i]);
        } else if i == p {
            assert(t[i] == x);
        } else {
            assert(t[i] == s[i - 1]);
        }
        if j < p {
            assert(t[j] == s[j]);
        } else if j == p {
            assert(t[j] == x);
        } else {
            assert(t[j] == s[j - 1]);
        }
    }
}

/// The stable sort keeps the length and orders visits non-increasing.
pub proof fn lemma_stable_sort_sorted(s: Seq<SiteData>)
    ensures
        sorted_desc(stable_sort_desc(s)),
        stable_sort_desc(s).len() == s.len(),
    decreases s.len(),
{
    if s.len() > 0 {
        lemma_stable_sort_sorted(s.drop_last());
        lemma_insert_desc_sorted(stable_sort_desc(s.drop_last()), s.last());
    }
}

proof fn lemma_filter_singleton(x: SiteData, pred: spec_fn(SiteData) -> bool)
    ensures
        seq![x].filter(pred) == if pred(x) {
            seq![x]
        } else {
            Seq::<SiteData>::empty()
        },
{
    reveal(Seq::filter);
    assert(seq![x].drop_last() =~= Seq::<SiteData>::empty());
    assert(Seq::<SiteData>::empty().filter(pred) =~= Seq::<SiteData>::empty());
    if pred(x) {
        assert(seq![x].filter(pred) =~= seq![x]);
    }
}

proof fn lemma_no_match_filter_empty(s: Seq<SiteData>, pred: spec_fn(SiteData) -> bool)
    requires
        forall|i: int| 0 <= i < s.len() ==> !pred(s[i]),
    ensures
        s.filter(pred) == Seq::<SiteData>::empty(),
    decreases s.len(),
{
    reveal(Seq::filter);
    if s.len() > 0 {
        assert(!pred(s.last()));
        lemma_no_match_filter_empty(s.drop_last(), pred);
    }
}

proof fn lemma_insert_desc_filter(t: Seq<SiteData>, x: SiteData, v: u64)
    requires
        sorted_desc(t),
    ensures
        insert_desc(t, x).filter(visits_eq(v)) == if x.visits == v {
            t.filter(visits_eq(v)) + seq![x]
        } else {
            t.filter(visits_eq(v))
        },
{
    let pred = visits_eq(v);
    lemma_insert_pos_props(t, x);
    let p = insert_pos(t, x);
    let a = t.take(p);
    let b = t.skip(p);
    assert(t =~= a + b);
    assert(insert_desc(t, x) =~= (a + seq![x]) + b);
    Seq::<SiteData>::filter_distributes_over_add(a, seq![x], pred);
    Seq::<SiteData>::filter_distributes_over_add(a + seq![x], b, pred);
    Seq::<SiteData>::filter_distributes_over_add(a, b, pred);
    lemma_filter_singleton(x, pred);
    if x.visits == v {
        assert forall|i: int| 0 <= i < b.len() implies !pred(b[i]) by {
            if p < t.len() {
                assert(b[i] == t[p + i]);
                assert(t[p + i].visits <= t[p].visits);
            }
        }
        lemma_no_match_filter_empty(b, pred);
        assert(insert_desc(t, x).filter(pred) =~= t.filter(pred) + seq![x]);
    } else {
        assert(insert_desc(t, x).filter(pred) =~= t.filter(pred));
    }
}

/// The sort is stable: among the entries with any one visit total, the
/// original order is kept exactly.
pub proof fn lemma_stable_sort_stable(s: Seq<SiteData>, v: u64)
    ensures
        stable_sort_desc(s).filter(visits_eq(v)) == s.filter(visits_eq(v)),
    decreases s.len(),
{
    reveal(Seq::filter);
    let pred = visits_eq(v);
    if s.len() == 0 {
        assert(stable_sort_desc(s).filter(pred) =~= s.filter(pred));
    } else {
        let rest = s.drop_last();
        let x = s.last();
        lemma_stable_sort_stable(rest, v);
        lemma_stable_sort_sorted(rest);
        lemma_insert_desc_filter(stable_sort_desc(rest), x, v);
        if pred(x) {
            assert(s.filter(pred) == rest.filter(pred).push(x));
            assert(rest.filter(pred).push(x) =~= rest.filter(pred) + seq![x]);
        } else {
            assert(s.filter(pred) == rest.filter(pred));
        }
    }
}

proof fn lemma_all_ok(s: Seq<Result<SiteData, String>>)
    requires
        forall|j: int| 0 <= j < s.len() ==> s[j] is Ok,
    ensures
        ok_sites(s).len() == s.len(),
        forall|j: int| 0 <= j < s.len() ==> ok_sites(s)[j] == s[j]->Ok_0,
    decreases s.len(),
{
    if s.len() > 0 {
        lemma_all_ok(s.drop_first());
        assert forall|j: int| 0 <= j < s.len() implies ok_sites(s)[j] == s[j]->Ok_0 by {
            if j > 0 {
                assert(s.drop_first()[j - 1] == s[j]);
            }
        }
    }
}

/// When exactly one of the per-site results failed, the collected
/// snapshot holds exactly the other sites' data, unchanged and in their
/// original order.
pub proof fn lemma_one_failure_drops_one(results: Seq<Result<SiteData, String>>, k: int)
    requires
        0 <= k < results.len(),
        results[k] is Err,
        forall|j: int| 0 <= j < results.len() && j != k ==> results[j] is Ok,
    ensures
        ok_sites(results).len() == results.len() - 1,
        forall|j: int| 0 <= j < k ==> ok_sites(results)[j] == results[j]->Ok_0,
        forall|j: int| k < j < results.len() ==> ok_sites(results)[j - 1] == results[j]->Ok_0,
    decreases results.len(),
{
    let rest = results.drop_first();
    if k == 0 {
        assert forall|j: int| 0 <= j < rest.len() implies rest[j] is Ok by {
            assert(rest[j] == results[j + 1]);
        }
        lemma_all_ok(rest);
        assert forall|j: int| 0 < j < results.len() implies ok_sites(results)[j - 1] == results[j]->Ok_0 by {
            assert(rest[j - 1] == results[j]);
        }
    } else {
        assert(rest[k - 1] is Err);
        assert forall|j: int| 0 <= j < rest.len() && j != k - 1 implies rest[j] is Ok by {
            assert(rest[j] == results[j + 1]);
        }
        lemma_one_failure_drops_one(rest, k - 1);
        assert forall|j: int| 0 <= j < k implies ok_sites(results)[j] == results[j]->Ok_0 by {
            if j > 0 {
                assert(rest[j - 1] == results[j]);
            }
        }
        assert forall|j: int| k < j < results.len() implies ok_sites(results)[j - 1] == results[j]->Ok_0 by {
            assert(rest[j - 1] == results[j]);
        }
    }
}

/// Splits per-site results into the successful sites, in order, and the
/// failure messages, in order: one bad fetch costs one entry and leaves
/// every other entry untouched.
pub fn collect_successes(results: Vec<Result<SiteData, String>>) -> (r: (Vec<SiteData>, Vec<
    String,
>))
    ensures
        r.0@ == ok_sites(results@),
        r.1@ == err_messages(results@),
{
    let ghost orig = results@;
    let mut rest = results;
    let mut sites: Vec<SiteData> = Vec::new();
    let mut errors: Vec<String> = Vec::new();
    while rest.len() > 0
        invariant
            ok_sites(orig) == sites@ + ok_sites(rest@),
            err_messages(orig) == errors@ + err_messages(rest@),
        decreases rest.len(),
    {
        let ghost pre = rest@;
        let item = rest.remove(0);
        proof {
            assert(pre.drop_first() =~= rest@);
        }
        match item {
            Ok(site) => {
                sites.push(site);
                proof {
                    assert(sites@ + ok_sites(rest@) =~= ok_sites(orig));
                    assert(errors@ + err_messages(rest@) =~= err_messages(orig));
                }
            },
            Err(msg) => {
                errors.push(msg);
                proof {
                    assert(sites@ + ok_sites(rest@) =~= ok_sites(orig));
                    assert(errors@ + err_messages(rest@) =~= err_messages(orig));
                }
            },
        }
    }
    proof {
        assert(sites@ + ok_sites(rest@) =~= sites@);
        assert(errors@ + err_messages(rest@) =~= errors@);
    }
    (sites, errors)
}

/// Inserts one site into an already sorted vector, after every entry
/// with at least as many visits.
fn insert_sorted(out: &mut Vec<SiteData>, x: SiteData)
    requires
        sorted_desc(old(out)@),
    ensures
        final(out)@ == insert_desc(old(out)@, x),
        sorted_desc(final(out)@),
{
    let n = out.len();
    let mut p: usize = 0;
    while p < n && out[p].visits >= x.visits
        invariant
            p <= n == out@.len(),
            forall|j: int| 0 <= j < p ==> out@[j].visits >= x.visits,
        decreases n - p,
    {
        p = p + 1;
    }
    proof {
        lemma_insert_pos_props(out@, x);
        lemma_insert_desc_sorted(out@, x);
        assert(p as int == insert_pos(out@, x));
    }
    out.insert(p, x);
    proof {
        assert(out@ =~= old(out)@.take(p as int) + seq![x] + old(out)@.skip(p as int));
    }
}

/// Sorts the snapshot descending by total visits; the sort is stable, so
/// entries with equal visits keep their discovery order.
pub fn sort_sites_by_visits(sites: &mut Vec<SiteData>)
    ensures
        final(sites)@ == stable_sort_desc(old(sites)@),
        sorted_desc(final(sites)@),
{
    let ghost orig = sites@;
    let ghost mut k: int = 0;
    let mut out: Vec<SiteData> = Vec::new();
    proof {
        assert(orig.take(0) =~= Seq::<SiteData>::empty());
    }
    while sites.len() > 0
        invariant
            0 <= k <= orig.len(),
            sites@ =~= orig.skip(k),
            out@ == stable_sort_desc(orig.take(k)),
            sorted_desc(out@),
        decreases sites@.len(),
    {
        let ghost pre = sites@;
        let x = sites.remove(0);
        proof {
            assert(pre.drop_first() =~= sites@);
            assert(x == orig[k]);
        }
        insert_sorted(&mut out, x);
        proof {
            k = k + 1;
            assert(sites@ =~= orig.skip(k));
            assert(orig.take(k).drop_last() =~= orig.take(k - 1));
            assert(orig.take(k).last() == orig[k - 1]);
        }
    }
    proof {
        assert(orig.take(k) =~= orig);
    }
    *sites = out;
}

/// The whole fold: keep the successes, log the failures aside, and rank
/// the result.
pub fn assemble_snapshot(results: Vec<Result<SiteData, String>>) -> (r: (Vec<SiteData>, Vec<
    String,
>))
    ensures
        r.0@ == stable_sort_desc(ok_sites(results@)),
        sorted_desc(r.0@),
        r.1@ == err_messages(results@),
{
    let (mut sites, errors) = collect_successes(results);
    sort_sites_by_visits(&mut sites);
    (sites, errors)
}

} // verus!
