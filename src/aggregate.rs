//! Merging the activity of a whole sweep and ordering it.

use vstd::prelude::*;
use crate::extract::{host_activity, host_records};
use crate::model::{ActivityView, AllConnections, GeneralPresentation, views};

verus! {

/// Holds of the records whose elapsed time is `k`.
pub open spec fn has_elapsed(k: u32) -> spec_fn(ActivityView) -> bool {
    |a: ActivityView| a.query_time_ms == k
}

/// Longest elapsed time first.
pub open spec fn is_elapsed_desc(s: Seq<ActivityView>) -> bool {
    forall|i: int, j: int|
        0 <= i < j < s.len() ==> #[trigger] s[i].query_time_ms >= #[trigger] s[j].query_time_ms
}

/// For every elapsed time, the records that have it come in the same order in
/// `out` as in `produced`.
pub open spec fn same_ties(out: Seq<ActivityView>, produced: Seq<ActivityView>) -> bool {
    forall|k: u32| out.filter(#[trigger] has_elapsed(k)) == produced.filter(has_elapsed(k))
}

proof fn lemma_filter_none(s: Seq<ActivityView>, pred: spec_fn(ActivityView) -> bool)
    requires
        forall|i: int| 0 <= i < s.len() ==> !pred(#[trigger] s[i]),
    ensures
        s.filter(pred) == Seq::<ActivityView>::empty(),
    decreases s.len(),
{
    reveal(Seq::filter);
    if s.len() > 0 {
        lemma_filter_none(s.drop_last(), pred);
    }
}

/// Putting `x` at `p`, after the records that took longer, keeps the ties in
/// the order of `seq![x] + v`.
proof fn lemma_insert_keeps_ties(v: Seq<ActivityView>, p: int, x: ActivityView, k: u32)
    requires
        0 <= p <= v.len(),
        forall|i: int| 0 <= i < p ==> #[trigger] v[i].query_time_ms > x.query_time_ms,
    ensures
        (v.take(p) + seq![x] + v.skip(p)).filter(has_elapsed(k)) == (seq![x] + v).filter(
            has_elapsed(k),
        ),
{
    let hk = has_elapsed(k);
    let t = v.take(p);
    let s = v.skip(p);
    Seq::filter_distributes_over_add(t + seq![x], s, hk);
    Seq::filter_distributes_over_add(t, seq![x], hk);
    assert(v =~= t + s);
    Seq::filter_distributes_over_add(t, s, hk);
    v.lemma_filter_prepend(x, hk);
    reveal(Seq::filter);
    Seq::<ActivityView>::empty().lemma_filter_push(x, hk);
    assert(Seq::<ActivityView>::empty().push(x) =~= seq![x]);
    if hk(x) {
        lemma_filter_none(t, hk);
        assert((t + seq![x] + s).filter(hk) =~= seq![x] + s.filter(hk));
        assert((seq![x] + v).filter(hk) =~= seq![x] + s.filter(hk));
    } else {
        assert((t + seq![x] + s).filter(hk) =~= t.filter(hk) + s.filter(hk));
        assert((seq![x] + v).filter(hk) =~= t.filter(hk) + s.filter(hk));
    }
}

/// Where a record with elapsed time `e` goes in `sorted`: after every record
/// that took longer, before the others.
fn insertion_point(sorted: &Vec<GeneralPresentation>, e: u32) -> (p: usize)
    requires
        is_elapsed_desc(views(sorted@)),
    ensures
        p <= sorted@.len(),
        forall|i: int| 0 <= i < p ==> #[trigger] sorted@[i].query_time_ms > e,
        forall|i: int| p <= i < sorted@.len() ==> #[trigger] sorted@[i].query_time_ms <= e,
{
    let mut p: usize = 0;
    while p < sorted.len() && sorted[p].query_time_ms > e
        invariant
            p <= sorted@.len(),
            forall|i: int| 0 <= i < p ==> #[trigger] sorted@[i].query_time_ms > e,
        decreases sorted@.len() - p,
    {
        p = p + 1;
    }
    proof {
        if p < sorted@.len() {
            assert forall|i: int| p <= i < sorted@.len() implies #[trigger] sorted@[i].query_time_ms
                <= e by {
                if p < i {
                    assert(views(sorted@)[p as int].query_time_ms >= views(sorted@)[i].query_time_ms);
                }
            }
        }
    }
    p
}

/// Orders records by elapsed time, longest first; records with equal elapsed
/// times keep their order.
pub fn sort_by_elapsed_desc(records: Vec<GeneralPresentation>) -> (r: Vec<GeneralPresentation>)
    ensures
        r@.len() == records@.len(),
        is_elapsed_desc(views(r@)),
        same_ties(views(r@), views(records@)),
{
    let ghost orig = views(records@);
    let mut rest = records;
    let mut out: Vec<GeneralPresentation> = Vec::new();
    assert(orig.take(orig.len() as int) =~= orig);
    assert(views(out@) =~= orig.skip(orig.len() as int));
    while rest.len() > 0
        invariant
            rest@.len() <= orig.len(),
            views(rest@) == orig.take(rest@.len() as int),
            out@.len() == orig.len() - rest@.len(),
            is_elapsed_desc(views(out@)),
            same_ties(views(out@), orig.skip(rest@.len() as int)),
        decreases rest@.len(),
    {
        let ghost n = rest@.len() as int;
        let ghost prior = out@;
        let ghost old_rest = rest@;
        let ghost before = views(prior);
        let x = match rest.pop() {
            Some(x) => x,
            None => { return out; },
        };
        assert(x@ == orig[n - 1]) by {
            assert(x == old_rest[n - 1]);
            assert(views(old_rest)[n - 1] == orig.take(n)[n - 1]);
        }
        assert(views(rest@) =~= orig.take(n - 1));
        let p = insertion_point(&out, x.query_time_ms);
        out.insert(p, x);
        let ghost after = views(out@);
        assert(after =~= before.take(p as int) + seq![x@] + before.skip(p as int));
        assert(orig.skip(n - 1) =~= seq![x@] + orig.skip(n));
        assert forall|i: int, j: int| 0 <= i < j < after.len() implies #[trigger] after[i].query_time_ms
            >= #[trigger] after[j].query_time_ms by {
            if j < p {
            } else if j == p {
            } else if i < p {
                assert(before[i].query_time_ms > x.query_time_ms);
            } else if i == p {
                assert(before[j - 1].query_time_ms <= x.query_time_ms);
            } else {
                assert(before[i - 1].query_time_ms >= before[j - 1].query_time_ms);
            }
        }
        assert forall|k: u32| after.filter(#[trigger] has_elapsed(k)) == orig.skip(n - 1).filter(
            has_elapsed(k),
        ) by {
            assert forall|i: int| 0 <= i < p implies #[trigger] before[i].query_time_ms
                > x.query_time_ms by {
                assert(before[i] == prior[i]@);
            }
            lemma_insert_keeps_ties(before, p as int, x@, k);
            Seq::filter_distributes_over_add(seq![x@], before, has_elapsed(k));
            Seq::filter_distributes_over_add(seq![x@], orig.skip(n), has_elapsed(k));
        }
    }
    assert(orig.skip(0) =~= orig);
    out
}

/// The records of a sweep, in production order: node by node, in the order of
/// `results`, each node's records as its document lists them.
pub open spec fn sweep_records(results: Seq<(String, AllConnections)>, show_idle: bool) -> Seq<
    ActivityView,
> {
    results.map_values(
        |hr: (String, AllConnections)| host_records(hr.0@, hr.1, show_idle),
    ).flatten()
}

/// Gathers the records of a sweep, in production order. Each entry of
/// `results` is a node and what its document held.
pub fn collect_activity(results: &Vec<(String, AllConnections)>, show_idle: bool) -> (r: Vec<
    GeneralPresentation,
>)
    ensures
        views(r@) == sweep_records(results@, show_idle),
{
    let ghost per = |hr: (String, AllConnections)| host_records(hr.0@, hr.1, show_idle);
    let mut out: Vec<GeneralPresentation> = Vec::new();
    let mut i: usize = 0;
    assert(results@.take(0).map_values(per) =~= Seq::<Seq<ActivityView>>::empty());
    assert(views(out@) =~= Seq::<ActivityView>::empty());
    while i < results.len()
        invariant
            i <= results@.len(),
            per == (|hr: (String, AllConnections)| host_records(hr.0@, hr.1, show_idle)),
            views(out@) == results@.take(i as int).map_values(per).flatten(),
        decreases results@.len() - i,
    {
        let ghost before = results@.take(i as int).map_values(per);
        let ghost prior = out@;
        let (server, payload) = &results[i];
        let mut found = host_activity(server.as_str(), payload, show_idle);
        let ghost added = found@;
        out.append(&mut found);
        assert(results@.take(i + 1).map_values(per) =~= before.push(per(results@[i as int])));
        proof {
            before.lemma_flatten_push(per(results@[i as int]));
        }
        assert(views(out@) =~= views(prior) + views(added));
        i = i + 1;
    }
    assert(results@.take(results@.len() as int) =~= results@);
    out
}

/// The activity of a sweep, longest elapsed time first. Records with equal
/// elapsed times stay in production order.
pub fn aggregate(results: &Vec<(String, AllConnections)>, show_idle: bool) -> (r: Vec<
    GeneralPresentation,
>)
    ensures
        r@.len() == sweep_records(results@, show_idle).len(),
        is_elapsed_desc(views(r@)),
        same_ties(views(r@), sweep_records(results@, show_idle)),
{
    let records = collect_activity(results, show_idle);
    sort_by_elapsed_desc(records)
}

} // verus!
