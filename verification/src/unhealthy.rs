//! Unhealthy-workload detection: readiness classification of the
//! replicated workload kinds, enriched with pod-level restart and error
//! signals merged through ownership resolution.

use vstd::prelude::*;
use vstd::string::StringExecFns;

use crate::entities::incident::{UnhealthyWorkload, UnhealthyWorkloadView};
use crate::events::{lookup_events, spec_lookup_events};
use crate::formatting::{ratio_seq, ready_ratio};
use crate::obs::{ContainerObsView, EventSource, EventSourceView, PodObs, PodObsView, ReplicaSetObs, WorkloadObs, WorkloadObsView};
use crate::owner::{generation_index, resolve, spec_resolve, ReplicaSetIndex};
use crate::podview::{pod_restart_total, sum_restarts};
use crate::saturation::{group_restarts, pods_restarts_ok};
use crate::text::{lex_lt, str_eq, str_lex_lt};

verus! {

/// A workload's effective desired count, with the kind's default for a
/// missing declaration.
pub open spec fn eff_desired_or(w: WorkloadObsView, dflt: int) -> int {
    match w.desired {
        Some(d) => d as int,
        None => dflt,
    }
}

/// A workload's effective ready count, defaulting to 0.
pub open spec fn eff_ready0(w: WorkloadObsView) -> int {
    match w.ready {
        Some(r) => r as int,
        None => 0,
    }
}

/// The unready workloads of one kind's listing, in order: each carries
/// its readiness ratio, empty pod signals, and its fetched events.
pub open spec fn classify_unhealthy(
    ws: Seq<WorkloadObsView>,
    kind: Seq<char>,
    dflt_desired: int,
    events: Seq<EventSourceView>,
) -> Seq<UnhealthyWorkloadView>
    decreases ws.len(),
{
    if ws.len() == 0 {
        Seq::empty()
    } else {
        let w = ws.last();
        classify_unhealthy(ws.drop_last(), kind, dflt_desired, events) + if eff_ready0(w)
            < eff_desired_or(w, dflt_desired) {
            seq![
                UnhealthyWorkloadView {
                    name: w.name,
                    kind: kind,
                    ready: ratio_seq(eff_ready0(w), eff_desired_or(w, dflt_desired)),
                    restart_count: 0,
                    pod_errors: Seq::empty(),
                    events: spec_lookup_events(events, w.name, kind),
                },
            ]
        } else {
            Seq::empty()
        }
    }
}

/// A waiting reason that counts as a pod error.
pub open spec fn unhealthy_waiting_reason(r: Seq<char>) -> bool {
    r == "CrashLoopBackOff"@ || r == "Error"@ || r == "ImagePullBackOff"@ || r == "ErrImagePull"@
        || r == "CreateContainerConfigError"@
}

/// A terminated reason that counts as a pod error.
pub open spec fn unhealthy_terminated_reason(r: Seq<char>) -> bool {
    r == "Error"@ || r == "OOMKilled"@
}

/// The error texts one container contributes: `pod: reason` for an
/// unhealthy waiting reason, then for an unhealthy terminated reason.
pub open spec fn container_errs(name: Seq<char>, c: ContainerObsView) -> Seq<Seq<char>> {
    (match c.waiting_reason {
        Some(r) => if unhealthy_waiting_reason(r) {
            seq![name + ": "@ + r]
        } else {
            Seq::empty()
        },
        None => Seq::empty(),
    }) + (match c.terminated_reason {
        Some(r) => if unhealthy_terminated_reason(r) {
            seq![name + ": "@ + r]
        } else {
            Seq::empty()
        },
        None => Seq::empty(),
    })
}

/// A pod's error texts, over its containers in order.
pub open spec fn pod_errors_of(name: Seq<char>, cs: Seq<ContainerObsView>) -> Seq<Seq<char>>
    decreases cs.len(),
{
    if cs.len() == 0 {
        Seq::empty()
    } else {
        pod_errors_of(name, cs.drop_last()) + container_errs(name, cs.last())
    }
}

/// The first entry with the given workload name.
pub open spec fn find_entry(acc: Seq<UnhealthyWorkloadView>, name: Seq<char>) -> Option<int>
    decreases acc.len(),
{
    if acc.len() == 0 {
        None
    } else if acc[0].name == name {
        Some(0int)
    } else {
        match find_entry(acc.drop_first(), name) {
            Some(i) => Some(i + 1),
            None => None,
        }
    }
}

/// `find_entry` returns the first match.
proof fn lemma_find_entry_at(acc: Seq<UnhealthyWorkloadView>, name: Seq<char>, k: int)
    requires
        0 <= k < acc.len(),
        acc[k].name == name,
        forall|j: int| 0 <= j < k ==> (#[trigger] acc[j].name) != name,
    ensures
        find_entry(acc, name) == Some(k),
    decreases acc.len(),
{
    if k > 0 {
        lemma_find_entry_at(acc.drop_first(), name, k - 1);
        assert(forall|j: int|
            0 <= j < acc.drop_first().len() ==> #[trigger] acc.drop_first()[j] == acc[j + 1]);
    }
}

/// `find_entry` misses exactly when no entry has the name.
proof fn lemma_find_entry_none(acc: Seq<UnhealthyWorkloadView>, name: Seq<char>)
    requires
        forall|j: int| 0 <= j < acc.len() ==> (#[trigger] acc[j].name) != name,
    ensures
        find_entry(acc, name) is None,
    decreases acc.len(),
{
    if acc.len() > 0 {
        assert(forall|j: int|
            0 <= j < acc.drop_first().len() ==> #[trigger] acc.drop_first()[j] == acc[j + 1]);
        lemma_find_entry_none(acc.drop_first(), name);
    }
}

/// One pod's signal folded into the accumulated listing: merged into
/// the first entry of its resolved owner, or synthesized as a new entry
/// (ready ratio `?`) when the owner reads healthy but the pod shows
/// more than 5 restarts or any error; pods that resolve to nothing, or
/// are quiet, change nothing.
pub open spec fn merge_pod(
    acc: Seq<UnhealthyWorkloadView>,
    p: PodObsView,
    idx: Map<Seq<char>, Seq<char>>,
    events: Seq<EventSourceView>,
) -> Seq<UnhealthyWorkloadView> {
    match spec_resolve(p.owners, idx) {
        None => acc,
        Some(o) => {
            let restarts = sum_restarts(p.containers);
            let errs = pod_errors_of(p.name, p.containers);
            match find_entry(acc, o.name) {
                Some(k) => acc.update(
                    k,
                    UnhealthyWorkloadView {
                        restart_count: acc[k].restart_count + restarts,
                        pod_errors: acc[k].pod_errors + errs,
                        ..acc[k]
                    },
                ),
                None => if restarts > 5 || errs.len() > 0 {
                    acc.push(
                        UnhealthyWorkloadView {
                            name: o.name,
                            kind: o.kind,
                            ready: "?"@,
                            restart_count: restarts,
                            pod_errors: errs,
                            events: spec_lookup_events(events, o.name, o.kind),
                        },
                    )
                } else {
                    acc
                },
            }
        },
    }
}

/// Every pod's signal folded in, in listing order.
pub open spec fn merge_pods(
    acc: Seq<UnhealthyWorkloadView>,
    pods: Seq<PodObsView>,
    idx: Map<Seq<char>, Seq<char>>,
    events: Seq<EventSourceView>,
) -> Seq<UnhealthyWorkloadView>
    decreases pods.len(),
{
    if pods.len() == 0 {
        acc
    } else {
        merge_pods(merge_pod(acc, pods[0], idx, events), pods.drop_first(), idx, events)
    }
}

/// The sum of the listing's restart counts.
pub open spec fn entries_total(acc: Seq<UnhealthyWorkloadView>) -> int
    decreases acc.len(),
{
    if acc.len() == 0 {
        0
    } else {
        entries_total(acc.drop_last()) + acc.last().restart_count
    }
}

/// With non-negative counts, one entry never exceeds the listing's sum.
proof fn lemma_entry_le_total(acc: Seq<UnhealthyWorkloadView>, k: int)
    requires
        0 <= k < acc.len(),
        forall|j: int| 0 <= j < acc.len() ==> (#[trigger] acc[j].restart_count) >= 0,
    ensures
        0 <= acc[k].restart_count,
        acc[k].restart_count <= entries_total(acc),
        entries_total(acc) >= 0,
    decreases acc.len(),
{
    lemma_entries_total_nonneg(acc);
    if k < acc.len() - 1 {
        assert(forall|j: int|
            0 <= j < acc.len() - 1 ==> #[trigger] acc.drop_last()[j] == acc[j]);
        lemma_entry_le_total(acc.drop_last(), k);
    } else {
        lemma_entries_total_nonneg(acc.drop_last());
        assert(forall|j: int|
            0 <= j < acc.len() - 1 ==> #[trigger] acc.drop_last()[j] == acc[j]);
    }
}

proof fn lemma_entries_total_nonneg(acc: Seq<UnhealthyWorkloadView>)
    requires
        forall|j: int| 0 <= j < acc.len() ==> (#[trigger] acc[j].restart_count) >= 0,
    ensures
        entries_total(acc) >= 0,
    decreases acc.len(),
{
    if acc.len() > 0 {
        assert(forall|j: int|
            0 <= j < acc.len() - 1 ==> #[trigger] acc.drop_last()[j] == acc[j]);
        lemma_entries_total_nonneg(acc.drop_last());
    }
}

/// Updating one entry's count changes the sum by the difference.
proof fn lemma_entries_total_update(
    acc: Seq<UnhealthyWorkloadView>,
    k: int,
    e: UnhealthyWorkloadView,
)
    requires
        0 <= k < acc.len(),
    ensures
        entries_total(acc.update(k, e)) == entries_total(acc) - acc[k].restart_count
            + e.restart_count,
    decreases acc.len(),
{
    let upd = acc.update(k, e);
    if k == acc.len() - 1 {
        assert(upd.drop_last() =~= acc.drop_last());
        assert(upd.last() == e);
    } else {
        assert(upd.drop_last() =~= acc.drop_last().update(k, e));
        assert(upd.last() == acc.last());
        lemma_entries_total_update(acc.drop_last(), k, e);
        assert(acc.drop_last()[k] == acc[k]);
    }
}

/// Appending an entry adds its count to the sum.
proof fn lemma_entries_total_push(acc: Seq<UnhealthyWorkloadView>, e: UnhealthyWorkloadView)
    ensures
        entries_total(acc.push(e)) == entries_total(acc) + e.restart_count,
{
    assert(acc.push(e).drop_last() =~= acc);
    assert(acc.push(e).last() == e);
}

/// Prefix totals of pod restarts never exceed the whole listing's.
pub proof fn lemma_group_restarts_prefix(pods: Seq<PodObsView>, i: int)
    requires
        pods_restarts_ok(pods),
        0 <= i <= pods.len(),
    ensures
        0 <= group_restarts(pods.take(i)) <= group_restarts(pods),
    decreases pods.len() - i,
{
    lemma_group_take_nonneg(pods, i);
    if i < pods.len() {
        lemma_group_restarts_prefix(pods, i + 1);
        assert(pods.take(i + 1).drop_last() =~= pods.take(i));
        assert(pods.take(i + 1).last() == pods[i]);
        crate::podview::lemma_sum_restarts_prefix(pods[i].containers, pods[i].containers.len() as int);
        assert(pods[i].containers.take(pods[i].containers.len() as int) =~= pods[i].containers);
    } else {
        assert(pods.take(i) =~= pods);
    }
}

proof fn lemma_group_take_nonneg(pods: Seq<PodObsView>, i: int)
    requires
        pods_restarts_ok(pods),
        0 <= i <= pods.len(),
    ensures
        group_restarts(pods.take(i)) >= 0,
    decreases i,
{
    if i > 0 {
        lemma_group_take_nonneg(pods, i - 1);
        assert(pods.take(i).drop_last() =~= pods.take(i - 1));
        assert(pods.take(i).last() == pods[i - 1]);
        crate::podview::lemma_sum_restarts_prefix(
            pods[i - 1].containers,
            pods[i - 1].containers.len() as int,
        );
        assert(pods[i - 1].containers.take(pods[i - 1].containers.len() as int) =~= pods[i
            - 1].containers);
    }
}

/// Classification starts every entry at zero restarts.
proof fn lemma_classify_zero(
    ws: Seq<WorkloadObsView>,
    kind: Seq<char>,
    dflt: int,
    events: Seq<EventSourceView>,
)
    ensures
        forall|j: int|
            0 <= j < classify_unhealthy(ws, kind, dflt, events).len() ==> (
            #[trigger] classify_unhealthy(ws, kind, dflt, events)[j].restart_count) == 0,
        entries_total(classify_unhealthy(ws, kind, dflt, events)) == 0,
    decreases ws.len(),
{
    if ws.len() > 0 {
        lemma_classify_zero(ws.drop_last(), kind, dflt, events);
        let prev = classify_unhealthy(ws.drop_last(), kind, dflt, events);
        let cur = classify_unhealthy(ws, kind, dflt, events);
        assert(forall|j: int| 0 <= j < prev.len() ==> #[trigger] cur[j] == prev[j]);
        if cur.len() > prev.len() {
            assert(cur.drop_last() =~= prev);
            lemma_entries_total_push(prev, cur.last());
        } else {
            assert(cur =~= prev);
        }
    }
}

/// A sum of two entry listings sums entry totals.
proof fn lemma_entries_total_concat(a: Seq<UnhealthyWorkloadView>, b: Seq<UnhealthyWorkloadView>)
    ensures
        entries_total(a + b) == entries_total(a) + entries_total(b),
    decreases b.len(),
{
    if b.len() == 0 {
        assert(a + b =~= a);
    } else {
        lemma_entries_total_concat(a, b.drop_last());
        assert((a + b).drop_last() =~= a + b.drop_last());
        assert((a + b).last() == b.last());
    }
}

/// An unhealthy entry's severity: restarts plus tenfold its error count.
pub open spec fn unhealthy_score(w: UnhealthyWorkloadView) -> int {
    w.restart_count + 10 * w.pod_errors.len()
}

/// `a` must come strictly before `b` in the unhealthy listing: higher
/// severity first, ties broken by name so the order does not depend on
/// the encounter order of equal entries.
pub open spec fn unhealthy_before(a: UnhealthyWorkloadView, b: UnhealthyWorkloadView) -> bool {
    unhealthy_score(a) > unhealthy_score(b) || (unhealthy_score(a) == unhealthy_score(b) && lex_lt(
        a.name,
        b.name,
    ))
}

/// Insertion of one entry into a severity-descending run, after every
/// entry it does not strictly precede.
pub open spec fn insert_unhealthy_desc(
    x: UnhealthyWorkloadView,
    s: Seq<UnhealthyWorkloadView>,
) -> Seq<UnhealthyWorkloadView>
    decreases s.len(),
{
    if s.len() == 0 {
        seq![x]
    } else if unhealthy_before(x, s[0]) {
        seq![x] + s
    } else {
        seq![s[0]] + insert_unhealthy_desc(x, s.drop_first())
    }
}

/// Stable ordering of the unhealthy listing: severity descending, ties
/// by name ascending.
pub open spec fn sort_unhealthy_desc(s: Seq<UnhealthyWorkloadView>) -> Seq<UnhealthyWorkloadView>
    decreases s.len(),
{
    if s.len() == 0 {
        Seq::empty()
    } else {
        insert_unhealthy_desc(s.last(), sort_unhealthy_desc(s.drop_last()))
    }
}

proof fn lemma_insert_unhealthy_at(
    x: UnhealthyWorkloadView,
    s: Seq<UnhealthyWorkloadView>,
    j: int,
)
    requires
        0 <= j <= s.len(),
        forall|k: int| 0 <= k < j ==> !unhealthy_before(x, #[trigger] s[k]),
        j < s.len() ==> unhealthy_before(x, s[j]),
    ensures
        insert_unhealthy_desc(x, s) =~= s.take(j) + seq![x] + s.skip(j),
    decreases s.len(),
{
    if s.len() == 0 {
        assert(insert_unhealthy_desc(x, s) =~= s.take(j) + seq![x] + s.skip(j));
    } else if j == 0 {
        assert(insert_unhealthy_desc(x, s) =~= s.take(0) + seq![x] + s.skip(0));
    } else {
        lemma_insert_unhealthy_at(x, s.drop_first(), j - 1);
        assert(forall|k: int| 0 <= k < j - 1 ==> #[trigger] s.drop_first()[k] == s[k + 1]);
        assert(s.drop_first().take(j - 1) =~= s.take(j).drop_first());
        assert(s.drop_first().skip(j - 1) =~= s.skip(j));
        assert(insert_unhealthy_desc(x, s) =~= seq![s[0]] + insert_unhealthy_desc(
            x,
            s.drop_first(),
        ));
        assert(insert_unhealthy_desc(x, s) =~= s.take(j) + seq![x] + s.skip(j));
    }
}

/// An entry's severity, computed exactly.
fn unhealthy_score_exec(w: &UnhealthyWorkload) -> (r: i128)
    ensures
        r as int == unhealthy_score(w@),
{
    let errs: i128 = w.pod_errors.len() as i128;
    (w.restart_count as i128) + 10 * errs
}

/// Sort the unhealthy listing by severity descending, ties by name
/// ascending, equal entries keeping their order.
#[verifier::rlimit(60)]
fn sort_unhealthy(v: Vec<UnhealthyWorkload>) -> (r: Vec<UnhealthyWorkload>)
    ensures
        r.deep_view() == sort_unhealthy_desc(v.deep_view()),
{
    let ghost all = v.deep_view();
    let mut src = v;
    let mut out: Vec<UnhealthyWorkload> = Vec::new();
    let ghost i: int = 0;
    proof {
        assert(all.take(0) =~= Seq::<UnhealthyWorkloadView>::empty());
        assert(all.skip(0) =~= all);
    }
    while src.len() > 0
        invariant
            0 <= i <= all.len(),
            src.deep_view() =~= all.skip(i),
            out.deep_view() =~= sort_unhealthy_desc(all.take(i)),
        decreases src.len(),
    {
        let ghost pre = src.deep_view();
        proof {
            assert(pre.len() == src@.len());
            assert(pre.len() == all.skip(i).len());
            assert(i < all.len());
            assert(all.skip(i)[0] == all[i]);
            assert(pre[0] == all[i]);
        }
        let x = src.remove(0);
        proof {
            assert(src.deep_view() =~= pre.remove(0));
            assert(pre.remove(0) =~= all.skip(i + 1));
        }
        let xscore = unhealthy_score_exec(&x);
        let ghost sorted = out.deep_view();
        let mut j: usize = 0;
        while j < out.len() && !(xscore > unhealthy_score_exec(&out[j]) || (xscore
            == unhealthy_score_exec(&out[j]) && str_lex_lt(x.name.as_str(), out[j].name.as_str())))
            invariant
                sorted == out.deep_view(),
                j <= out.len() == sorted.len(),
                xscore as int == unhealthy_score(x@),
                forall|k: int| 0 <= k < j ==> !unhealthy_before(x@, #[trigger] sorted[k]),
            decreases out.len() - j,
        {
            j += 1;
        }
        proof {
            if j < out.len() {
                assert(unhealthy_before(x@, sorted[j as int]));
            }
        }
        let ghost outpre = out@;
        out.insert(j, x);
        proof {
            lemma_insert_unhealthy_at(x@, sorted, j as int);
            assert(out@ == outpre.insert(j as int, x));
            assert forall|k: int| 0 <= k < out@.len() implies #[trigger] out.deep_view()[k] == (
            sorted.take(j as int) + seq![x@] + sorted.skip(j as int))[k] by {
                if k < j {
                    assert(out@[k] == outpre[k]);
                    assert(sorted[k] == outpre[k].deep_view());
                } else if k == j {
                    assert(out@[k] == x);
                } else {
                    assert(out@[k] == outpre[k - 1]);
                    assert(sorted[k - 1] == outpre[k - 1].deep_view());
                }
            }
            assert(out.deep_view() =~= sorted.take(j as int) + seq![x@] + sorted.skip(j as int));
            assert(all.take(i + 1).drop_last() =~= all.take(i));
            assert(all.take(i + 1).last() == all[i]);
            assert(out.deep_view() =~= insert_unhealthy_desc(all[i], sorted));
            i = i + 1;
        }
    }
    proof {
        assert(all.take(all.len() as int) =~= all);
        assert(all.skip(i) =~= src.deep_view());
        assert(i == all.len());
    }
    out
}

/// Classify one kind's listing, building entries with readiness ratios
/// and fetched events.
fn classify_kind(
    ws: &Vec<WorkloadObs>,
    kind: &str,
    dflt_desired: i32,
    events: &Vec<EventSource>,
    out: &mut Vec<UnhealthyWorkload>,
)
    ensures
        final(out).deep_view() == old(out).deep_view() + classify_unhealthy(
            ws.deep_view(),
            kind@,
            dflt_desired as int,
            events.deep_view(),
        ),
{
    let ghost all = ws.deep_view();
    let ghost base = out.deep_view();
    let mut i: usize = 0;
    proof {
        assert(all.take(0) =~= Seq::<WorkloadObsView>::empty());
        assert(base + classify_unhealthy(all.take(0), kind@, dflt_desired as int, events.deep_view())
            =~= base);
    }
    while i < ws.len()
        invariant
            all == ws.deep_view(),
            i <= ws.len() == all.len(),
            out.deep_view() =~= base + classify_unhealthy(
                all.take(i as int),
                kind@,
                dflt_desired as int,
                events.deep_view(),
            ),
        decreases ws.len() - i,
    {
        proof {
            assert(all.take(i + 1).drop_last() =~= all.take(i as int));
            assert(all.take(i + 1).last() == all[i as int]);
        }
        let w = &ws[i];
        let desired = match w.desired {
            Some(d) => d,
            None => dflt_desired,
        };
        let ready = match w.ready {
            Some(r) => r,
            None => 0,
        };
        if ready < desired {
            let ghost outdeep = out.deep_view();
            out.push(
                UnhealthyWorkload {
                    name: w.name.clone(),
                    kind: kind.to_owned(),
                    ready: ready_ratio(ready, desired),
                    restart_count: 0,
                    pod_errors: Vec::new(),
                    events: lookup_events(events, w.name.as_str(), kind),
                },
            );
            proof {
                assert(out@.last()@.pod_errors =~= Seq::<Seq<char>>::empty());
                assert(out.deep_view() =~= outdeep + seq![
                    UnhealthyWorkloadView {
                        name: all[i as int].name,
                        kind: kind@,
                        ready: ratio_seq(
                            eff_ready0(all[i as int]),
                            eff_desired_or(all[i as int], dflt_desired as int),
                        ),
                        restart_count: 0,
                        pod_errors: Seq::empty(),
                        events: spec_lookup_events(events.deep_view(), all[i as int].name, kind@),
                    },
                ]);
            }
        }
        i += 1;
    }
    proof {
        assert(all.take(all.len() as int) =~= all);
    }
}

/// Collect a pod's error texts.
fn pod_errors_exec(p: &PodObs) -> (r: Vec<String>)
    ensures
        r.deep_view() == pod_errors_of(p@.name, p@.containers),
{
    let ghost cs = p@.containers;
    let mut r: Vec<String> = Vec::new();
    let mut i: usize = 0;
    proof {
        assert(cs.take(0) =~= Seq::<ContainerObsView>::empty());
        assert(pod_errors_of(p@.name, cs.take(0)) =~= Seq::<Seq<char>>::empty());
    }
    while i < p.containers.len()
        invariant
            cs == p@.containers,
            i <= p.containers.len() == cs.len(),
            r.deep_view() =~= pod_errors_of(p@.name, cs.take(i as int)),
        decreases p.containers.len() - i,
    {
        proof {
            assert(cs.take(i + 1).drop_last() =~= cs.take(i as int));
            assert(cs.take(i + 1).last() == cs[i as int]);
        }
        let ghost rpre = r.deep_view();
        let c = &p.containers[i];
        match &c.waiting_reason {
            Some(reason) => {
                if str_eq(reason.as_str(), "CrashLoopBackOff") || str_eq(reason.as_str(), "Error")
                    || str_eq(reason.as_str(), "ImagePullBackOff") || str_eq(
                    reason.as_str(),
                    "ErrImagePull",
                ) || str_eq(reason.as_str(), "CreateContainerConfigError") {
                    let mut e = p.name.clone();
                    e.append(": ");
                    e.append(reason.as_str());
                    r.push(e);
                }
            },
            None => {},
        }
        let ghost rmid = r.deep_view();
        proof {
            let w = match cs[i as int].waiting_reason {
                Some(rr) => if unhealthy_waiting_reason(rr) {
                    seq![p@.name + ": "@ + rr]
                } else {
                    Seq::<Seq<char>>::empty()
                },
                None => Seq::<Seq<char>>::empty(),
            };
            assert(rmid =~= rpre + w);
        }
        match &c.terminated_reason {
            Some(reason) => {
                if str_eq(reason.as_str(), "Error") || str_eq(reason.as_str(), "OOMKilled") {
                    let mut e = p.name.clone();
                    e.append(": ");
                    e.append(reason.as_str());
                    r.push(e);
                }
            },
            None => {},
        }
        proof {
            assert(r.deep_view() =~= rpre + container_errs(p@.name, cs[i as int]));
            assert(r.deep_view() =~= pod_errors_of(p@.name, cs.take(i + 1)));
        }
        i += 1;
    }
    proof {
        assert(cs.take(cs.len() as int) =~= cs);
    }
    r
}

/// Append one listing of error texts to another.
fn concat_errors(a: &mut Vec<String>, b: Vec<String>)
    ensures
        final(a).deep_view() == old(a).deep_view() + b.deep_view(),
{
    let ghost adeep = a.deep_view();
    let ghost apre = a@;
    let ghost bdeep = b.deep_view();
    let ghost bpre = b@;
    let mut bb = b;
    a.append(&mut bb);
    proof {
        assert(a@ == apre + bpre);
        assert forall|k: int| 0 <= k < a@.len() implies #[trigger] a.deep_view()[k] == (adeep
            + bdeep)[k] by {
            if k < apre.len() {
                assert(a@[k] == apre[k]);
                assert(adeep[k] == apre[k].deep_view());
            } else {
                assert(a@[k] == bpre[k - apre.len()]);
                assert(bdeep[k - apre.len()] == bpre[k - apre.len()].deep_view());
            }
        }
        assert(a.deep_view() =~= adeep + bdeep);
    }
}

/// The whole unhealthy listing: classification, pod merging, ordering.
pub open spec fn spec_unhealthy_workloads(
    deployments: Seq<WorkloadObsView>,
    statefulsets: Seq<WorkloadObsView>,
    daemonsets: Seq<WorkloadObsView>,
    pods: Seq<PodObsView>,
    idx: Map<Seq<char>, Seq<char>>,
    events: Seq<EventSourceView>,
) -> Seq<UnhealthyWorkloadView> {
    sort_unhealthy_desc(
        merge_pods(
            spec_classified(deployments, statefulsets, daemonsets, events),
            pods,
            idx,
            events,
        ),
    )
}

/// Everything the classification yields before pod merging.
pub open spec fn spec_classified(
    deployments: Seq<WorkloadObsView>,
    statefulsets: Seq<WorkloadObsView>,
    daemonsets: Seq<WorkloadObsView>,
    events: Seq<EventSourceView>,
) -> Seq<UnhealthyWorkloadView> {
    classify_unhealthy(deployments, "Deployment"@, 1, events) + classify_unhealthy(
        statefulsets,
        "StatefulSet"@,
        1,
        events,
    ) + classify_unhealthy(daemonsets, "DaemonSet"@, 0, events)
}

/// The unhealthy workloads of a namespace: Deployments and StatefulSets
/// short of their declared replicas (declared defaulting to 1),
/// DaemonSets short of their scheduled count, each with its events; pod
/// restart and error signals merged in through ownership resolution;
/// ordered by severity descending with ties by name.
#[verifier::rlimit(100)]
pub fn find_unhealthy_workloads(
    deployments: &Vec<WorkloadObs>,
    statefulsets: &Vec<WorkloadObs>,
    daemonsets: &Vec<WorkloadObs>,
    pods: &Vec<PodObs>,
    gens: &Vec<ReplicaSetObs>,
    events: &Vec<EventSource>,
) -> (r: Vec<UnhealthyWorkload>)
    requires
        pods_restarts_ok(pods.deep_view()),
        group_restarts(pods.deep_view()) <= i32::MAX,
    ensures
        r.deep_view() == spec_unhealthy_workloads(
            deployments.deep_view(),
            statefulsets.deep_view(),
            daemonsets.deep_view(),
            pods.deep_view(),
            generation_index(gens.deep_view()),
            events.deep_view(),
        ),
{
    let idx = ReplicaSetIndex::build(gens);
    let ghost m = idx@;
    let ghost evs = events.deep_view();
    let ghost allp = pods.deep_view();
    let mut acc: Vec<UnhealthyWorkload> = Vec::new();
    classify_kind(deployments, "Deployment", 1, events, &mut acc);
    classify_kind(statefulsets, "StatefulSet", 1, events, &mut acc);
    classify_kind(daemonsets, "DaemonSet", 0, events, &mut acc);
    let ghost init = acc.deep_view();
    proof {
        assert(init =~= spec_classified(
            deployments.deep_view(),
            statefulsets.deep_view(),
            daemonsets.deep_view(),
            evs,
        ));
        lemma_classify_zero(deployments.deep_view(), "Deployment"@, 1, evs);
        lemma_classify_zero(statefulsets.deep_view(), "StatefulSet"@, 1, evs);
        lemma_classify_zero(daemonsets.deep_view(), "DaemonSet"@, 0, evs);
        lemma_entries_total_concat(
            classify_unhealthy(deployments.deep_view(), "Deployment"@, 1, evs),
            classify_unhealthy(statefulsets.deep_view(), "StatefulSet"@, 1, evs),
        );
        lemma_entries_total_concat(
            classify_unhealthy(deployments.deep_view(), "Deployment"@, 1, evs) + classify_unhealthy(
                statefulsets.deep_view(),
                "StatefulSet"@,
                1,
                evs,
            ),
            classify_unhealthy(daemonsets.deep_view(), "DaemonSet"@, 0, evs),
        );
        assert(entries_total(init) == 0);
        assert(forall|j: int| 0 <= j < init.len() ==> (#[trigger] init[j].restart_count) == 0);
        assert(allp.take(0) =~= Seq::<PodObsView>::empty());
        assert(allp.skip(0) =~= allp);
    }
    let mut i: usize = 0;
    while i < pods.len()
        invariant
            allp == pods.deep_view(),
            m == idx@,
            evs == events.deep_view(),
            i <= pods.len() == allp.len(),
            pods_restarts_ok(allp),
            group_restarts(allp) <= i32::MAX,
            merge_pods(init, allp, m, evs) == merge_pods(acc.deep_view(), allp.skip(i as int), m, evs),
            forall|j: int|
                0 <= j < acc.deep_view().len() ==> (#[trigger] acc.deep_view()[j].restart_count)
                    >= 0,
            entries_total(acc.deep_view()) <= group_restarts(allp.take(i as int)),
            group_restarts(allp.take(i as int)) >= 0,
        decreases pods.len() - i,
    {
        let ghost accv = acc.deep_view();
        proof {
            assert(allp.skip(i as int)[0] == allp[i as int]);
            assert(allp.skip(i as int).drop_first() =~= allp.skip(i + 1));
            assert(allp.take(i + 1).drop_last() =~= allp.take(i as int));
            assert(allp.take(i + 1).last() == allp[i as int]);
            lemma_group_restarts_prefix(allp, i + 1);
            crate::podview::lemma_sum_restarts_prefix(
                allp[i as int].containers,
                allp[i as int].containers.len() as int,
            );
            assert(allp[i as int].containers.take(allp[i as int].containers.len() as int)
                =~= allp[i as int].containers);
        }
        match resolve(&pods[i].owners, &idx) {
            None => {
                assert(merge_pod(accv, allp[i as int], m, evs) == accv);
            },
            Some(o) => {
                let restarts = pod_restart_total(&pods[i].containers);
                let errs = pod_errors_exec(&pods[i]);
                // Find the first entry with the owner's name.
                let mut k: usize = 0;
                let mut found = false;
                while k < acc.len() && !found
                    invariant
                        accv == acc.deep_view(),
                        k <= acc.len() == accv.len(),
                        !found ==> forall|j: int|
                            0 <= j < k ==> (#[trigger] accv[j].name) != o.name@,
                        found ==> k < accv.len() && accv[k as int].name == o.name@ && forall|j: int|
                            0 <= j < k ==> (#[trigger] accv[j].name) != o.name@,
                    decreases acc.len() - k + if found {
                        0int
                    } else {
                        1int
                    },
                {
                    if str_eq(acc[k].name.as_str(), o.name.as_str()) {
                        found = true;
                    } else {
                        k += 1;
                    }
                }
                if found {
                    proof {
                        lemma_find_entry_at(accv, o.name@, k as int);
                        lemma_entry_le_total(accv, k as int);
                        lemma_entries_total_update(
                            accv,
                            k as int,
                            UnhealthyWorkloadView {
                                restart_count: accv[k as int].restart_count + sum_restarts(
                                    allp[i as int].containers,
                                ),
                                pod_errors: accv[k as int].pod_errors + pod_errors_of(
                                    allp[i as int].name,
                                    allp[i as int].containers,
                                ),
                                ..accv[k as int]
                            },
                        );
                    }
                    let entry = acc.remove(k);
                    let ghost removed = acc.deep_view();
                    let mut new_errors = entry.pod_errors;
                    concat_errors(&mut new_errors, errs);
                    let updated = UnhealthyWorkload {
                        name: entry.name,
                        kind: entry.kind,
                        ready: entry.ready,
                        restart_count: entry.restart_count + restarts,
                        pod_errors: new_errors,
                        events: entry.events,
                    };
                    acc.insert(k, updated);
                    proof {
                        assert forall|q: int| 0 <= q < acc@.len() implies #[trigger] acc.deep_view()[q]
                            == merge_pod(accv, allp[i as int], m, evs)[q] by {
                            if q < k {
                                assert(acc.deep_view()[q] == removed[q]);
                                assert(removed[q] == accv[q]);
                            } else if q == k {
                            } else {
                                assert(acc.deep_view()[q] == removed[q - 1]);
                                assert(removed[q - 1] == accv[q]);
                            }
                        }
                        assert(acc.deep_view() =~= merge_pod(accv, allp[i as int], m, evs));
                    }
                } else {
                    proof {
                        lemma_find_entry_none(accv, o.name@);
                    }
                    if restarts > 5 || errs.len() > 0 {
                        let ghost pushedv = UnhealthyWorkloadView {
                            name: o.name@,
                            kind: o.kind@,
                            ready: "?"@,
                            restart_count: sum_restarts(allp[i as int].containers),
                            pod_errors: pod_errors_of(
                                allp[i as int].name,
                                allp[i as int].containers,
                            ),
                            events: spec_lookup_events(evs, o.name@, o.kind@),
                        };
                        proof {
                            lemma_entries_total_push(accv, pushedv);
                        }
                        let entry_events = lookup_events(events, o.name.as_str(), o.kind.as_str());
                        acc.push(
                            UnhealthyWorkload {
                                name: o.name,
                                kind: o.kind,
                                ready: "?".to_owned(),
                                restart_count: restarts,
                                pod_errors: errs,
                                events: entry_events,
                            },
                        );
                        proof {
                            assert(acc.deep_view() =~= accv.push(pushedv));
                        }
                    } else {
                        assert(merge_pod(accv, allp[i as int], m, evs) == accv);
                    }
                }
            },
        }
        i += 1;
    }
    proof {
        assert(allp.skip(i as int).len() == 0);
        assert(merge_pods(acc.deep_view(), allp.skip(i as int), m, evs) == acc.deep_view());
    }
    sort_unhealthy(acc)
}


/// Whether the listing holds an entry with this identity: its name,
/// kind and readiness text.
pub open spec fn has_entry_like(
    acc: Seq<UnhealthyWorkloadView>,
    name: Seq<char>,
    kind: Seq<char>,
    ready: Seq<char>,
) -> bool {
    exists|j: int|
        0 <= j < acc.len() && (#[trigger] acc[j]).name == name && acc[j].kind == kind
            && acc[j].ready == ready
}

/// A found entry index is in bounds and carries the sought name.
proof fn lemma_find_entry_props(acc: Seq<UnhealthyWorkloadView>, name: Seq<char>)
    requires
        find_entry(acc, name) is Some,
    ensures
        0 <= find_entry(acc, name).unwrap() < acc.len(),
        acc[find_entry(acc, name).unwrap()].name == name,
    decreases acc.len(),
{
    if acc.len() > 0 && acc[0].name != name {
        lemma_find_entry_props(acc.drop_first(), name);
        assert(acc.drop_first()[find_entry(acc.drop_first(), name).unwrap()] == acc[find_entry(
            acc,
            name,
        ).unwrap()]);
    }
}

/// Folding one pod in never loses an entry's identity: merging touches
/// only restart counts and error texts, and synthesis only adds.
proof fn lemma_merge_pod_keeps_entry(
    acc: Seq<UnhealthyWorkloadView>,
    p: PodObsView,
    idx: Map<Seq<char>, Seq<char>>,
    events: Seq<EventSourceView>,
    name: Seq<char>,
    kind: Seq<char>,
    ready: Seq<char>,
)
    requires
        has_entry_like(acc, name, kind, ready),
    ensures
        has_entry_like(merge_pod(acc, p, idx, events), name, kind, ready),
{
    let j = choose|j: int|
        0 <= j < acc.len() && (#[trigger] acc[j]).name == name && acc[j].kind == kind
            && acc[j].ready == ready;
    let out = merge_pod(acc, p, idx, events);
    match spec_resolve(p.owners, idx) {
        None => {
            assert(out[j].name == name && out[j].kind == kind && out[j].ready == ready);
        },
        Some(o) => {
            match find_entry(acc, o.name) {
                Some(k) => {
                    lemma_find_entry_props(acc, o.name);
                    if j == k {
                        assert(out[j].name == acc[k].name);
                    } else {
                        assert(out[j] == acc[j]);
                    }
                    assert(out[j].name == name && out[j].kind == kind && out[j].ready == ready);
                },
                None => {
                    assert(out[j].name == name && out[j].kind == kind && out[j].ready == ready);
                },
            }
        },
    }
}

/// Folding the whole pod listing in keeps every entry's identity.
proof fn lemma_merge_pods_keeps_entry(
    acc: Seq<UnhealthyWorkloadView>,
    pods: Seq<PodObsView>,
    idx: Map<Seq<char>, Seq<char>>,
    events: Seq<EventSourceView>,
    name: Seq<char>,
    kind: Seq<char>,
    ready: Seq<char>,
)
    requires
        has_entry_like(acc, name, kind, ready),
    ensures
        has_entry_like(merge_pods(acc, pods, idx, events), name, kind, ready),
    decreases pods.len(),
{
    if pods.len() > 0 {
        lemma_merge_pod_keeps_entry(acc, pods[0], idx, events, name, kind, ready);
        lemma_merge_pods_keeps_entry(
            merge_pod(acc, pods[0], idx, events),
            pods.drop_first(),
            idx,
            events,
            name,
            kind,
            ready,
        );
    }
}

/// Every unready workload of a listing is classified, with its exact
/// readiness ratio text.
proof fn lemma_classify_member(
    ws: Seq<WorkloadObsView>,
    kind: Seq<char>,
    dflt: int,
    events: Seq<EventSourceView>,
    i: int,
)
    requires
        0 <= i < ws.len(),
        eff_ready0(ws[i]) < eff_desired_or(ws[i], dflt),
    ensures
        has_entry_like(
            classify_unhealthy(ws, kind, dflt, events),
            ws[i].name,
            kind,
            ratio_seq(eff_ready0(ws[i]), eff_desired_or(ws[i], dflt)),
        ),
    decreases ws.len(),
{
    let cur = classify_unhealthy(ws, kind, dflt, events);
    if i == ws.len() - 1 {
        assert(cur.last().name == ws[i].name);
        assert(cur[cur.len() - 1].name == ws[i].name);
    } else {
        assert(ws.drop_last()[i] == ws[i]);
        lemma_classify_member(ws.drop_last(), kind, dflt, events, i);
        let prev = classify_unhealthy(ws.drop_last(), kind, dflt, events);
        let j = choose|j: int|
            0 <= j < prev.len() && (#[trigger] prev[j]).name == ws[i].name && prev[j].kind == kind
                && prev[j].ready == ratio_seq(eff_ready0(ws[i]), eff_desired_or(ws[i], dflt));
        assert(cur[j] == prev[j]);
    }
}

/// A prefix's entry stays in a concatenation.
proof fn lemma_entry_like_concat(
    a: Seq<UnhealthyWorkloadView>,
    b: Seq<UnhealthyWorkloadView>,
    name: Seq<char>,
    kind: Seq<char>,
    ready: Seq<char>,
)
    requires
        has_entry_like(a, name, kind, ready),
    ensures
        has_entry_like(a + b, name, kind, ready),
{
    let j = choose|j: int|
        0 <= j < a.len() && (#[trigger] a[j]).name == name && a[j].kind == kind && a[j].ready
            == ready;
    assert((a + b)[j] == a[j]);
}

/// Insertion holds exactly the inserted entry and the run's.
proof fn lemma_insert_unhealthy_contains(
    x: UnhealthyWorkloadView,
    s: Seq<UnhealthyWorkloadView>,
    y: UnhealthyWorkloadView,
)
    ensures
        insert_unhealthy_desc(x, s).contains(y) <==> (y == x || s.contains(y)),
    decreases s.len(),
{
    if s.len() == 0 {
        assert(insert_unhealthy_desc(x, s)[0] == x);
        if s.contains(y) {
            let k = choose|k: int| 0 <= k < s.len() && s[k] == y;
        }
        if insert_unhealthy_desc(x, s).contains(y) {
            let j = choose|j: int|
                0 <= j < insert_unhealthy_desc(x, s).len() && insert_unhealthy_desc(x, s)[j] == y;
        }
    } else if unhealthy_before(x, s[0]) {
        assert(insert_unhealthy_desc(x, s) == seq![x] + s);
        if insert_unhealthy_desc(x, s).contains(y) {
            let j = choose|j: int|
                0 <= j < insert_unhealthy_desc(x, s).len() && insert_unhealthy_desc(x, s)[j] == y;
            if j > 0 {
                assert(s[j - 1] == y);
            }
        }
        if y == x {
            assert(insert_unhealthy_desc(x, s)[0] == y);
        }
        if s.contains(y) {
            let k = choose|k: int| 0 <= k < s.len() && s[k] == y;
            assert(insert_unhealthy_desc(x, s)[k + 1] == y);
        }
    } else {
        lemma_insert_unhealthy_contains(x, s.drop_first(), y);
        let rest = insert_unhealthy_desc(x, s.drop_first());
        assert(insert_unhealthy_desc(x, s) == seq![s[0]] + rest);
        if insert_unhealthy_desc(x, s).contains(y) {
            let j = choose|j: int|
                0 <= j < insert_unhealthy_desc(x, s).len() && insert_unhealthy_desc(x, s)[j] == y;
            if j == 0 {
                assert(s[0] == y);
            } else {
                assert(rest[j - 1] == y);
                assert(rest.contains(y));
                if y != x {
                    let k = choose|k: int|
                        0 <= k < s.drop_first().len() && s.drop_first()[k] == y;
                    assert(s[k + 1] == y);
                }
            }
        }
        if y == x || s.contains(y) {
            if y == x {
                assert(rest.contains(y));
                let j = choose|j: int| 0 <= j < rest.len() && rest[j] == y;
                assert(insert_unhealthy_desc(x, s)[j + 1] == y);
            } else {
                let k = choose|k: int| 0 <= k < s.len() && s[k] == y;
                if k == 0 {
                    assert(insert_unhealthy_desc(x, s)[0] == y);
                } else {
                    assert(s.drop_first()[k - 1] == y);
                    assert(s.drop_first().contains(y));
                    assert(rest.contains(y));
                    let j = choose|j: int| 0 <= j < rest.len() && rest[j] == y;
                    assert(insert_unhealthy_desc(x, s)[j + 1] == y);
                }
            }
        }
    }
}

/// The ordering holds exactly the listing's entries.
pub proof fn lemma_sort_unhealthy_contains(s: Seq<UnhealthyWorkloadView>, y: UnhealthyWorkloadView)
    ensures
        sort_unhealthy_desc(s).contains(y) <==> s.contains(y),
    decreases s.len(),
{
    if s.len() > 0 {
        lemma_sort_unhealthy_contains(s.drop_last(), y);
        lemma_insert_unhealthy_contains(s.last(), sort_unhealthy_desc(s.drop_last()), y);
        if s.contains(y) {
            let k = choose|k: int| 0 <= k < s.len() && s[k] == y;
            if k < s.len() - 1 {
                assert(s.drop_last()[k] == y);
                assert(s.drop_last().contains(y));
            }
        }
        if sort_unhealthy_desc(s).contains(y) {
            if y != s.last() && s.drop_last().contains(y) {
                let k = choose|k: int| 0 <= k < s.drop_last().len() && s.drop_last()[k] == y;
                assert(s[k] == y);
            }
        }
        if y == s.last() {
            assert(s[s.len() - 1] == y);
        }
    }
}

/// The statement of the readiness law for the Deployment at position
/// `i`: the unhealthy listing holds an entry under its name and kind
/// with its exact readiness ratio text.
pub open spec fn unready_deployment_listed(
    deployments: Seq<WorkloadObsView>,
    statefulsets: Seq<WorkloadObsView>,
    daemonsets: Seq<WorkloadObsView>,
    pods: Seq<PodObsView>,
    idx: Map<Seq<char>, Seq<char>>,
    events: Seq<EventSourceView>,
    i: int,
) -> bool {
    has_entry_like(
        spec_unhealthy_workloads(deployments, statefulsets, daemonsets, pods, idx, events),
        deployments[i].name,
        "Deployment"@,
        ratio_seq(eff_ready0(deployments[i]), eff_desired_or(deployments[i], 1)),
    )
}

/// Readiness law: a Deployment short of its declared replicas always
/// appears in the unhealthy listing, under its name and kind, with its
/// exact readiness ratio text.
pub proof fn lemma_unready_deployment_listed(
    deployments: Seq<WorkloadObsView>,
    statefulsets: Seq<WorkloadObsView>,
    daemonsets: Seq<WorkloadObsView>,
    pods: Seq<PodObsView>,
    idx: Map<Seq<char>, Seq<char>>,
    events: Seq<EventSourceView>,
    i: int,
)
    requires
        0 <= i < deployments.len(),
        eff_ready0(deployments[i]) + 1 <= eff_desired_or(deployments[i], 1),
    ensures
        unready_deployment_listed(deployments, statefulsets, daemonsets, pods, idx, events, i),
{
    let name = deployments[i].name;
    let ready = ratio_seq(eff_ready0(deployments[i]), eff_desired_or(deployments[i], 1));
    lemma_classify_member(deployments, "Deployment"@, 1, events, i);
    lemma_entry_like_concat(
        classify_unhealthy(deployments, "Deployment"@, 1, events),
        classify_unhealthy(statefulsets, "StatefulSet"@, 1, events),
        name,
        "Deployment"@,
        ready,
    );
    lemma_entry_like_concat(
        classify_unhealthy(deployments, "Deployment"@, 1, events) + classify_unhealthy(
            statefulsets,
            "StatefulSet"@,
            1,
            events,
        ),
        classify_unhealthy(daemonsets, "DaemonSet"@, 0, events),
        name,
        "Deployment"@,
        ready,
    );
    lemma_merge_pods_keeps_entry(
        spec_classified(deployments, statefulsets, daemonsets, events),
        pods,
        idx,
        events,
        name,
        "Deployment"@,
        ready,
    );
    let merged = merge_pods(
        spec_classified(deployments, statefulsets, daemonsets, events),
        pods,
        idx,
        events,
    );
    let j = choose|j: int|
        0 <= j < merged.len() && (#[trigger] merged[j]).name == name && merged[j].kind
            == "Deployment"@ && merged[j].ready == ready;
    lemma_sort_unhealthy_contains(merged, merged[j]);
    assert(merged.contains(merged[j]));
    let s = sort_unhealthy_desc(merged);
    let k = choose|k: int| 0 <= k < s.len() && s[k] == merged[j];
    assert(s[k].name == name && s[k].kind == "Deployment"@ && s[k].ready == ready);
}
} // verus!
