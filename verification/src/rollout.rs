//! Rollout timeline reconstruction: the surviving replica generations
//! of one Deployment, ordered by revision, each paired with its
//! predecessor's snapshot and its scoped events, preceded by the
//! Deployment's own events.
//!
//! The final ordering is by timestamp text ascending. Timestamps are
//! RFC 3339 in one zero-padded UTC form, so the text order is
//! chronological; workload-level events carry an empty timestamp and so
//! stay at the front, in their fetched order.

use vstd::prelude::*;
use vstd::string::StringExecFns;

use crate::changes::{sort_gens_asc, sort_generations};
use crate::entities::common::{EventInfo, EventInfoView};
use crate::entities::incident::{ReplicaSetSnapshot, ReplicaSetSnapshotView, RolloutStep, RolloutStepView, RolloutTimeline};
use crate::events::{lookup_events, spec_lookup_events};
use crate::obs::{EventSource, EventSourceView, ReplicaSetObs, ReplicaSetObsView};
use crate::podview::or_empty;
use crate::text::{lex_lt, str_eq, str_lex_lt};

verus! {

/// Whether any owner reference of kind `Deployment` names `dep`.
pub open spec fn owned_by_deployment(g: ReplicaSetObsView, dep: Seq<char>) -> bool {
    exists|i: int|
        0 <= i < g.owners.len() && (#[trigger] g.owners[i]).kind == "Deployment"@
            && g.owners[i].name == dep
}

/// The generations owned by the named Deployment, in listing order.
pub open spec fn gens_of_deployment(gens: Seq<ReplicaSetObsView>, dep: Seq<char>) -> Seq<
    ReplicaSetObsView,
>
    decreases gens.len(),
{
    if gens.len() == 0 {
        Seq::empty()
    } else {
        gens_of_deployment(gens.drop_last(), dep) + if owned_by_deployment(gens.last(), dep) {
            seq![gens.last()]
        } else {
            Seq::empty()
        }
    }
}

/// A zero for a missing count.
pub open spec fn opt_count0(c: Option<i32>) -> int {
    match c {
        Some(v) => v as int,
        None => 0,
    }
}

/// The snapshot a generation contributes to the timeline.
pub open spec fn snapshot_of(g: ReplicaSetObsView) -> ReplicaSetSnapshotView {
    ReplicaSetSnapshotView {
        name: g.name,
        revision: or_empty(g.revision),
        replicas: opt_count0(g.replicas),
        ready: opt_count0(g.ready),
        image: or_empty(g.image),
    }
}

/// The step one Deployment-scoped event yields: no timestamp and no
/// snapshots, so it stays at the front of the timeline.
pub open spec fn dep_event_step(ev: EventInfoView) -> RolloutStepView {
    RolloutStepView {
        timestamp: Seq::empty(),
        step_type: "deployment:"@ + ev.reason,
        description: ev.message,
        old_rs: None,
        new_rs: None,
        events: seq![ev],
    }
}

/// The steps of the Deployment's own events, in fetched order.
pub open spec fn dep_event_steps(evs: Seq<EventInfoView>) -> Seq<RolloutStepView>
    decreases evs.len(),
{
    if evs.len() == 0 {
        Seq::empty()
    } else {
        dep_event_steps(evs.drop_last()).push(dep_event_step(evs.last()))
    }
}

/// The step of the generation at position `i` of the revision-sorted
/// run: its snapshot, its predecessor's snapshot for diffing, and its
/// scoped events.
pub open spec fn gen_step(
    sorted: Seq<ReplicaSetObsView>,
    rs_events: Seq<EventSourceView>,
    i: int,
) -> RolloutStepView {
    let g = sorted[i];
    RolloutStepView {
        timestamp: match g.created {
            Some(t) => t.rfc3339,
            None => Seq::empty(),
        },
        step_type: "revision:"@ + or_empty(g.revision),
        description: "ReplicaSet "@ + g.name + " (rev "@ + or_empty(g.revision) + ") image: "@
            + or_empty(g.image),
        old_rs: if i > 0 {
            Some(snapshot_of(sorted[i - 1]))
        } else {
            None
        },
        new_rs: Some(snapshot_of(g)),
        events: spec_lookup_events(rs_events, g.name, "ReplicaSet"@),
    }
}

/// The steps of the first `n` generations of the revision-sorted run.
pub open spec fn gen_steps_upto(
    sorted: Seq<ReplicaSetObsView>,
    rs_events: Seq<EventSourceView>,
    n: int,
) -> Seq<RolloutStepView>
    decreases n,
{
    if n <= 0 {
        Seq::empty()
    } else {
        gen_steps_upto(sorted, rs_events, n - 1).push(gen_step(sorted, rs_events, n - 1))
    }
}

/// `a` must come strictly before `b` in the timeline: its timestamp
/// text is lexicographically smaller.
pub open spec fn step_before(a: RolloutStepView, b: RolloutStepView) -> bool {
    lex_lt(a.timestamp, b.timestamp)
}

/// Insertion of one step into a time-ascending run, after every step it
/// does not strictly precede.
pub open spec fn insert_step_asc(x: RolloutStepView, s: Seq<RolloutStepView>) -> Seq<
    RolloutStepView,
>
    decreases s.len(),
{
    if s.len() == 0 {
        seq![x]
    } else if step_before(x, s[0]) {
        seq![x] + s
    } else {
        seq![s[0]] + insert_step_asc(x, s.drop_first())
    }
}

/// Stable time-ascending ordering of the timeline.
pub open spec fn sort_steps_asc(s: Seq<RolloutStepView>) -> Seq<RolloutStepView>
    decreases s.len(),
{
    if s.len() == 0 {
        Seq::empty()
    } else {
        insert_step_asc(s.last(), sort_steps_asc(s.drop_last()))
    }
}

proof fn lemma_insert_step_at(x: RolloutStepView, s: Seq<RolloutStepView>, j: int)
    requires
        0 <= j <= s.len(),
        forall|k: int| 0 <= k < j ==> !step_before(x, #[trigger] s[k]),
        j < s.len() ==> step_before(x, s[j]),
    ensures
        insert_step_asc(x, s) =~= s.take(j) + seq![x] + s.skip(j),
    decreases s.len(),
{
    if s.len() == 0 {
        assert(insert_step_asc(x, s) =~= s.take(j) + seq![x] + s.skip(j));
    } else if j == 0 {
        assert(insert_step_asc(x, s) =~= s.take(0) + seq![x] + s.skip(0));
    } else {
        lemma_insert_step_at(x, s.drop_first(), j - 1);
        assert(forall|k: int| 0 <= k < j - 1 ==> #[trigger] s.drop_first()[k] == s[k + 1]);
        assert(s.drop_first().take(j - 1) =~= s.take(j).drop_first());
        assert(s.drop_first().skip(j - 1) =~= s.skip(j));
        assert(insert_step_asc(x, s) =~= seq![s[0]] + insert_step_asc(x, s.drop_first()));
        assert(insert_step_asc(x, s) =~= s.take(j) + seq![x] + s.skip(j));
    }
}

/// Sort timeline steps by timestamp text ascending, keeping the build
/// order of equal timestamps.
#[verifier::rlimit(60)]
fn sort_steps(v: Vec<RolloutStep>) -> (r: Vec<RolloutStep>)
    ensures
        r.deep_view() == sort_steps_asc(v.deep_view()),
{
    let ghost all = v.deep_view();
    let mut src = v;
    let mut out: Vec<RolloutStep> = Vec::new();
    let ghost i: int = 0;
    proof {
        assert(all.take(0) =~= Seq::<RolloutStepView>::empty());
        assert(all.skip(0) =~= all);
    }
    while src.len() > 0
        invariant
            0 <= i <= all.len(),
            src.deep_view() =~= all.skip(i),
            out.deep_view() =~= sort_steps_asc(all.take(i)),
        decreases src.len(),
    {
        let ghost pre = src.deep_view();
        proof {
            assert(pre.len() == src@.len());
            assert(pre.len() == all.skip(i).len());
            assert(i < all.len());
            assert(all.skip(i)[0] == all[i]);
            assert(pre[0] == all[i]);
        }
        let x = src.remove(0);
        proof {
            assert(src.deep_view() =~= pre.remove(0));
            assert(pre.remove(0) =~= all.skip(i + 1));
        }
        let ghost sorted = out.deep_view();
        let mut j: usize = 0;
        while j < out.len() && !str_lex_lt(x.timestamp.as_str(), out[j].timestamp.as_str())
            invariant
                sorted == out.deep_view(),
                j <= out.len() == sorted.len(),
                forall|k: int| 0 <= k < j ==> !step_before(x@, #[trigger] sorted[k]),
            decreases out.len() - j,
        {
            j += 1;
        }
        proof {
            if j < out.len() {
                assert(step_before(x@, sorted[j as int]));
            }
        }
        let ghost outpre = out@;
        out.insert(j, x);
        proof {
            lemma_insert_step_at(x@, sorted, j as int);
            assert(out@ == outpre.insert(j as int, x));
            assert forall|k: int| 0 <= k < out@.len() implies #[trigger] out.deep_view()[k] == (
            sorted.take(j as int) + seq![x@] + sorted.skip(j as int))[k] by {
                if k < j {
                    assert(out@[k] == outpre[k]);
                    assert(sorted[k] == outpre[k].deep_view());
                } else if k == j {
                    assert(out@[k] == x);
                } else {
                    assert(out@[k] == outpre[k - 1]);
                    assert(sorted[k - 1] == outpre[k - 1].deep_view());
                }
            }
            assert(out.deep_view() =~= sorted.take(j as int) + seq![x@] + sorted.skip(j as int));
            assert(all.take(i + 1).drop_last() =~= all.take(i));
            assert(all.take(i + 1).last() == all[i]);
            assert(out.deep_view() =~= insert_step_asc(all[i], sorted));
            i = i + 1;
        }
    }
    proof {
        assert(all.take(all.len() as int) =~= all);
        assert(all.skip(i) =~= src.deep_view());
        assert(i == all.len());
    }
    out
}

/// The timeline's steps: the Deployment's own events first, then one
/// step per generation in revision order, all finally ordered by
/// timestamp text.
pub open spec fn spec_rollout_steps(
    gens: Seq<ReplicaSetObsView>,
    dep: Seq<char>,
    dep_events: Seq<EventInfoView>,
    rs_events: Seq<EventSourceView>,
) -> Seq<RolloutStepView> {
    let sorted = sort_gens_asc(gens_of_deployment(gens, dep));
    sort_steps_asc(
        dep_event_steps(dep_events) + gen_steps_upto(sorted, rs_events, sorted.len() as int),
    )
}

/// Build a generation's snapshot.
fn make_snapshot(g: &ReplicaSetObs) -> (r: ReplicaSetSnapshot)
    ensures
        r@ == snapshot_of(g@),
{
    ReplicaSetSnapshot {
        name: g.name.clone(),
        revision: crate::events::clone_or_empty(&g.revision),
        replicas: match g.replicas {
            Some(v) => v,
            None => 0,
        },
        ready: match g.ready {
            Some(v) => v,
            None => 0,
        },
        image: crate::events::clone_or_empty(&g.image),
    }
}

/// Reconstruct the rollout timeline of one Deployment from the
/// observed generations, the Deployment's fetched events, and the
/// events fetched for each generation.
#[verifier::rlimit(60)]
pub fn build_rollout_timeline(
    gens: &Vec<ReplicaSetObs>,
    deployment_name: &str,
    dep_events: &Vec<EventInfo>,
    rs_events: &Vec<EventSource>,
) -> (r: RolloutTimeline)
    ensures
        r.deployment_name@ == deployment_name@,
        r.steps.deep_view() == spec_rollout_steps(
            gens.deep_view(),
            deployment_name@,
            dep_events.deep_view(),
            rs_events.deep_view(),
        ),
{
    let ghost all = gens.deep_view();
    // Filter the generations owned by this Deployment.
    let mut members: Vec<&ReplicaSetObs> = Vec::new();
    let mut i: usize = 0;
    proof {
        assert(all.take(0) =~= Seq::<ReplicaSetObsView>::empty());
        assert(gens_of_deployment(all.take(0), deployment_name@) =~= Seq::<
            ReplicaSetObsView,
        >::empty());
    }
    while i < gens.len()
        invariant
            all == gens.deep_view(),
            i <= gens.len() == all.len(),
            members.deep_view() =~= gens_of_deployment(all.take(i as int), deployment_name@),
        decreases gens.len() - i,
    {
        let ghost mpre = members.deep_view();
        let g = &gens[i];
        let mut owned = false;
        let mut j: usize = 0;
        while j < g.owners.len()
            invariant
                all == gens.deep_view(),
                i < all.len(),
                g == gens[i as int],
                j <= g.owners.len() == all[i as int].owners.len(),
                !owned ==> forall|k: int|
                    0 <= k < j ==> !((#[trigger] all[i as int].owners[k]).kind == "Deployment"@
                        && all[i as int].owners[k].name == deployment_name@),
                owned ==> owned_by_deployment(all[i as int], deployment_name@),
            decreases g.owners.len() - j,
        {
            if str_eq(g.owners[j].kind.as_str(), "Deployment") && str_eq(
                g.owners[j].name.as_str(),
                deployment_name,
            ) {
                proof {
                    assert(all[i as int].owners[j as int].kind == "Deployment"@);
                }
                owned = true;
            }
            j += 1;
        }
        proof {
            assert(all.take(i + 1).drop_last() =~= all.take(i as int));
            assert(all.take(i + 1).last() == all[i as int]);
        }
        if owned {
            members.push(g);
            proof {
                assert(members.deep_view() =~= mpre + seq![all[i as int]]);
            }
        } else {
            assert(!owned_by_deployment(all[i as int], deployment_name@));
        }
        i += 1;
    }
    proof {
        assert(all.take(all.len() as int) =~= all);
    }
    let sorted = sort_generations(members);
    let ghost sv = sorted.deep_view();

    // Deployment-level event steps first.
    let mut steps: Vec<RolloutStep> = Vec::new();
    let ghost devs = dep_events.deep_view();
    let mut e: usize = 0;
    proof {
        assert(devs.take(0) =~= Seq::<EventInfoView>::empty());
        assert(dep_event_steps(devs.take(0)) =~= Seq::<RolloutStepView>::empty());
    }
    while e < dep_events.len()
        invariant
            devs == dep_events.deep_view(),
            e <= dep_events.len() == devs.len(),
            steps.deep_view() =~= dep_event_steps(devs.take(e as int)),
        decreases dep_events.len() - e,
    {
        let ghost spre = steps.deep_view();
        proof {
            assert(devs.take(e + 1).drop_last() =~= devs.take(e as int));
            assert(devs.take(e + 1).last() == devs[e as int]);
        }
        let ev = &dep_events[e];
        let mut st = "deployment:".to_owned();
        st.append(ev.reason.as_str());
        let mut one: Vec<EventInfo> = Vec::new();
        one.push(
            EventInfo {
                reason: ev.reason.clone(),
                message: ev.message.clone(),
                count: ev.count,
                age: ev.age.clone(),
                event_type: ev.event_type.clone(),
            },
        );
        steps.push(
            RolloutStep {
                timestamp: String::new(),
                step_type: st,
                description: ev.message.clone(),
                old_rs: None,
                new_rs: None,
                events: one,
            },
        );
        proof {
            assert(steps@.last()@.events =~= seq![devs[e as int]]);
            assert(steps.deep_view() =~= spre + seq![dep_event_step(devs[e as int])]);
        }
        e += 1;
    }
    proof {
        assert(devs.take(devs.len() as int) =~= devs);
    }

    // One step per generation in revision order.
    let mut gi: usize = 0;
    proof {
        assert(gen_steps_upto(sv, rs_events.deep_view(), 0) =~= Seq::<RolloutStepView>::empty());
    }
    while gi < sorted.len()
        invariant
            sv == sorted.deep_view(),
            gi <= sorted.len() == sv.len(),
            devs == dep_events.deep_view(),
            steps.deep_view() =~= dep_event_steps(devs) + gen_steps_upto(
                sv,
                rs_events.deep_view(),
                gi as int,
            ),
        decreases sorted.len() - gi,
    {
        let ghost spre = steps.deep_view();
        let g = sorted[gi];
        proof {
            assert(sv[gi as int] == g@);
        }
        let snapshot = make_snapshot(g);
        let revision = crate::events::clone_or_empty(&g.revision);
        let image = crate::events::clone_or_empty(&g.image);
        let mut st = "revision:".to_owned();
        st.append(revision.as_str());
        let mut desc = "ReplicaSet ".to_owned();
        desc.append(g.name.as_str());
        desc.append(" (rev ");
        desc.append(revision.as_str());
        desc.append(") image: ");
        desc.append(image.as_str());
        let old_rs = if gi > 0 {
            let prev = sorted[gi - 1];
            proof {
                assert(sv[gi as int - 1] == prev@);
            }
            Some(make_snapshot(prev))
        } else {
            None
        };
        let ev_list = lookup_events(rs_events, g.name.as_str(), "ReplicaSet");
        steps.push(
            RolloutStep {
                timestamp: match &g.created {
                    Some(t) => t.rfc3339.clone(),
                    None => String::new(),
                },
                step_type: st,
                description: desc,
                old_rs,
                new_rs: Some(snapshot),
                events: ev_list,
            },
        );
        proof {
            assert(steps@.last()@ == gen_step(sv, rs_events.deep_view(), gi as int));
            assert(steps.deep_view() =~= spre + seq![gen_step(sv, rs_events.deep_view(), gi as int)]);
        }
        gi += 1;
    }

    RolloutTimeline { deployment_name: deployment_name.to_owned(), steps: sort_steps(steps) }
}


/// A generation's step timestamp.
pub open spec fn gen_ts(g: ReplicaSetObsView) -> Seq<char> {
    match g.created {
        Some(t) => t.rfc3339,
        None => Seq::empty(),
    }
}

/// Event steps read out positionally.
proof fn lemma_dep_event_steps_index(evs: Seq<EventInfoView>, i: int)
    requires
        0 <= i < evs.len(),
    ensures
        dep_event_steps(evs).len() == evs.len(),
        dep_event_steps(evs)[i] == dep_event_step(evs[i]),
    decreases evs.len(),
{
    lemma_dep_event_steps_len(evs);
    lemma_dep_event_steps_len(evs.drop_last());
    if i < evs.len() - 1 {
        lemma_dep_event_steps_index(evs.drop_last(), i);
        assert(evs.drop_last()[i] == evs[i]);
    }
}

proof fn lemma_dep_event_steps_len(evs: Seq<EventInfoView>)
    ensures
        dep_event_steps(evs).len() == evs.len(),
    decreases evs.len(),
{
    if evs.len() > 0 {
        lemma_dep_event_steps_len(evs.drop_last());
    }
}

proof fn lemma_gen_steps_len(
    sorted: Seq<ReplicaSetObsView>,
    rs_events: Seq<EventSourceView>,
    n: int,
)
    requires
        n >= 0,
    ensures
        gen_steps_upto(sorted, rs_events, n).len() == n,
    decreases n,
{
    if n > 0 {
        lemma_gen_steps_len(sorted, rs_events, n - 1);
    }
}

/// Generation steps read out positionally.
proof fn lemma_gen_steps_index(
    sorted: Seq<ReplicaSetObsView>,
    rs_events: Seq<EventSourceView>,
    n: int,
    i: int,
)
    requires
        0 <= i < n,
    ensures
        gen_steps_upto(sorted, rs_events, n).len() == n,
        gen_steps_upto(sorted, rs_events, n)[i] == gen_step(sorted, rs_events, i),
    decreases n,
{
    lemma_gen_steps_len(sorted, rs_events, n);
    lemma_gen_steps_len(sorted, rs_events, n - 1);
    if i < n - 1 {
        lemma_gen_steps_index(sorted, rs_events, n - 1, i);
    }
}

/// Inserting a step that precedes nothing lands at the end.
proof fn lemma_insert_step_at_end(x: RolloutStepView, s: Seq<RolloutStepView>)
    requires
        forall|k: int| 0 <= k < s.len() ==> !step_before(x, #[trigger] s[k]),
    ensures
        insert_step_asc(x, s) == s.push(x),
    decreases s.len(),
{
    if s.len() == 0 {
        assert(insert_step_asc(x, s) =~= s.push(x));
    } else {
        assert(forall|k: int| 0 <= k < s.drop_first().len() ==> #[trigger] s.drop_first()[k] == s[k + 1]);
        lemma_insert_step_at_end(x, s.drop_first());
        assert(insert_step_asc(x, s) =~= s.push(x));
    }
}

/// An already time-ordered timeline is its own ordering.
pub proof fn lemma_sort_steps_sorted_identity(s: Seq<RolloutStepView>)
    requires
        forall|i: int, j: int| 0 <= i < j < s.len() ==> !step_before(#[trigger] s[j], #[trigger] s[i]),
    ensures
        sort_steps_asc(s) == s,
    decreases s.len(),
{
    if s.len() > 0 {
        assert(forall|i: int|
            0 <= i < s.len() - 1 ==> #[trigger] s.drop_last()[i] == s[i]);
        lemma_sort_steps_sorted_identity(s.drop_last());
        lemma_insert_step_at_end(s.last(), s.drop_last());
        assert(s.drop_last().push(s.last()) =~= s);
    }
}

/// Timeline order law: when the revision-sorted generations also carry
/// nondecreasing timestamps, the timeline is exactly the Deployment's
/// event steps followed by one step per generation in revision order,
/// the step at position `i` carrying generation `i`'s snapshot and,
/// past the first, its predecessor's snapshot for diffing.
pub proof fn lemma_timeline_order(
    gens: Seq<ReplicaSetObsView>,
    dep: Seq<char>,
    dep_events: Seq<EventInfoView>,
    rs_events: Seq<EventSourceView>,
)
    requires
        ({
            let sorted = sort_gens_asc(gens_of_deployment(gens, dep));
            forall|i: int, j: int|
                0 <= i < j < sorted.len() ==> !crate::text::lex_lt(
                    gen_ts(#[trigger] sorted[j]),
                    gen_ts(#[trigger] sorted[i]),
                )
        }),
    ensures
        ({
            let sorted = sort_gens_asc(gens_of_deployment(gens, dep));
            let steps = dep_event_steps(dep_events) + gen_steps_upto(
                sorted,
                rs_events,
                sorted.len() as int,
            );
            &&& spec_rollout_steps(gens, dep, dep_events, rs_events) == steps
            &&& forall|i: int|
                0 <= i < sorted.len() ==> (#[trigger] steps[dep_events.len() + i]).new_rs == Some(
                    snapshot_of(sorted[i]),
                )
            &&& forall|i: int|
                0 < i < sorted.len() ==> (#[trigger] steps[dep_events.len() + i]).old_rs == Some(
                    snapshot_of(sorted[i - 1]),
                )
            &&& sorted.len() > 0 ==> steps[dep_events.len() as int].old_rs is None
        }),
{
    let sorted = sort_gens_asc(gens_of_deployment(gens, dep));
    let dsteps = dep_event_steps(dep_events);
    let gsteps = gen_steps_upto(sorted, rs_events, sorted.len() as int);
    let steps = dsteps + gsteps;
    lemma_dep_event_steps_len(dep_events);
    assert forall|i: int| 0 <= i < dsteps.len() implies (#[trigger] dsteps[i]).timestamp
        =~= Seq::<char>::empty() by {
        lemma_dep_event_steps_index(dep_events, i);
    }
    if sorted.len() > 0 {
        lemma_gen_steps_index(sorted, rs_events, sorted.len() as int, 0);
    }
    assert forall|i: int| 0 <= i < gsteps.len() implies #[trigger] gsteps[i] == gen_step(
        sorted,
        rs_events,
        i,
    ) by {
        lemma_gen_steps_index(sorted, rs_events, sorted.len() as int, i);
    }
    assert forall|i: int, j: int| 0 <= i < j < steps.len() implies !step_before(
        #[trigger] steps[j],
        #[trigger] steps[i],
    ) by {
        if j < dsteps.len() {
            assert(steps[i] == dsteps[i]);
            assert(steps[j] == dsteps[j]);
            assert(steps[i].timestamp.len() == 0);
        } else if i < dsteps.len() {
            assert(steps[i] == dsteps[i]);
            assert(steps[i].timestamp.len() == 0);
        } else {
            assert(steps[i] == gsteps[i - dsteps.len()]);
            assert(steps[j] == gsteps[j - dsteps.len()]);
            assert(steps[i].timestamp == gen_ts(sorted[i - dsteps.len()]));
            assert(steps[j].timestamp == gen_ts(sorted[j - dsteps.len()]));
        }
    }
    lemma_sort_steps_sorted_identity(steps);
    assert forall|i: int| 0 <= i < sorted.len() implies (
    #[trigger] steps[dep_events.len() + i]).new_rs == Some(snapshot_of(sorted[i])) by {
        assert(steps[dep_events.len() + i] == gsteps[i]);
    }
    assert forall|i: int| 0 < i < sorted.len() implies (
    #[trigger] steps[dep_events.len() + i]).old_rs == Some(snapshot_of(sorted[i - 1])) by {
        assert(steps[dep_events.len() + i] == gsteps[i]);
    }
    if sorted.len() > 0 {
        assert(steps[dep_events.len() as int] == gsteps[0]);
    }
}
} // verus!
