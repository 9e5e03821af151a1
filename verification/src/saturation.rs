//! Workload saturation: grouping pods by their resolved owning workload
//! and reporting every workload that misses its readiness goal or shows
//! elevated restart activity.

use vstd::prelude::*;

use crate::entities::incident::{PodSaturationInfo, PodSaturationView, WorkloadSaturation, WorkloadSaturationView};
use crate::obs::{PodObs, PodObsView, ReplicaSetObs, WorkloadObs, WorkloadObsView};
use crate::owner::{generation_index, resolve, spec_resolve, ReplicaSetIndex};
use crate::podview::{nonneg_restarts, or_empty, pod_restart_total, sum_restarts};
use crate::text::str_eq;

verus! {

/// A Deployment's or StatefulSet's effective desired count: declared
/// replicas, defaulting to 1.
pub open spec fn eff_desired(w: WorkloadObsView) -> int {
    match w.desired {
        Some(d) => d as int,
        None => 1,
    }
}

/// A workload's effective ready count: reported ready replicas,
/// defaulting to 0.
pub open spec fn eff_ready(w: WorkloadObsView) -> int {
    match w.ready {
        Some(r) => r as int,
        None => 0,
    }
}

/// The last workload of a listing with the given name, if any.
pub open spec fn find_last_workload(ws: Seq<WorkloadObsView>, name: Seq<char>) -> Option<
    WorkloadObsView,
>
    decreases ws.len(),
{
    if ws.len() == 0 {
        None
    } else if ws.last().name == name {
        Some(ws.last())
    } else {
        find_last_workload(ws.drop_last(), name)
    }
}

/// The kind and replica counts recorded for a workload name:
/// StatefulSets shadow Deployments of the same name, and an unknown name
/// reads as kind `Unknown` with zero counts.
pub open spec fn counts_of(
    deps: Seq<WorkloadObsView>,
    ssets: Seq<WorkloadObsView>,
    name: Seq<char>,
) -> (Seq<char>, int, int) {
    match find_last_workload(ssets, name) {
        Some(w) => ("StatefulSet"@, eff_desired(w), eff_ready(w)),
        None => match find_last_workload(deps, name) {
            Some(w) => ("Deployment"@, eff_desired(w), eff_ready(w)),
            None => ("Unknown"@, 0, 0),
        },
    }
}

/// Scan a listing backwards for the last workload with `name`.
fn find_last_workload_exec<'a>(ws: &'a Vec<WorkloadObs>, name: &str) -> (r: Option<
    &'a WorkloadObs,
>)
    ensures
        match r {
            Some(w) => find_last_workload(ws.deep_view(), name@) == Some(w@),
            None => find_last_workload(ws.deep_view(), name@) is None,
        },
{
    let ghost all = ws.deep_view();
    let mut i: usize = ws.len();
    proof {
        assert(all.take(all.len() as int) =~= all);
    }
    while i > 0
        invariant
            all == ws.deep_view(),
            i <= ws.len() == all.len(),
            find_last_workload(all, name@) == find_last_workload(all.take(i as int), name@),
        decreases i,
    {
        i -= 1;
        proof {
            assert(all.take(i + 1).drop_last() =~= all.take(i as int));
            assert(all.take(i + 1).last() == all[i as int]);
        }
        if str_eq(ws[i].name.as_str(), name) {
            return Some(&ws[i]);
        }
    }
    proof {
        assert(all.take(0) =~= Seq::<WorkloadObsView>::empty());
    }
    None
}

/// The owning workload name a pod resolves to, if any.
pub open spec fn pod_owner(p: PodObsView, idx: Map<Seq<char>, Seq<char>>) -> Option<Seq<char>> {
    match spec_resolve(p.owners, idx) {
        Some(o) => Some(o.name),
        None => None,
    }
}

/// Whether position `i` holds the first pod of its owner.
pub open spec fn first_pod_occurrence(
    pods: Seq<PodObsView>,
    idx: Map<Seq<char>, Seq<char>>,
    i: int,
) -> bool {
    pod_owner(pods[i], idx) is Some && forall|j: int|
        0 <= j < i ==> pod_owner(#[trigger] pods[j], idx) != pod_owner(pods[i], idx)
}

/// The pods owned by `owner`, in listing order.
pub open spec fn pods_of_owner(
    pods: Seq<PodObsView>,
    idx: Map<Seq<char>, Seq<char>>,
    owner: Seq<char>,
) -> Seq<PodObsView>
    decreases pods.len(),
{
    if pods.len() == 0 {
        Seq::empty()
    } else {
        pods_of_owner(pods.drop_last(), idx, owner) + if pod_owner(pods.last(), idx) == Some(
            owner,
        ) {
            seq![pods.last()]
        } else {
            Seq::empty()
        }
    }
}

/// One pod's saturation row: its phase (defaulting to `Unknown`), total
/// restarts, and the representative container's request and limit
/// quantities (missing ones read as empty).
pub open spec fn spec_pod_sat(p: PodObsView) -> PodSaturationView {
    PodSaturationView {
        name: p.name,
        status: match p.phase {
            Some(ph) => ph,
            None => "Unknown"@,
        },
        restarts: sum_restarts(p.containers),
        requests_cpu: match p.resources {
            Some(r) => or_empty(r.requests_cpu),
            None => Seq::empty(),
        },
        requests_memory: match p.resources {
            Some(r) => or_empty(r.requests_memory),
            None => Seq::empty(),
        },
        limits_cpu: match p.resources {
            Some(r) => or_empty(r.limits_cpu),
            None => Seq::empty(),
        },
        limits_memory: match p.resources {
            Some(r) => or_empty(r.limits_memory),
            None => Seq::empty(),
        },
    }
}

/// The saturation rows of a pod group, in order.
pub open spec fn spec_pod_sats(pods: Seq<PodObsView>) -> Seq<PodSaturationView>
    decreases pods.len(),
{
    if pods.len() == 0 {
        Seq::empty()
    } else {
        spec_pod_sats(pods.drop_last()).push(spec_pod_sat(pods.last()))
    }
}

/// Total restarts over a pod group.
pub open spec fn group_restarts(pods: Seq<PodObsView>) -> int
    decreases pods.len(),
{
    if pods.len() == 0 {
        0
    } else {
        group_restarts(pods.drop_last()) + sum_restarts(pods.last().containers)
    }
}

/// The saturation entry of one owning workload and its pods: included
/// exactly when the workload misses its readiness goal or its pods have
/// restarted more than 3 times in total.
pub open spec fn sat_entry(
    owner: Seq<char>,
    deps: Seq<WorkloadObsView>,
    ssets: Seq<WorkloadObsView>,
    pods: Seq<PodObsView>,
) -> Option<WorkloadSaturationView> {
    let (kind, desired, ready) = counts_of(deps, ssets, owner);
    if ready < desired || group_restarts(pods) > 3 {
        Some(
            WorkloadSaturationView {
                workload_name: owner,
                workload_kind: kind,
                desired_replicas: desired,
                ready_replicas: ready,
                pods: spec_pod_sats(pods),
            },
        )
    } else {
        None
    }
}

/// A saturation listing of zero or one entries.
pub open spec fn opt_sat_to_seq(c: Option<WorkloadSaturationView>) -> Seq<WorkloadSaturationView> {
    match c {
        Some(x) => seq![x],
        None => Seq::empty(),
    }
}

/// The saturation entries of the first `n` pod positions: one candidate
/// per owning workload, placed at its first pod's position, computed
/// from all of its pods.
pub open spec fn saturation_upto(
    pods: Seq<PodObsView>,
    idx: Map<Seq<char>, Seq<char>>,
    deps: Seq<WorkloadObsView>,
    ssets: Seq<WorkloadObsView>,
    n: int,
) -> Seq<WorkloadSaturationView>
    decreases n,
{
    if n <= 0 {
        Seq::empty()
    } else {
        saturation_upto(pods, idx, deps, ssets, n - 1) + if first_pod_occurrence(pods, idx, n - 1) {
            opt_sat_to_seq(
                sat_entry(
                    pod_owner(pods[n - 1], idx).unwrap(),
                    deps,
                    ssets,
                    pods_of_owner(pods, idx, pod_owner(pods[n - 1], idx).unwrap()),
                ),
            )
        } else {
            Seq::empty()
        }
    }
}

/// All saturation entries of a pod listing, in first-pod order.
pub open spec fn spec_saturation(
    pods: Seq<PodObsView>,
    idx: Map<Seq<char>, Seq<char>>,
    deps: Seq<WorkloadObsView>,
    ssets: Seq<WorkloadObsView>,
) -> Seq<WorkloadSaturationView> {
    saturation_upto(pods, idx, deps, ssets, pods.len() as int)
}

/// Total restarts over a group's saturation rows.
pub open spec fn sat_rows_restarts(rows: Seq<PodSaturationView>) -> int
    decreases rows.len(),
{
    if rows.len() == 0 {
        0
    } else {
        sat_rows_restarts(rows.drop_last()) + rows.last().restarts
    }
}

/// A saturation entry's severity: tenfold the readiness gap plus the
/// group's total restarts.
pub open spec fn sat_score(w: WorkloadSaturationView) -> int {
    (w.desired_replicas - w.ready_replicas) * 10 + sat_rows_restarts(w.pods)
}

/// `a` must come strictly before `b` in a saturation listing: its
/// severity is higher.
pub open spec fn sat_before(a: WorkloadSaturationView, b: WorkloadSaturationView) -> bool {
    sat_score(a) > sat_score(b)
}

/// Insertion of one entry into a severity-descending run, after every
/// entry it does not strictly precede.
pub open spec fn insert_sat_desc(x: WorkloadSaturationView, s: Seq<WorkloadSaturationView>) -> Seq<
    WorkloadSaturationView,
>
    decreases s.len(),
{
    if s.len() == 0 {
        seq![x]
    } else if sat_before(x, s[0]) {
        seq![x] + s
    } else {
        seq![s[0]] + insert_sat_desc(x, s.drop_first())
    }
}

/// Stable severity-descending ordering of a saturation listing.
pub open spec fn sort_sat_desc(s: Seq<WorkloadSaturationView>) -> Seq<WorkloadSaturationView>
    decreases s.len(),
{
    if s.len() == 0 {
        Seq::empty()
    } else {
        insert_sat_desc(s.last(), sort_sat_desc(s.drop_last()))
    }
}

proof fn lemma_insert_sat_at(x: WorkloadSaturationView, s: Seq<WorkloadSaturationView>, j: int)
    requires
        0 <= j <= s.len(),
        forall|k: int| 0 <= k < j ==> !sat_before(x, #[trigger] s[k]),
        j < s.len() ==> sat_before(x, s[j]),
    ensures
        insert_sat_desc(x, s) =~= s.take(j) + seq![x] + s.skip(j),
    decreases s.len(),
{
    if s.len() == 0 {
        assert(insert_sat_desc(x, s) =~= s.take(j) + seq![x] + s.skip(j));
    } else if j == 0 {
        assert(insert_sat_desc(x, s) =~= s.take(0) + seq![x] + s.skip(0));
    } else {
        lemma_insert_sat_at(x, s.drop_first(), j - 1);
        assert(forall|k: int| 0 <= k < j - 1 ==> #[trigger] s.drop_first()[k] == s[k + 1]);
        assert(s.drop_first().take(j - 1) =~= s.take(j).drop_first());
        assert(s.drop_first().skip(j - 1) =~= s.skip(j));
        assert(insert_sat_desc(x, s) =~= seq![s[0]] + insert_sat_desc(x, s.drop_first()));
        assert(insert_sat_desc(x, s) =~= s.take(j) + seq![x] + s.skip(j));
    }
}

/// Machine bounds on a pod listing: restart counts are non-negative and
/// each pod's total fits a 32-bit count.
pub open spec fn pods_restarts_ok(pods: Seq<PodObsView>) -> bool {
    forall|i: int|
        0 <= i < pods.len() ==> nonneg_restarts(#[trigger] pods[i].containers) && sum_restarts(
            pods[i].containers,
        ) <= i32::MAX
}

/// An entry's severity, computed exactly.
fn sat_score_exec(w: &WorkloadSaturation) -> (r: i128)
    ensures
        r as int == sat_score(w@),
{
    let ghost rows = w@.pods;
    let mut total: i128 = 0;
    let mut i: usize = 0;
    proof {
        assert(rows.take(0) =~= Seq::<PodSaturationView>::empty());
    }
    while i < w.pods.len()
        invariant
            rows == w@.pods,
            i <= w.pods.len() == rows.len(),
            total == sat_rows_restarts(rows.take(i as int)),
            -0x10000000000000000000000000000i128 < total
                < 0x10000000000000000000000000000i128,
        decreases w.pods.len() - i,
    {
        proof {
            assert(rows.take(i + 1).drop_last() =~= rows.take(i as int));
            assert(rows.take(i + 1).last() == rows[i as int]);
            lemma_sat_rows_bound(rows.take(i + 1));
        }
        total = total + (w.pods[i].restarts as i128);
        i += 1;
    }
    proof {
        assert(rows.take(rows.len() as int) =~= rows);
        lemma_sat_rows_bound(rows);
    }
    ((w.desired_replicas as i128) - (w.ready_replicas as i128)) * 10 + total
}

/// Restart totals of saturation rows stay tiny next to `i128`.
proof fn lemma_sat_rows_bound(rows: Seq<PodSaturationView>)
    requires
        forall|k: int|
            0 <= k < rows.len() ==> i32::MIN <= (#[trigger] rows[k].restarts) <= i32::MAX,
    ensures
        sat_rows_restarts(rows) <= rows.len() * (i32::MAX as int),
        sat_rows_restarts(rows) >= rows.len() * (i32::MIN as int),
    decreases rows.len(),
{
    if rows.len() > 0 {
        assert(forall|k: int|
            0 <= k < rows.len() - 1 ==> #[trigger] rows.drop_last()[k] == rows[k]);
        lemma_sat_rows_bound(rows.drop_last());
        assert((rows.len() - 1) * (i32::MAX as int) + (i32::MAX as int) == rows.len() * (
        i32::MAX as int)) by (nonlinear_arith);
        assert((rows.len() - 1) * (i32::MIN as int) + (i32::MIN as int) == rows.len() * (
        i32::MIN as int)) by (nonlinear_arith);
    }
}

/// Every row a saturation entry carries has an `i32` restart count.
proof fn lemma_pod_sats_bounds(pods: Seq<PodObsView>)
    requires
        pods_restarts_ok(pods),
    ensures
        spec_pod_sats(pods).len() == pods.len(),
        forall|k: int|
            0 <= k < pods.len() ==> i32::MIN <= (#[trigger] spec_pod_sats(pods)[k].restarts)
                <= i32::MAX,
    decreases pods.len(),
{
    if pods.len() > 0 {
        assert(forall|k: int|
            0 <= k < pods.len() - 1 ==> #[trigger] pods.drop_last()[k] == pods[k]);
        lemma_pod_sats_bounds(pods.drop_last());
        crate::podview::lemma_sum_restarts_prefix(pods.last().containers, pods.last().containers.len() as int);
        assert(pods.last().containers.take(pods.last().containers.len() as int) =~= pods.last().containers);
        assert(spec_pod_sats(pods).last() == spec_pod_sat(pods.last()));
        assert(forall|k: int|
            0 <= k < pods.len() - 1 ==> #[trigger] spec_pod_sats(pods)[k] == spec_pod_sats(
                pods.drop_last(),
            )[k]);
    }
}

/// Sort a saturation listing by severity descending, keeping the
/// grouping order of equal severities.
#[verifier::rlimit(60)]
fn sort_saturation(v: Vec<WorkloadSaturation>) -> (r: Vec<WorkloadSaturation>)
    requires
        forall|j: int, k: int|
            0 <= j < v.deep_view().len() && 0 <= k < (#[trigger] v.deep_view()[j]).pods.len()
                ==> i32::MIN <= (#[trigger] v.deep_view()[j].pods[k].restarts) <= i32::MAX,
    ensures
        r.deep_view() == sort_sat_desc(v.deep_view()),
{
    let ghost all = v.deep_view();
    let mut src = v;
    let mut out: Vec<WorkloadSaturation> = Vec::new();
    let ghost i: int = 0;
    proof {
        assert(all.take(0) =~= Seq::<WorkloadSaturationView>::empty());
        assert(all.skip(0) =~= all);
    }
    while src.len() > 0
        invariant
            0 <= i <= all.len(),
            src.deep_view() =~= all.skip(i),
            out.deep_view() =~= sort_sat_desc(all.take(i)),
            forall|j: int, k: int|
                0 <= j < all.len() && 0 <= k < (#[trigger] all[j]).pods.len() ==> i32::MIN <= (
                #[trigger] all[j].pods[k].restarts) <= i32::MAX,
            forall|j: int| 0 <= j < out.deep_view().len() ==> exists|m: int|
                0 <= m < all.len() && #[trigger] out.deep_view()[j] == all[m],
        decreases src.len(),
    {
        let ghost pre = src.deep_view();
        proof {
            assert(pre.len() == src@.len());
            assert(pre.len() == all.skip(i).len());
            assert(i < all.len());
            assert(all.skip(i)[0] == all[i]);
            assert(pre[0] == all[i]);
        }
        let x = src.remove(0);
        proof {
            assert(src.deep_view() =~= pre.remove(0));
            assert(pre.remove(0) =~= all.skip(i + 1));
        }
        let xscore = sat_score_exec(&x);
        let ghost sorted = out.deep_view();
        let mut j: usize = 0;
        while j < out.len() && !(xscore > sat_score_exec(&out[j]))
            invariant
                sorted == out.deep_view(),
                j <= out.len() == sorted.len(),
                xscore as int == sat_score(x@),
                forall|m: int, k: int|
                    0 <= m < out@.len() && 0 <= k < (#[trigger] out.deep_view()[m]).pods.len()
                        ==> i32::MIN <= (#[trigger] out.deep_view()[m].pods[k].restarts)
                        <= i32::MAX,
                forall|k: int| 0 <= k < j ==> !sat_before(x@, #[trigger] sorted[k]),
            decreases out.len() - j,
        {
            j += 1;
        }
        proof {
            if j < out.len() {
                assert(sat_before(x@, sorted[j as int]));
            }
        }
        let ghost outpre = out@;
        out.insert(j, x);
        proof {
            lemma_insert_sat_at(x@, sorted, j as int);
            assert(out@ == outpre.insert(j as int, x));
            assert forall|k: int| 0 <= k < out@.len() implies #[trigger] out.deep_view()[k] == (
            sorted.take(j as int) + seq![x@] + sorted.skip(j as int))[k] by {
                if k < j {
                    assert(out@[k] == outpre[k]);
                    assert(sorted[k] == outpre[k].deep_view());
                } else if k == j {
                    assert(out@[k] == x);
                } else {
                    assert(out@[k] == outpre[k - 1]);
                    assert(sorted[k - 1] == outpre[k - 1].deep_view());
                }
            }
            assert(out.deep_view() =~= sorted.take(j as int) + seq![x@] + sorted.skip(j as int));
            assert(all.take(i + 1).drop_last() =~= all.take(i));
            assert(all.take(i + 1).last() == all[i]);
            assert(out.deep_view() =~= insert_sat_desc(all[i], sorted));
            i = i + 1;
        }
    }
    proof {
        assert(all.take(all.len() as int) =~= all);
        assert(all.skip(i) =~= src.deep_view());
        assert(i == all.len());
    }
    out
}

/// Build one pod's saturation row.
fn make_pod_sat(p: &PodObs) -> (r: PodSaturationInfo)
    requires
        nonneg_restarts(p@.containers),
        sum_restarts(p@.containers) <= i32::MAX,
    ensures
        r@ == spec_pod_sat(p@),
{
    let restarts = pod_restart_total(&p.containers);
    let (rc, rm, lc, lm) = match &p.resources {
        Some(res) => (
            crate::events::clone_or_empty(&res.requests_cpu),
            crate::events::clone_or_empty(&res.requests_memory),
            crate::events::clone_or_empty(&res.limits_cpu),
            crate::events::clone_or_empty(&res.limits_memory),
        ),
        None => (String::new(), String::new(), String::new(), String::new()),
    };
    PodSaturationInfo {
        name: p.name.clone(),
        status: match &p.phase {
            Some(ph) => ph.clone(),
            None => "Unknown".to_owned(),
        },
        restarts,
        requests_cpu: rc,
        requests_memory: rm,
        limits_cpu: lc,
        limits_memory: lm,
    }
}

/// The saturation view of a namespace: pods grouped by resolved owning
/// workload (in order of each owner's first pod), one entry per owner
/// whose workload is unready or whose pods restarted more than 3 times
/// in total, ordered by severity descending.
#[verifier::rlimit(100)]
pub fn get_workload_saturation(
    deployments: &Vec<WorkloadObs>,
    statefulsets: &Vec<WorkloadObs>,
    pods: &Vec<PodObs>,
    gens: &Vec<ReplicaSetObs>,
) -> (r: Vec<WorkloadSaturation>)
    requires
        pods_restarts_ok(pods.deep_view()),
    ensures
        r.deep_view() == sort_sat_desc(
            spec_saturation(
                pods.deep_view(),
                generation_index(gens.deep_view()),
                deployments.deep_view(),
                statefulsets.deep_view(),
            ),
        ),
{
    let idx = ReplicaSetIndex::build(gens);
    let ghost allp = pods.deep_view();
    let ghost m = idx@;
    let mut out: Vec<WorkloadSaturation> = Vec::new();
    let mut i: usize = 0;
    while i < pods.len()
        invariant
            allp == pods.deep_view(),
            i <= pods.len() == allp.len(),
            m == idx@,
            pods_restarts_ok(allp),
            out.deep_view() =~= saturation_upto(
                allp,
                m,
                deployments.deep_view(),
                statefulsets.deep_view(),
                i as int,
            ),
        decreases pods.len() - i,
    {
        match resolve(&pods[i].owners, &idx) {
            None => {
                assert(!first_pod_occurrence(allp, m, i as int));
            },
            Some(o) => {
                assert(pod_owner(allp[i as int], m) == Some(o.name@));
                let mut seen = false;
                let mut j: usize = 0;
                while j < i
                    invariant
                        allp == pods.deep_view(),
                        m == idx@,
                        i < allp.len(),
                        j <= i,
                        o.name@ == pod_owner(allp[i as int], m).unwrap(),
                        pod_owner(allp[i as int], m) is Some,
                        !seen ==> forall|k: int|
                            0 <= k < j ==> pod_owner(#[trigger] allp[k], m) != pod_owner(
                                allp[i as int],
                                m,
                            ),
                        seen ==> exists|k: int|
                            0 <= k < i && pod_owner(#[trigger] allp[k], m) == pod_owner(
                                allp[i as int],
                                m,
                            ),
                    decreases i - j,
                {
                    match resolve(&pods[j].owners, &idx) {
                        Some(oj) => {
                            if str_eq(oj.name.as_str(), o.name.as_str()) {
                                proof {
                                    assert(pod_owner(allp[j as int], m) == pod_owner(
                                        allp[i as int],
                                        m,
                                    ));
                                }
                                seen = true;
                            }
                        },
                        None => {},
                    }
                    j += 1;
                }
                if seen {
                    assert(!first_pod_occurrence(allp, m, i as int));
                } else {
                    assert(first_pod_occurrence(allp, m, i as int));
                    // Collect this owner's pods and their restart total.
                    let mut rows: Vec<PodSaturationInfo> = Vec::new();
                    let mut total: i128 = 0;
                    let mut k: usize = 0;
                    proof {
                        assert(allp.take(0) =~= Seq::<PodObsView>::empty());
                        assert(pods_of_owner(allp.take(0), m, o.name@) =~= Seq::<
                            PodObsView,
                        >::empty());
                        assert(spec_pod_sats(pods_of_owner(allp.take(0), m, o.name@)) =~= Seq::<
                            PodSaturationView,
                        >::empty());
                    }
                    while k < pods.len()
                        invariant
                            allp == pods.deep_view(),
                            m == idx@,
                            k <= pods.len() == allp.len(),
                            i < allp.len(),
                            pods_restarts_ok(allp),
                            o.name@ == pod_owner(allp[i as int], m).unwrap(),
                            pod_owner(allp[i as int], m) is Some,
                            rows.deep_view() =~= spec_pod_sats(
                                pods_of_owner(allp.take(k as int), m, o.name@),
                            ),
                            total == group_restarts(pods_of_owner(allp.take(k as int), m, o.name@)),
                            -0x1000000000000000000000000i128 < total
                                < 0x1000000000000000000000000i128,
                        decreases pods.len() - k,
                    {
                        let ghost grp = pods_of_owner(allp.take(k as int), m, o.name@);
                        let ghost rowspre = rows.deep_view();
                        let mut push_it = false;
                        match resolve(&pods[k].owners, &idx) {
                            Some(ok) => {
                                if str_eq(ok.name.as_str(), o.name.as_str()) {
                                    push_it = true;
                                    proof {
                                        assert(pod_owner(allp[k as int], m) == Some(o.name@));
                                    }
                                }
                            },
                            None => {},
                        }
                        proof {
                            assert(allp.take(k + 1).drop_last() =~= allp.take(k as int));
                            assert(allp.take(k + 1).last() == allp[k as int]);
                        }
                        if push_it {
                            let row = make_pod_sat(&pods[k]);
                            let ghost newgrp = pods_of_owner(allp.take(k + 1), m, o.name@);
                            proof {
                                assert(newgrp =~= grp + seq![allp[k as int]]);
                                assert(newgrp.drop_last() =~= grp);
                                assert(pods_restarts_ok(allp.take(k + 1))) by {
                                    assert(forall|q: int|
                                        0 <= q < k + 1 ==> #[trigger] allp.take(k + 1)[q]
                                            == allp[q]);
                                }
                                lemma_pods_of_owner_sub(allp.take(k + 1), m, o.name@);
                                lemma_group_restarts_bound(newgrp);
                            }
                            total = total + (row.restarts as i128);
                            rows.push(row);
                            proof {
                                assert(rows.deep_view() =~= rowspre + seq![
                                    spec_pod_sat(allp[k as int]),
                                ]);
                            }
                        } else {
                            proof {
                                assert(pods_of_owner(allp.take(k + 1), m, o.name@) =~= grp);
                            }
                        }
                        k += 1;
                    }
                    proof {
                        assert(allp.take(allp.len() as int) =~= allp);
                    }
                    let (kind, desired, ready) = match find_last_workload_exec(
                        statefulsets,
                        o.name.as_str(),
                    ) {
                        Some(w) => (
                            "StatefulSet".to_owned(),
                            match w.desired {
                                Some(d) => d,
                                None => 1,
                            },
                            match w.ready {
                                Some(rr) => rr,
                                None => 0,
                            },
                        ),
                        None => match find_last_workload_exec(deployments, o.name.as_str()) {
                            Some(w) => (
                                "Deployment".to_owned(),
                                match w.desired {
                                    Some(d) => d,
                                    None => 1,
                                },
                                match w.ready {
                                    Some(rr) => rr,
                                    None => 0,
                                },
                            ),
                            None => ("Unknown".to_owned(), 0i32, 0i32),
                        },
                    };
                    let ghost outdeep = out.deep_view();
                    if ready < desired || total > 3 {
                        out.push(
                            WorkloadSaturation {
                                workload_name: o.name.clone(),
                                workload_kind: kind,
                                desired_replicas: desired,
                                ready_replicas: ready,
                                pods: rows,
                            },
                        );
                        proof {
                            assert(out.deep_view() =~= outdeep + seq![
                                sat_entry(
                                    o.name@,
                                    deployments.deep_view(),
                                    statefulsets.deep_view(),
                                    pods_of_owner(allp, m, o.name@),
                                ).unwrap(),
                            ]);
                        }
                    }
                }
            },
        }
        i += 1;
    }
    proof {
        lemma_saturation_rows_ok(
            allp,
            m,
            deployments.deep_view(),
            statefulsets.deep_view(),
            allp.len() as int,
        );
    }
    sort_saturation(out)
}

/// Group restart totals stay tiny next to `i128`.
proof fn lemma_group_restarts_bound(pods: Seq<PodObsView>)
    requires
        pods_restarts_ok(pods),
    ensures
        group_restarts(pods) <= pods.len() * (i32::MAX as int),
        group_restarts(pods) >= 0,
    decreases pods.len(),
{
    if pods.len() > 0 {
        assert(forall|k: int|
            0 <= k < pods.len() - 1 ==> #[trigger] pods.drop_last()[k] == pods[k]);
        lemma_group_restarts_bound(pods.drop_last());
        crate::podview::lemma_sum_restarts_prefix(pods.last().containers, pods.last().containers.len() as int);
        assert(pods.last().containers.take(pods.last().containers.len() as int) =~= pods.last().containers);
        assert((pods.len() - 1) * (i32::MAX as int) + (i32::MAX as int) == pods.len() * (
        i32::MAX as int)) by (nonlinear_arith);
    }
}

/// Every row of every entry the saturation view yields has an `i32`
/// restart count.
proof fn lemma_saturation_rows_ok(
    pods: Seq<PodObsView>,
    idx: Map<Seq<char>, Seq<char>>,
    deps: Seq<WorkloadObsView>,
    ssets: Seq<WorkloadObsView>,
    n: int,
)
    requires
        pods_restarts_ok(pods),
        0 <= n <= pods.len(),
    ensures
        forall|j: int, k: int|
            0 <= j < saturation_upto(pods, idx, deps, ssets, n).len() && 0 <= k < (
            #[trigger] saturation_upto(pods, idx, deps, ssets, n)[j]).pods.len() ==> i32::MIN <= (
            #[trigger] saturation_upto(pods, idx, deps, ssets, n)[j].pods[k].restarts) <= i32::MAX,
    decreases n,
{
    if n > 0 {
        lemma_saturation_rows_ok(pods, idx, deps, ssets, n - 1);
        let prev = saturation_upto(pods, idx, deps, ssets, n - 1);
        if first_pod_occurrence(pods, idx, n - 1) {
            let owner = pod_owner(pods[n - 1], idx).unwrap();
            let grp = pods_of_owner(pods, idx, owner);
            assert(pods_restarts_ok(grp)) by {
                lemma_pods_of_owner_sub(pods, idx, owner);
            }
            lemma_pod_sats_bounds(grp);
            assert(forall|j: int|
                0 <= j < prev.len() ==> #[trigger] saturation_upto(pods, idx, deps, ssets, n)[j]
                    == prev[j]);
        } else {
            assert(saturation_upto(pods, idx, deps, ssets, n) =~= prev);
        }
    }
}

/// An owner's pod group draws only from the listing.
proof fn lemma_pods_of_owner_sub(
    pods: Seq<PodObsView>,
    idx: Map<Seq<char>, Seq<char>>,
    owner: Seq<char>,
)
    requires
        pods_restarts_ok(pods),
    ensures
        pods_restarts_ok(pods_of_owner(pods, idx, owner)),
        pods_of_owner(pods, idx, owner).len() <= pods.len(),
    decreases pods.len(),
{
    if pods.len() > 0 {
        assert(forall|k: int|
            0 <= k < pods.len() - 1 ==> #[trigger] pods.drop_last()[k] == pods[k]);
        lemma_pods_of_owner_sub(pods.drop_last(), idx, owner);
        let prev = pods_of_owner(pods.drop_last(), idx, owner);
        if pod_owner(pods.last(), idx) == Some(owner) {
            assert(forall|k: int|
                0 <= k < pods_of_owner(pods, idx, owner).len() ==> #[trigger] pods_of_owner(
                    pods,
                    idx,
                    owner,
                )[k] == if k < prev.len() {
                    prev[k]
                } else {
                    pods.last()
                });
        } else {
            assert(pods_of_owner(pods, idx, owner) =~= prev);
        }
    }
}

/// Inclusion is monotonic at the entry level: a workload meeting its
/// readiness goal whose pods total at most 3 restarts yields no entry,
/// and one short of its goal always yields an entry.
pub proof fn lemma_saturation_monotonic(
    owner: Seq<char>,
    deps: Seq<WorkloadObsView>,
    ssets: Seq<WorkloadObsView>,
    pods: Seq<PodObsView>,
)
    ensures
        counts_of(deps, ssets, owner).2 == counts_of(deps, ssets, owner).1 && group_restarts(pods)
            <= 3 ==> sat_entry(owner, deps, ssets, pods) is None,
        counts_of(deps, ssets, owner).2 < counts_of(deps, ssets, owner).1 ==> sat_entry(
            owner,
            deps,
            ssets,
            pods,
        ) is Some,
{
}

/// Insertion holds exactly the inserted element and the run's.
proof fn lemma_insert_sat_contains(
    x: WorkloadSaturationView,
    s: Seq<WorkloadSaturationView>,
    y: WorkloadSaturationView,
)
    ensures
        insert_sat_desc(x, s).contains(y) <==> (y == x || s.contains(y)),
    decreases s.len(),
{
    if s.len() == 0 {
        assert(insert_sat_desc(x, s)[0] == x);
        if s.contains(y) {
            let k = choose|k: int| 0 <= k < s.len() && s[k] == y;
        }
        if insert_sat_desc(x, s).contains(y) {
            let j = choose|j: int|
                0 <= j < insert_sat_desc(x, s).len() && insert_sat_desc(x, s)[j] == y;
        }
    } else if sat_before(x, s[0]) {
        assert(insert_sat_desc(x, s) == seq![x] + s);
        if insert_sat_desc(x, s).contains(y) {
            let j = choose|j: int|
                0 <= j < insert_sat_desc(x, s).len() && insert_sat_desc(x, s)[j] == y;
            if j > 0 {
                assert(s[j - 1] == y);
            }
        }
        if y == x {
            assert(insert_sat_desc(x, s)[0] == y);
        }
        if s.contains(y) {
            let k = choose|k: int| 0 <= k < s.len() && s[k] == y;
            assert(insert_sat_desc(x, s)[k + 1] == y);
        }
    } else {
        lemma_insert_sat_contains(x, s.drop_first(), y);
        let rest = insert_sat_desc(x, s.drop_first());
        assert(insert_sat_desc(x, s) == seq![s[0]] + rest);
        if insert_sat_desc(x, s).contains(y) {
            let j = choose|j: int|
                0 <= j < insert_sat_desc(x, s).len() && insert_sat_desc(x, s)[j] == y;
            if j == 0 {
                assert(s[0] == y);
            } else {
                assert(rest[j - 1] == y);
                assert(rest.contains(y));
                if y != x {
                    let k = choose|k: int|
                        0 <= k < s.drop_first().len() && s.drop_first()[k] == y;
                    assert(s[k + 1] == y);
                }
            }
        }
        if y == x || s.contains(y) {
            if y == x {
                assert(rest.contains(y));
                let j = choose|j: int| 0 <= j < rest.len() && rest[j] == y;
                assert(insert_sat_desc(x, s)[j + 1] == y);
            } else {
                let k = choose|k: int| 0 <= k < s.len() && s[k] == y;
                if k == 0 {
                    assert(insert_sat_desc(x, s)[0] == y);
                } else {
                    assert(s.drop_first()[k - 1] == y);
                    assert(s.drop_first().contains(y));
                    assert(rest.contains(y));
                    let j = choose|j: int| 0 <= j < rest.len() && rest[j] == y;
                    assert(insert_sat_desc(x, s)[j + 1] == y);
                }
            }
        }
    }
}

/// The ordering holds exactly the listing's elements.
pub proof fn lemma_sort_sat_contains(s: Seq<WorkloadSaturationView>, y: WorkloadSaturationView)
    ensures
        sort_sat_desc(s).contains(y) <==> s.contains(y),
    decreases s.len(),
{
    if s.len() > 0 {
        lemma_sort_sat_contains(s.drop_last(), y);
        lemma_insert_sat_contains(s.last(), sort_sat_desc(s.drop_last()), y);
        if s.contains(y) {
            let k = choose|k: int| 0 <= k < s.len() && s[k] == y;
            if k < s.len() - 1 {
                assert(s.drop_last()[k] == y);
                assert(s.drop_last().contains(y));
            }
        }
        if sort_sat_desc(s).contains(y) {
            if y != s.last() && s.drop_last().contains(y) {
                let k = choose|k: int| 0 <= k < s.drop_last().len() && s.drop_last()[k] == y;
                assert(s[k] == y);
            }
        }
        if y == s.last() {
            assert(s[s.len() - 1] == y);
        }
    }
}

proof fn lemma_insert_sat_len(x: WorkloadSaturationView, s: Seq<WorkloadSaturationView>)
    ensures
        insert_sat_desc(x, s).len() == s.len() + 1,
    decreases s.len(),
{
    if s.len() > 0 && !sat_before(x, s[0]) {
        lemma_insert_sat_len(x, s.drop_first());
    }
}

/// When an owner's entry is excluded, no entry of the saturation view
/// carries its name.
pub proof fn lemma_saturation_absent(
    pods: Seq<PodObsView>,
    idx: Map<Seq<char>, Seq<char>>,
    deps: Seq<WorkloadObsView>,
    ssets: Seq<WorkloadObsView>,
    owner: Seq<char>,
    n: int,
)
    requires
        0 <= n <= pods.len(),
        sat_entry(owner, deps, ssets, pods_of_owner(pods, idx, owner)) is None,
    ensures
        forall|j: int|
            0 <= j < saturation_upto(pods, idx, deps, ssets, n).len() ==> (
            #[trigger] saturation_upto(pods, idx, deps, ssets, n)[j]).workload_name != owner,
    decreases n,
{
    if n > 0 {
        lemma_saturation_absent(pods, idx, deps, ssets, owner, n - 1);
        let prev = saturation_upto(pods, idx, deps, ssets, n - 1);
        assert(forall|j: int|
            0 <= j < prev.len() ==> #[trigger] saturation_upto(pods, idx, deps, ssets, n)[j]
                == prev[j]);
    }
}

/// An owner with a pod and a readiness shortfall always appears in the
/// saturation view.
pub proof fn lemma_saturation_present(
    pods: Seq<PodObsView>,
    idx: Map<Seq<char>, Seq<char>>,
    deps: Seq<WorkloadObsView>,
    ssets: Seq<WorkloadObsView>,
    owner: Seq<char>,
    i: int,
)
    requires
        0 <= i < pods.len(),
        pod_owner(pods[i], idx) == Some(owner),
        sat_entry(owner, deps, ssets, pods_of_owner(pods, idx, owner)) is Some,
    ensures
        exists|j: int|
            0 <= j < spec_saturation(pods, idx, deps, ssets).len() && (#[trigger] spec_saturation(
                pods,
                idx,
                deps,
                ssets,
            )[j]).workload_name == owner,
    decreases i,
{
    if forall|j: int| 0 <= j < i ==> pod_owner(#[trigger] pods[j], idx) != Some(owner) {
        assert(first_pod_occurrence(pods, idx, i));
        lemma_saturation_contains_first(pods, idx, deps, ssets, i, pods.len() as int);
    } else {
        let j = choose|j: int| 0 <= j < i && pod_owner(#[trigger] pods[j], idx) == Some(owner);
        lemma_saturation_present(pods, idx, deps, ssets, owner, j);
    }
}

/// A first occurrence with an included entry lands in the view.
proof fn lemma_saturation_contains_first(
    pods: Seq<PodObsView>,
    idx: Map<Seq<char>, Seq<char>>,
    deps: Seq<WorkloadObsView>,
    ssets: Seq<WorkloadObsView>,
    i: int,
    n: int,
)
    requires
        0 <= i < n <= pods.len(),
        first_pod_occurrence(pods, idx, i),
        sat_entry(
            pod_owner(pods[i], idx).unwrap(),
            deps,
            ssets,
            pods_of_owner(pods, idx, pod_owner(pods[i], idx).unwrap()),
        ) is Some,
    ensures
        exists|j: int|
            0 <= j < saturation_upto(pods, idx, deps, ssets, n).len() && (
            #[trigger] saturation_upto(pods, idx, deps, ssets, n)[j]).workload_name == pod_owner(
                pods[i],
                idx,
            ).unwrap(),
    decreases n,
{
    let owner = pod_owner(pods[i], idx).unwrap();
    if n - 1 == i {
        let prev = saturation_upto(pods, idx, deps, ssets, n - 1);
        let cur = saturation_upto(pods, idx, deps, ssets, n);
        assert(cur[prev.len() as int].workload_name == owner);
    } else {
        lemma_saturation_contains_first(pods, idx, deps, ssets, i, n - 1);
        let prev = saturation_upto(pods, idx, deps, ssets, n - 1);
        let j = choose|j: int|
            0 <= j < prev.len() && (#[trigger] prev[j]).workload_name == owner;
        assert(saturation_upto(pods, idx, deps, ssets, n)[j] == prev[j]);
    }
}


/// Monotonicity at the listing level, negative side: a workload whose
/// entry is excluded appears nowhere in the ordered saturation view.
pub proof fn lemma_saturation_excluded(
    pods: Seq<PodObsView>,
    idx: Map<Seq<char>, Seq<char>>,
    deps: Seq<WorkloadObsView>,
    ssets: Seq<WorkloadObsView>,
    owner: Seq<char>,
)
    requires
        sat_entry(owner, deps, ssets, pods_of_owner(pods, idx, owner)) is None,
    ensures
        forall|j: int|
            0 <= j < sort_sat_desc(spec_saturation(pods, idx, deps, ssets)).len() ==> (
            #[trigger] sort_sat_desc(spec_saturation(pods, idx, deps, ssets))[j]).workload_name
                != owner,
{
    lemma_saturation_absent(pods, idx, deps, ssets, owner, pods.len() as int);
    let unsorted = spec_saturation(pods, idx, deps, ssets);
    let sorted = sort_sat_desc(unsorted);
    assert forall|j: int| 0 <= j < sorted.len() implies (#[trigger] sorted[j]).workload_name
        != owner by {
        let y = sorted[j];
        assert(sorted.contains(y));
        lemma_sort_sat_contains(unsorted, y);
        let k = choose|k: int| 0 <= k < unsorted.len() && unsorted[k] == y;
    }
}

/// Monotonicity at the listing level, positive side: a workload with a
/// pod whose entry is included always appears in the ordered
/// saturation view.
pub proof fn lemma_saturation_included(
    pods: Seq<PodObsView>,
    idx: Map<Seq<char>, Seq<char>>,
    deps: Seq<WorkloadObsView>,
    ssets: Seq<WorkloadObsView>,
    owner: Seq<char>,
    i: int,
)
    requires
        0 <= i < pods.len(),
        pod_owner(pods[i], idx) == Some(owner),
        sat_entry(owner, deps, ssets, pods_of_owner(pods, idx, owner)) is Some,
    ensures
        exists|j: int|
            0 <= j < sort_sat_desc(spec_saturation(pods, idx, deps, ssets)).len() && (
            #[trigger] sort_sat_desc(spec_saturation(pods, idx, deps, ssets))[j]).workload_name
                == owner,
{
    lemma_saturation_present(pods, idx, deps, ssets, owner, i);
    let unsorted = spec_saturation(pods, idx, deps, ssets);
    let sorted = sort_sat_desc(unsorted);
    let k = choose|k: int|
        0 <= k < unsorted.len() && (#[trigger] unsorted[k]).workload_name == owner;
    let y = unsorted[k];
    assert(unsorted.contains(y));
    lemma_sort_sat_contains(unsorted, y);
    let j = choose|j: int| 0 <= j < sorted.len() && sorted[j] == y;
    assert(sorted[j].workload_name == owner);
}
} // verus!
