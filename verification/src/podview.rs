//! Rendering an observed pod into its listing row, with the owning
//! workload resolved.

use vstd::prelude::*;

use crate::entities::pod::{PodInfo, PodInfoView};
use crate::formatting::{age_seq, count_ratio, format_age, ratio_seq};
use crate::obs::{ContainerObs, ContainerObsView, PodObs, PodObsView, TimeObsView};
use crate::owner::{resolve, spec_resolve, ReplicaSetIndex};

verus! {

/// Total restarts over a pod's container statuses.
pub open spec fn sum_restarts(cs: Seq<ContainerObsView>) -> int
    decreases cs.len(),
{
    if cs.len() == 0 {
        0
    } else {
        sum_restarts(cs.drop_last()) + cs.last().restart_count
    }
}

/// How many of a pod's containers report ready.
pub open spec fn count_ready(cs: Seq<ContainerObsView>) -> int
    decreases cs.len(),
{
    if cs.len() == 0 {
        0
    } else {
        count_ready(cs.drop_last()) + if cs.last().ready {
            1int
        } else {
            0int
        }
    }
}

/// Restart counts as reported by the cluster are non-negative.
pub open spec fn nonneg_restarts(cs: Seq<ContainerObsView>) -> bool {
    forall|i: int| 0 <= i < cs.len() ==> (#[trigger] cs[i].restart_count) >= 0
}

/// With non-negative counts, a prefix sum never exceeds the total.
pub proof fn lemma_sum_restarts_prefix(cs: Seq<ContainerObsView>, i: int)
    requires
        nonneg_restarts(cs),
        0 <= i <= cs.len(),
    ensures
        0 <= sum_restarts(cs.take(i)) <= sum_restarts(cs),
    decreases cs.len() - i,
{
    lemma_sum_restarts_nonneg(cs.take(i));
    if i < cs.len() {
        lemma_sum_restarts_prefix(cs, i + 1);
        assert(cs.take(i + 1).drop_last() =~= cs.take(i));
        assert(cs.take(i + 1).last() == cs[i]);
    } else {
        assert(cs.take(i) =~= cs);
    }
}

proof fn lemma_sum_restarts_nonneg(cs: Seq<ContainerObsView>)
    requires
        nonneg_restarts(cs),
    ensures
        sum_restarts(cs) >= 0,
    decreases cs.len(),
{
    if cs.len() > 0 {
        assert(nonneg_restarts(cs.drop_last())) by {
            assert(forall|i: int|
                0 <= i < cs.len() - 1 ==> #[trigger] cs.drop_last()[i] == cs[i]);
        }
        lemma_sum_restarts_nonneg(cs.drop_last());
    }
}

/// Sum a pod's container restart counts.
pub fn pod_restart_total(cs: &Vec<ContainerObs>) -> (r: i32)
    requires
        nonneg_restarts(cs.deep_view()),
        sum_restarts(cs.deep_view()) <= i32::MAX,
    ensures
        r as int == sum_restarts(cs.deep_view()),
        r >= 0,
{
    let ghost all = cs.deep_view();
    let mut acc: i32 = 0;
    let mut i: usize = 0;
    proof {
        assert(all.take(0) =~= Seq::<ContainerObsView>::empty());
    }
    while i < cs.len()
        invariant
            all == cs.deep_view(),
            i <= cs.len() == all.len(),
            nonneg_restarts(all),
            sum_restarts(all) <= i32::MAX,
            acc as int == sum_restarts(all.take(i as int)),
            acc >= 0,
        decreases cs.len() - i,
    {
        proof {
            assert(all.take(i + 1).drop_last() =~= all.take(i as int));
            assert(all.take(i + 1).last() == all[i as int]);
            lemma_sum_restarts_prefix(all, i + 1);
        }
        acc = acc + cs[i].restart_count;
        i += 1;
    }
    proof {
        assert(all.take(all.len() as int) =~= all);
    }
    acc
}

/// Count a pod's ready containers.
pub fn pod_ready_count(cs: &Vec<ContainerObs>) -> (r: usize)
    ensures
        r as int == count_ready(cs.deep_view()),
        r <= cs.len(),
{
    let ghost all = cs.deep_view();
    let mut acc: usize = 0;
    let mut i: usize = 0;
    proof {
        assert(all.take(0) =~= Seq::<ContainerObsView>::empty());
    }
    while i < cs.len()
        invariant
            all == cs.deep_view(),
            i <= cs.len() == all.len(),
            acc as int == count_ready(all.take(i as int)),
            acc <= i,
        decreases cs.len() - i,
    {
        proof {
            assert(all.take(i + 1).drop_last() =~= all.take(i as int));
            assert(all.take(i + 1).last() == all[i as int]);
        }
        if cs[i].ready {
            acc = acc + 1;
        }
        i += 1;
    }
    proof {
        assert(all.take(all.len() as int) =~= all);
    }
    acc
}

/// A pod's displayed status: `Terminating` once deletion has been
/// requested, else its phase, else `Unknown`.
pub open spec fn pod_status_seq(p: PodObsView) -> Seq<char> {
    if p.terminating {
        "Terminating"@
    } else {
        match p.phase {
            Some(ph) => ph,
            None => "Unknown"@,
        }
    }
}

/// A creation instant rendered as an age, or `Unknown`.
pub open spec fn opt_age_seq(t: Option<TimeObsView>, now: int) -> Seq<char> {
    match t {
        Some(tv) => age_seq(tv.epoch, now),
        None => "Unknown"@,
    }
}

/// An optional text, defaulting to empty.
pub open spec fn or_empty(o: Option<Seq<char>>) -> Seq<char> {
    match o {
        Some(s) => s,
        None => Seq::empty(),
    }
}

/// The listing row for an observed pod under a generation index, as
/// observed at `now`.
pub open spec fn spec_pod_info(p: PodObsView, idx: Map<Seq<char>, Seq<char>>, now: int) -> PodInfoView {
    let owner = spec_resolve(p.owners, idx);
    PodInfoView {
        name: p.name,
        namespace: p.namespace,
        status: pod_status_seq(p),
        ready: ratio_seq(count_ready(p.containers), p.containers.len() as int),
        restarts: sum_restarts(p.containers),
        age: opt_age_seq(p.created, now),
        node: or_empty(p.node),
        ip: or_empty(p.ip),
        workload_kind: match owner {
            Some(o) => o.kind,
            None => Seq::empty(),
        },
        workload_name: match owner {
            Some(o) => o.name,
            None => Seq::empty(),
        },
    }
}

/// Machine bounds a caller must respect when rendering a pod: restart
/// counts are non-negative, their sum fits a 32-bit count, and the age
/// subtraction cannot overflow.
pub open spec fn pod_render_ok(p: PodObsView, now: int) -> bool {
    &&& nonneg_restarts(p.containers)
    &&& sum_restarts(p.containers) <= i32::MAX
    &&& (p.created is Some ==> i64::MIN <= now - p.created.unwrap().epoch <= i64::MAX)
}

/// Render one observed pod into its listing row, resolving its owning
/// workload through the generation index.
pub fn pod_to_pod_info(pod: &PodObs, idx: &ReplicaSetIndex, now: i64) -> (r: PodInfo)
    requires
        pod_render_ok(pod@, now as int),
    ensures
        r@ == spec_pod_info(pod@, idx@, now as int),
{
    let status = if pod.terminating {
        "Terminating".to_owned()
    } else {
        match &pod.phase {
            Some(ph) => ph.clone(),
            None => "Unknown".to_owned(),
        }
    };
    let ready_count = pod_ready_count(&pod.containers);
    let restarts = pod_restart_total(&pod.containers);
    let age = match &pod.created {
        Some(t) => format_age(Some(t.epoch), now),
        None => format_age(None, now),
    };
    let (workload_kind, workload_name) = match resolve(&pod.owners, idx) {
        Some(o) => (o.kind, o.name),
        None => (String::new(), String::new()),
    };
    PodInfo {
        name: pod.name.clone(),
        namespace: pod.namespace.clone(),
        status,
        ready: count_ratio(ready_count, pod.containers.len()),
        restarts,
        age,
        node: match &pod.node {
            Some(n) => n.clone(),
            None => String::new(),
        },
        ip: match &pod.ip {
            Some(p) => p.clone(),
            None => String::new(),
        },
        workload_kind,
        workload_name,
    }
}

} // verus!
