//! Observed cluster state, as plain values.
//!
//! The application layer performs the API reads and converts what it saw
//! into these types; every aggregation in this crate is a pure function of
//! them. Fields that the cluster may omit stay `Option` here, so the
//! defaulting rules are part of the verified logic rather than of the I/O
//! layer.

use vstd::prelude::*;

use crate::entities::common::{EventInfo, EventInfoView, OwnerRefInfo, OwnerRefView};

verus! {

/// An instant observed on the cluster: seconds since the Unix epoch,
/// together with the RFC 3339 text it was received as.
#[derive(Debug, Clone)]
pub struct TimeObs {
    pub epoch: i64,
    pub rfc3339: String,
}

/// The abstract value of a [`TimeObs`].
pub struct TimeObsView {
    pub epoch: int,
    pub rfc3339: Seq<char>,
}

impl View for TimeObs {
    type V = TimeObsView;

    open spec fn view(&self) -> TimeObsView {
        TimeObsView { epoch: self.epoch as int, rfc3339: self.rfc3339@ }
    }
}

impl DeepView for TimeObs {
    type V = TimeObsView;

    open spec fn deep_view(&self) -> TimeObsView {
        self.view()
    }
}

/// One container status observed on a pod.
#[derive(Debug, Clone)]
pub struct ContainerObs {
    pub ready: bool,
    pub restart_count: i32,
    pub waiting_reason: Option<String>,
    pub terminated_reason: Option<String>,
}

/// The abstract value of a [`ContainerObs`].
pub struct ContainerObsView {
    pub ready: bool,
    pub restart_count: int,
    pub waiting_reason: Option<Seq<char>>,
    pub terminated_reason: Option<Seq<char>>,
}

impl View for ContainerObs {
    type V = ContainerObsView;

    open spec fn view(&self) -> ContainerObsView {
        ContainerObsView {
            ready: self.ready,
            restart_count: self.restart_count as int,
            waiting_reason: self.waiting_reason.deep_view(),
            terminated_reason: self.terminated_reason.deep_view(),
        }
    }
}

impl DeepView for ContainerObs {
    type V = ContainerObsView;

    open spec fn deep_view(&self) -> ContainerObsView {
        self.view()
    }
}

/// Request and limit quantities of a pod's representative (first)
/// container, kept as the API's quantity strings.
#[derive(Debug, Clone)]
pub struct PodResources {
    pub requests_cpu: Option<String>,
    pub requests_memory: Option<String>,
    pub limits_cpu: Option<String>,
    pub limits_memory: Option<String>,
}

/// The abstract value of a [`PodResources`].
pub struct PodResourcesView {
    pub requests_cpu: Option<Seq<char>>,
    pub requests_memory: Option<Seq<char>>,
    pub limits_cpu: Option<Seq<char>>,
    pub limits_memory: Option<Seq<char>>,
}

impl View for PodResources {
    type V = PodResourcesView;

    open spec fn view(&self) -> PodResourcesView {
        PodResourcesView {
            requests_cpu: self.requests_cpu.deep_view(),
            requests_memory: self.requests_memory.deep_view(),
            limits_cpu: self.limits_cpu.deep_view(),
            limits_memory: self.limits_memory.deep_view(),
        }
    }
}

impl DeepView for PodResources {
    type V = PodResourcesView;

    open spec fn deep_view(&self) -> PodResourcesView {
        self.view()
    }
}

/// One pod as observed on the cluster.
#[derive(Debug, Clone)]
pub struct PodObs {
    pub name: String,
    pub namespace: String,
    pub phase: Option<String>,
    pub terminating: bool,
    pub owners: Vec<OwnerRefInfo>,
    pub containers: Vec<ContainerObs>,
    pub resources: Option<PodResources>,
    pub node: Option<String>,
    pub ip: Option<String>,
    pub created: Option<TimeObs>,
}

/// The abstract value of a [`PodObs`].
pub struct PodObsView {
    pub name: Seq<char>,
    pub namespace: Seq<char>,
    pub phase: Option<Seq<char>>,
    pub terminating: bool,
    pub owners: Seq<OwnerRefView>,
    pub containers: Seq<ContainerObsView>,
    pub resources: Option<PodResourcesView>,
    pub node: Option<Seq<char>>,
    pub ip: Option<Seq<char>>,
    pub created: Option<TimeObsView>,
}

impl View for PodObs {
    type V = PodObsView;

    open spec fn view(&self) -> PodObsView {
        PodObsView {
            name: self.name@,
            namespace: self.namespace@,
            phase: self.phase.deep_view(),
            terminating: self.terminating,
            owners: self.owners.deep_view(),
            containers: self.containers.deep_view(),
            resources: self.resources.deep_view(),
            node: self.node.deep_view(),
            ip: self.ip.deep_view(),
            created: self.created.deep_view(),
        }
    }
}

impl DeepView for PodObs {
    type V = PodObsView;

    open spec fn deep_view(&self) -> PodObsView {
        self.view()
    }
}

/// One replicated workload (Deployment, StatefulSet or DaemonSet) as
/// observed on the cluster: its declared and ready replica counts, and
/// for Deployments the pod-template restart annotation, if any.
#[derive(Debug, Clone)]
pub struct WorkloadObs {
    pub name: String,
    pub desired: Option<i32>,
    pub ready: Option<i32>,
    pub restarted_at: Option<String>,
}

/// The abstract value of a [`WorkloadObs`].
pub struct WorkloadObsView {
    pub name: Seq<char>,
    pub desired: Option<i32>,
    pub ready: Option<i32>,
    pub restarted_at: Option<Seq<char>>,
}

impl View for WorkloadObs {
    type V = WorkloadObsView;

    open spec fn view(&self) -> WorkloadObsView {
        WorkloadObsView {
            name: self.name@,
            desired: self.desired,
            ready: self.ready,
            restarted_at: self.restarted_at.deep_view(),
        }
    }
}

impl DeepView for WorkloadObs {
    type V = WorkloadObsView;

    open spec fn deep_view(&self) -> WorkloadObsView {
        self.view()
    }
}

/// One replica generation (a ReplicaSet) as observed on the cluster.
/// `revision` carries the raw revision annotation, unparsed.
#[derive(Debug, Clone)]
pub struct ReplicaSetObs {
    pub name: String,
    pub owners: Vec<OwnerRefInfo>,
    pub revision: Option<String>,
    pub image: Option<String>,
    pub replicas: Option<i32>,
    pub ready: Option<i32>,
    pub created: Option<TimeObs>,
}

/// The abstract value of a [`ReplicaSetObs`].
pub struct ReplicaSetObsView {
    pub name: Seq<char>,
    pub owners: Seq<OwnerRefView>,
    pub revision: Option<Seq<char>>,
    pub image: Option<Seq<char>>,
    pub replicas: Option<i32>,
    pub ready: Option<i32>,
    pub created: Option<TimeObsView>,
}

impl View for ReplicaSetObs {
    type V = ReplicaSetObsView;

    open spec fn view(&self) -> ReplicaSetObsView {
        ReplicaSetObsView {
            name: self.name@,
            owners: self.owners.deep_view(),
            revision: self.revision.deep_view(),
            image: self.image.deep_view(),
            replicas: self.replicas,
            ready: self.ready,
            created: self.created.deep_view(),
        }
    }
}

impl DeepView for ReplicaSetObs {
    type V = ReplicaSetObsView;

    open spec fn deep_view(&self) -> ReplicaSetObsView {
        self.view()
    }
}

/// One horizontal autoscaler as observed, with its scoped events already
/// fetched.
#[derive(Debug, Clone)]
pub struct HpaObs {
    pub name: String,
    pub current_replicas: Option<i32>,
    pub desired_replicas: Option<i32>,
    pub events: Vec<EventInfo>,
}

/// The abstract value of an [`HpaObs`].
pub struct HpaObsView {
    pub name: Seq<char>,
    pub current_replicas: Option<i32>,
    pub desired_replicas: Option<i32>,
    pub events: Seq<EventInfoView>,
}

impl View for HpaObs {
    type V = HpaObsView;

    open spec fn view(&self) -> HpaObsView {
        HpaObsView {
            name: self.name@,
            current_replicas: self.current_replicas,
            desired_replicas: self.desired_replicas,
            events: self.events.deep_view(),
        }
    }
}

impl DeepView for HpaObs {
    type V = HpaObsView;

    open spec fn deep_view(&self) -> HpaObsView {
        self.view()
    }
}

/// One namespace event as observed on the cluster.
#[derive(Debug, Clone)]
pub struct EventObs {
    pub involved_kind: Option<String>,
    pub involved_name: Option<String>,
    pub reason: Option<String>,
    pub message: Option<String>,
    pub count: Option<i32>,
    pub event_type: Option<String>,
    pub event_time: Option<TimeObs>,
    pub creation_time: Option<TimeObs>,
}

/// The abstract value of an [`EventObs`].
pub struct EventObsView {
    pub involved_kind: Option<Seq<char>>,
    pub involved_name: Option<Seq<char>>,
    pub reason: Option<Seq<char>>,
    pub message: Option<Seq<char>>,
    pub count: Option<i32>,
    pub event_type: Option<Seq<char>>,
    pub event_time: Option<TimeObsView>,
    pub creation_time: Option<TimeObsView>,
}

impl View for EventObs {
    type V = EventObsView;

    open spec fn view(&self) -> EventObsView {
        EventObsView {
            involved_kind: self.involved_kind.deep_view(),
            involved_name: self.involved_name.deep_view(),
            reason: self.reason.deep_view(),
            message: self.message.deep_view(),
            count: self.count,
            event_type: self.event_type.deep_view(),
            event_time: self.event_time.deep_view(),
            creation_time: self.creation_time.deep_view(),
        }
    }
}

impl DeepView for EventObs {
    type V = EventObsView;

    open spec fn deep_view(&self) -> EventObsView {
        self.view()
    }
}

/// Events fetched for one resource, keyed by its name and kind. Event
/// fetches are best-effort: a resource without an entry reads as having
/// no events.
#[derive(Debug, Clone)]
pub struct EventSource {
    pub name: String,
    pub kind: String,
    pub events: Vec<EventInfo>,
}

/// The abstract value of an [`EventSource`].
pub struct EventSourceView {
    pub name: Seq<char>,
    pub kind: Seq<char>,
    pub events: Seq<EventInfoView>,
}

impl View for EventSource {
    type V = EventSourceView;

    open spec fn view(&self) -> EventSourceView {
        EventSourceView { name: self.name@, kind: self.kind@, events: self.events.deep_view() }
    }
}

impl DeepView for EventSource {
    type V = EventSourceView;

    open spec fn deep_view(&self) -> EventSourceView {
        self.view()
    }
}

/// One ingress as observed on the cluster.
#[derive(Debug, Clone)]
pub struct IngressObs {
    pub name: String,
    pub rules: Vec<IngressRuleObs>,
}

/// One host rule of an observed ingress.
#[derive(Debug, Clone)]
pub struct IngressRuleObs {
    pub host: Option<String>,
    pub paths: Vec<IngressPathObs>,
}

/// One path of an observed ingress rule; `service` is the backend
/// service name, when the backend is a service.
#[derive(Debug, Clone)]
pub struct IngressPathObs {
    pub path: Option<String>,
    pub service: Option<String>,
}

/// The abstract value of an [`IngressObs`].
pub struct IngressObsView {
    pub name: Seq<char>,
    pub rules: Seq<IngressRuleObsView>,
}

/// The abstract value of an [`IngressRuleObs`].
pub struct IngressRuleObsView {
    pub host: Option<Seq<char>>,
    pub paths: Seq<IngressPathObsView>,
}

/// The abstract value of an [`IngressPathObs`].
pub struct IngressPathObsView {
    pub path: Option<Seq<char>>,
    pub service: Option<Seq<char>>,
}

impl View for IngressPathObs {
    type V = IngressPathObsView;

    open spec fn view(&self) -> IngressPathObsView {
        IngressPathObsView { path: self.path.deep_view(), service: self.service.deep_view() }
    }
}

impl DeepView for IngressPathObs {
    type V = IngressPathObsView;

    open spec fn deep_view(&self) -> IngressPathObsView {
        self.view()
    }
}

impl View for IngressRuleObs {
    type V = IngressRuleObsView;

    open spec fn view(&self) -> IngressRuleObsView {
        IngressRuleObsView { host: self.host.deep_view(), paths: self.paths.deep_view() }
    }
}

impl DeepView for IngressRuleObs {
    type V = IngressRuleObsView;

    open spec fn deep_view(&self) -> IngressRuleObsView {
        self.view()
    }
}

impl View for IngressObs {
    type V = IngressObsView;

    open spec fn view(&self) -> IngressObsView {
        IngressObsView { name: self.name@, rules: self.rules.deep_view() }
    }
}

impl DeepView for IngressObs {
    type V = IngressObsView;

    open spec fn deep_view(&self) -> IngressObsView {
        self.view()
    }
}

} // verus!
