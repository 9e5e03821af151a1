//! The composed diagnostic views: unhealthy workloads, recent changes,
//! namespace events, saturation, affected routes and rollout timelines.
//!
//! Each type carries a view struct (its abstract value) so that the
//! aggregation functions can state exactly what they return.

use vstd::prelude::*;

use crate::entities::common::{EventInfo, EventInfoView};

verus! {

/// Everything the incident view shows for one namespace.
#[derive(Debug, Clone)]
pub struct IncidentSummary {
    pub unhealthy_workloads: Vec<UnhealthyWorkload>,
    pub recent_changes: Vec<ChangeEvent>,
    pub error_events: Vec<NamespaceEventInfo>,
    pub saturation: Vec<WorkloadSaturation>,
    pub affected_routes: Vec<AffectedRoute>,
}

/// A workload that is failing to meet its readiness goal, together with
/// pod-level failure signals merged into it.
#[derive(Debug, Clone)]
pub struct UnhealthyWorkload {
    pub name: String,
    pub kind: String,
    pub ready: String,
    pub restart_count: i32,
    pub pod_errors: Vec<String>,
    pub events: Vec<EventInfo>,
}

/// The abstract value of an [`UnhealthyWorkload`].
pub struct UnhealthyWorkloadView {
    pub name: Seq<char>,
    pub kind: Seq<char>,
    pub ready: Seq<char>,
    pub restart_count: int,
    pub pod_errors: Seq<Seq<char>>,
    pub events: Seq<EventInfoView>,
}

impl View for UnhealthyWorkload {
    type V = UnhealthyWorkloadView;

    open spec fn view(&self) -> UnhealthyWorkloadView {
        UnhealthyWorkloadView {
            name: self.name@,
            kind: self.kind@,
            ready: self.ready@,
            restart_count: self.restart_count as int,
            pod_errors: self.pod_errors.deep_view(),
            events: self.events.deep_view(),
        }
    }
}

impl DeepView for UnhealthyWorkload {
    type V = UnhealthyWorkloadView;

    open spec fn deep_view(&self) -> UnhealthyWorkloadView {
        self.view()
    }
}

/// One event of a namespace-wide listing.
#[derive(Debug, Clone)]
pub struct NamespaceEventInfo {
    pub involved_kind: String,
    pub involved_name: String,
    pub reason: String,
    pub message: String,
    pub count: i32,
    pub event_type: String,
    pub timestamp: String,
    pub age: String,
}

/// The abstract value of a [`NamespaceEventInfo`].
pub struct NamespaceEventView {
    pub involved_kind: Seq<char>,
    pub involved_name: Seq<char>,
    pub reason: Seq<char>,
    pub message: Seq<char>,
    pub count: int,
    pub event_type: Seq<char>,
    pub timestamp: Seq<char>,
    pub age: Seq<char>,
}

impl View for NamespaceEventInfo {
    type V = NamespaceEventView;

    open spec fn view(&self) -> NamespaceEventView {
        NamespaceEventView {
            involved_kind: self.involved_kind@,
            involved_name: self.involved_name@,
            reason: self.reason@,
            message: self.message@,
            count: self.count as int,
            event_type: self.event_type@,
            timestamp: self.timestamp@,
            age: self.age@,
        }
    }
}

impl DeepView for NamespaceEventInfo {
    type V = NamespaceEventView;

    open spec fn deep_view(&self) -> NamespaceEventView {
        self.view()
    }
}

/// A detected mutation of cluster state within the lookback window.
#[derive(Debug, Clone)]
pub struct ChangeEvent {
    pub timestamp: String,
    pub change_type: String,
    pub resource_kind: String,
    pub resource_name: String,
    pub description: String,
    pub details: ChangeDetails,
}

/// The variant-tagged payload of a [`ChangeEvent`].
#[derive(Debug, Clone)]
pub enum ChangeDetails {
    ImageUpdate { old_image: String, new_image: String, revision: String },
    ConfigChange { resource_version: String },
    ScaleChange { old_replicas: i32, new_replicas: i32 },
    Restart { triggered_at: String },
    HPAScale { current_replicas: i32, desired_replicas: i32, metric_status: String },
    NewReplicaSet { name: String, revision: String, image: String },
    Generic { info: String },
}

/// The abstract value of a [`ChangeDetails`].
pub enum ChangeDetailsView {
    ImageUpdate { old_image: Seq<char>, new_image: Seq<char>, revision: Seq<char> },
    ConfigChange { resource_version: Seq<char> },
    ScaleChange { old_replicas: int, new_replicas: int },
    Restart { triggered_at: Seq<char> },
    HPAScale { current_replicas: int, desired_replicas: int, metric_status: Seq<char> },
    NewReplicaSet { name: Seq<char>, revision: Seq<char>, image: Seq<char> },
    Generic { info: Seq<char> },
}

impl View for ChangeDetails {
    type V = ChangeDetailsView;

    open spec fn view(&self) -> ChangeDetailsView {
        match self {
            ChangeDetails::ImageUpdate { old_image, new_image, revision } => (
            ChangeDetailsView::ImageUpdate {
                old_image: old_image@,
                new_image: new_image@,
                revision: revision@,
            }),
            ChangeDetails::ConfigChange { resource_version } => (ChangeDetailsView::ConfigChange {
                resource_version: resource_version@,
            }),
            ChangeDetails::ScaleChange { old_replicas, new_replicas } => (
            ChangeDetailsView::ScaleChange {
                old_replicas: *old_replicas as int,
                new_replicas: *new_replicas as int,
            }),
            ChangeDetails::Restart { triggered_at } => (ChangeDetailsView::Restart {
                triggered_at: triggered_at@,
            }),
            ChangeDetails::HPAScale { current_replicas, desired_replicas, metric_status } => (
            ChangeDetailsView::HPAScale {
                current_replicas: *current_replicas as int,
                desired_replicas: *desired_replicas as int,
                metric_status: metric_status@,
            }),
            ChangeDetails::NewReplicaSet { name, revision, image } => (
            ChangeDetailsView::NewReplicaSet {
                name: name@,
                revision: revision@,
                image: image@,
            }),
            ChangeDetails::Generic { info } => (ChangeDetailsView::Generic { info: info@ }),
        }
    }
}

impl DeepView for ChangeDetails {
    type V = ChangeDetailsView;

    open spec fn deep_view(&self) -> ChangeDetailsView {
        self.view()
    }
}

/// The abstract value of a [`ChangeEvent`].
pub struct ChangeEventView {
    pub timestamp: Seq<char>,
    pub change_type: Seq<char>,
    pub resource_kind: Seq<char>,
    pub resource_name: Seq<char>,
    pub description: Seq<char>,
    pub details: ChangeDetailsView,
}

impl View for ChangeEvent {
    type V = ChangeEventView;

    open spec fn view(&self) -> ChangeEventView {
        ChangeEventView {
            timestamp: self.timestamp@,
            change_type: self.change_type@,
            resource_kind: self.resource_kind@,
            resource_name: self.resource_name@,
            description: self.description@,
            details: self.details@,
        }
    }
}

impl DeepView for ChangeEvent {
    type V = ChangeEventView;

    open spec fn deep_view(&self) -> ChangeEventView {
        self.view()
    }
}

/// The reconstructed rollout history of one Deployment.
#[derive(Debug, Clone)]
pub struct RolloutTimeline {
    pub deployment_name: String,
    pub steps: Vec<RolloutStep>,
}

/// One historical point of a rollout: a workload-level event or a
/// generation transition.
#[derive(Debug, Clone)]
pub struct RolloutStep {
    pub timestamp: String,
    pub step_type: String,
    pub description: String,
    pub old_rs: Option<ReplicaSetSnapshot>,
    pub new_rs: Option<ReplicaSetSnapshot>,
    pub events: Vec<EventInfo>,
}

/// A point-in-time snapshot of one replica generation.
#[derive(Debug, Clone)]
pub struct ReplicaSetSnapshot {
    pub name: String,
    pub revision: String,
    pub replicas: i32,
    pub ready: i32,
    pub image: String,
}

/// The abstract value of a [`ReplicaSetSnapshot`].
pub struct ReplicaSetSnapshotView {
    pub name: Seq<char>,
    pub revision: Seq<char>,
    pub replicas: int,
    pub ready: int,
    pub image: Seq<char>,
}

impl View for ReplicaSetSnapshot {
    type V = ReplicaSetSnapshotView;

    open spec fn view(&self) -> ReplicaSetSnapshotView {
        ReplicaSetSnapshotView {
            name: self.name@,
            revision: self.revision@,
            replicas: self.replicas as int,
            ready: self.ready as int,
            image: self.image@,
        }
    }
}

impl DeepView for ReplicaSetSnapshot {
    type V = ReplicaSetSnapshotView;

    open spec fn deep_view(&self) -> ReplicaSetSnapshotView {
        self.view()
    }
}

/// The abstract value of a [`RolloutStep`].
pub struct RolloutStepView {
    pub timestamp: Seq<char>,
    pub step_type: Seq<char>,
    pub description: Seq<char>,
    pub old_rs: Option<ReplicaSetSnapshotView>,
    pub new_rs: Option<ReplicaSetSnapshotView>,
    pub events: Seq<EventInfoView>,
}

impl View for RolloutStep {
    type V = RolloutStepView;

    open spec fn view(&self) -> RolloutStepView {
        RolloutStepView {
            timestamp: self.timestamp@,
            step_type: self.step_type@,
            description: self.description@,
            old_rs: self.old_rs.deep_view(),
            new_rs: self.new_rs.deep_view(),
            events: self.events.deep_view(),
        }
    }
}

impl DeepView for RolloutStep {
    type V = RolloutStepView;

    open spec fn deep_view(&self) -> RolloutStepView {
        self.view()
    }
}

/// A workload whose pods are saturated: failing readiness or restarting.
#[derive(Debug, Clone)]
pub struct WorkloadSaturation {
    pub workload_name: String,
    pub workload_kind: String,
    pub desired_replicas: i32,
    pub ready_replicas: i32,
    pub pods: Vec<PodSaturationInfo>,
}

/// Resource requests, limits and restart activity of one pod.
#[derive(Debug, Clone)]
pub struct PodSaturationInfo {
    pub name: String,
    pub status: String,
    pub restarts: i32,
    pub requests_cpu: String,
    pub requests_memory: String,
    pub limits_cpu: String,
    pub limits_memory: String,
}

/// The abstract value of a [`PodSaturationInfo`].
pub struct PodSaturationView {
    pub name: Seq<char>,
    pub status: Seq<char>,
    pub restarts: int,
    pub requests_cpu: Seq<char>,
    pub requests_memory: Seq<char>,
    pub limits_cpu: Seq<char>,
    pub limits_memory: Seq<char>,
}

impl View for PodSaturationInfo {
    type V = PodSaturationView;

    open spec fn view(&self) -> PodSaturationView {
        PodSaturationView {
            name: self.name@,
            status: self.status@,
            restarts: self.restarts as int,
            requests_cpu: self.requests_cpu@,
            requests_memory: self.requests_memory@,
            limits_cpu: self.limits_cpu@,
            limits_memory: self.limits_memory@,
        }
    }
}

impl DeepView for PodSaturationInfo {
    type V = PodSaturationView;

    open spec fn deep_view(&self) -> PodSaturationView {
        self.view()
    }
}

/// The abstract value of a [`WorkloadSaturation`].
pub struct WorkloadSaturationView {
    pub workload_name: Seq<char>,
    pub workload_kind: Seq<char>,
    pub desired_replicas: int,
    pub ready_replicas: int,
    pub pods: Seq<PodSaturationView>,
}

impl View for WorkloadSaturation {
    type V = WorkloadSaturationView;

    open spec fn view(&self) -> WorkloadSaturationView {
        WorkloadSaturationView {
            workload_name: self.workload_name@,
            workload_kind: self.workload_kind@,
            desired_replicas: self.desired_replicas as int,
            ready_replicas: self.ready_replicas as int,
            pods: self.pods.deep_view(),
        }
    }
}

impl DeepView for WorkloadSaturation {
    type V = WorkloadSaturationView;

    open spec fn deep_view(&self) -> WorkloadSaturationView {
        self.view()
    }
}

/// An ingress rule whose backend service name matches an unhealthy
/// workload's name. The match is textual and best-effort.
#[derive(Debug, Clone)]
pub struct AffectedRoute {
    pub route_type: String,
    pub route_name: String,
    pub hosts: Vec<String>,
    pub paths: Vec<String>,
    pub backend_service: String,
    pub backend_healthy: bool,
}

/// The abstract value of an [`AffectedRoute`].
pub struct AffectedRouteView {
    pub route_type: Seq<char>,
    pub route_name: Seq<char>,
    pub hosts: Seq<Seq<char>>,
    pub paths: Seq<Seq<char>>,
    pub backend_service: Seq<char>,
    pub backend_healthy: bool,
}

impl View for AffectedRoute {
    type V = AffectedRouteView;

    open spec fn view(&self) -> AffectedRouteView {
        AffectedRouteView {
            route_type: self.route_type@,
            route_name: self.route_name@,
            hosts: self.hosts.deep_view(),
            paths: self.paths.deep_view(),
            backend_service: self.backend_service@,
            backend_healthy: self.backend_healthy,
        }
    }
}

impl DeepView for AffectedRoute {
    type V = AffectedRouteView;

    open spec fn deep_view(&self) -> AffectedRouteView {
        self.view()
    }
}

} // verus!
