//! Snapshots of pods: the listing row, the full detail view and its parts.

use std::collections::BTreeMap;
use vstd::prelude::*;

use crate::entities::common::{EventInfo, OwnerRefInfo};

verus! {

/// One pod, summarized for listing, with its resolved owning workload.
#[derive(Debug, Clone)]
pub struct PodInfo {
    pub name: String,
    pub namespace: String,
    pub status: String,
    pub ready: String,
    pub restarts: i32,
    pub age: String,
    pub node: String,
    pub ip: String,
    pub workload_kind: String,
    pub workload_name: String,
}

/// The abstract value of a [`PodInfo`].
pub struct PodInfoView {
    pub name: Seq<char>,
    pub namespace: Seq<char>,
    pub status: Seq<char>,
    pub ready: Seq<char>,
    pub restarts: int,
    pub age: Seq<char>,
    pub node: Seq<char>,
    pub ip: Seq<char>,
    pub workload_kind: Seq<char>,
    pub workload_name: Seq<char>,
}

impl View for PodInfo {
    type V = PodInfoView;

    open spec fn view(&self) -> PodInfoView {
        PodInfoView {
            name: self.name@,
            namespace: self.namespace@,
            status: self.status@,
            ready: self.ready@,
            restarts: self.restarts as int,
            age: self.age@,
            node: self.node@,
            ip: self.ip@,
            workload_kind: self.workload_kind@,
            workload_name: self.workload_name@,
        }
    }
}

impl DeepView for PodInfo {
    type V = PodInfoView;

    open spec fn deep_view(&self) -> PodInfoView {
        self.view()
    }
}

/// The full detail view of one pod.
#[derive(Debug, Clone)]
pub struct PodDetailInfo {
    pub name: String,
    pub namespace: String,
    pub created: String,
    pub labels: BTreeMap<String, String>,
    pub annotations: BTreeMap<String, String>,
    pub controlled_by: Vec<OwnerRefInfo>,
    pub workload_owner: Option<OwnerRefInfo>,
    pub status: String,
    pub node: String,
    pub pod_ip: String,
    pub pod_ips: Vec<String>,
    pub service_account: String,
    pub qos_class: String,
    pub conditions: Vec<PodConditionInfo>,
    pub tolerations: Vec<TolerationInfo>,
    pub volumes: Vec<VolumeInfo>,
    pub containers: Vec<ContainerDetailInfo>,
    pub events: Vec<EventInfo>,
}

/// One container of a pod's detail view.
#[derive(Debug, Clone)]
pub struct ContainerDetailInfo {
    pub name: String,
    pub image: String,
    pub status: String,
    pub ready: bool,
    pub restart_count: i32,
    pub ports: Vec<String>,
    pub env_vars: Vec<EnvVarInfo>,
    pub mounts: Vec<MountInfo>,
    pub liveness: Option<ProbeInfo>,
    pub readiness: Option<ProbeInfo>,
    pub command: Vec<String>,
    pub args: Vec<String>,
    pub requests_cpu: String,
    pub requests_memory: String,
    pub limits_cpu: String,
    pub limits_memory: String,
}

/// One environment variable of a container, with its source.
#[derive(Debug, Clone)]
pub struct EnvVarInfo {
    pub name: String,
    pub value: String,
    pub source: String,
    pub source_name: String,
    pub source_key: String,
}

/// One volume mount of a container.
#[derive(Debug, Clone)]
pub struct MountInfo {
    pub name: String,
    pub mount_path: String,
    pub read_only: bool,
    pub sub_path: String,
}

/// One liveness or readiness probe, rendered for display.
#[derive(Debug, Clone)]
pub struct ProbeInfo {
    pub probe_type: String,
    pub details: String,
    pub delay: i32,
    pub timeout: i32,
    pub period: i32,
    pub success_threshold: i32,
    pub failure_threshold: i32,
}

/// One condition of a pod's status.
#[derive(Debug, Clone)]
pub struct PodConditionInfo {
    pub condition_type: String,
    pub status: String,
}

/// One toleration of a pod's scheduling spec.
#[derive(Debug, Clone)]
pub struct TolerationInfo {
    pub key: String,
    pub operator: String,
    pub value: String,
    pub effect: String,
}

/// One volume of a pod.
#[derive(Debug, Clone)]
pub struct VolumeInfo {
    pub name: String,
    pub volume_type: String,
    pub source: String,
    pub sources: Vec<VolumeSourceInfo>,
}

/// One source of a projected volume.
#[derive(Debug, Clone)]
pub struct VolumeSourceInfo {
    pub source_type: String,
    pub name: String,
    pub detail: String,
}

/// One historical image of a workload's container.
#[derive(Debug, Clone)]
pub struct ImageHistoryEntry {
    pub revision: String,
    pub image: String,
    pub age: String,
    pub current: bool,
}

} // verus!
