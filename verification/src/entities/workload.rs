//! Listing rows for the replicated workload kinds.

use vstd::prelude::*;

verus! {

/// One Deployment, summarized for listing.
#[derive(Debug, Clone)]
pub struct DeploymentInfo {
    pub name: String,
    pub namespace: String,
    pub ready: String,
    pub up_to_date: i32,
    pub available: i32,
    pub age: String,
}

/// One DaemonSet, summarized for listing.
#[derive(Debug, Clone)]
pub struct DaemonSetInfo {
    pub name: String,
    pub namespace: String,
    pub desired: i32,
    pub current: i32,
    pub ready: i32,
    pub available: i32,
    pub age: String,
}

/// One StatefulSet, summarized for listing.
#[derive(Debug, Clone)]
pub struct StatefulSetInfo {
    pub name: String,
    pub namespace: String,
    pub ready: String,
    pub age: String,
}

/// One ReplicaSet, summarized for listing.
#[derive(Debug, Clone)]
pub struct ReplicaSetInfo {
    pub name: String,
    pub namespace: String,
    pub desired: i32,
    pub current: i32,
    pub ready: i32,
    pub age: String,
}

/// One ReplicationController, summarized for listing.
#[derive(Debug, Clone)]
pub struct ReplicationControllerInfo {
    pub name: String,
    pub namespace: String,
    pub desired: i32,
    pub current: i32,
    pub ready: i32,
    pub age: String,
}

/// One Job, summarized for listing.
#[derive(Debug, Clone)]
pub struct JobInfo {
    pub name: String,
    pub namespace: String,
    pub completions: String,
    pub duration: String,
    pub age: String,
    pub status: String,
}

/// One CronJob, summarized for listing.
#[derive(Debug, Clone)]
pub struct CronJobInfo {
    pub name: String,
    pub namespace: String,
    pub schedule: String,
    pub suspend: bool,
    pub active: i32,
    pub last_schedule: String,
    pub age: String,
}

} // verus!
