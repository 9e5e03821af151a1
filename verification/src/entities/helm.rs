//! Snapshots of Helm releases and their revision history.

use vstd::prelude::*;

verus! {

/// One installed Helm release.
#[derive(Debug, Clone)]
pub struct HelmRelease {
    pub name: String,
    pub namespace: String,
    pub revision: String,
    pub updated: String,
    pub status: String,
    pub chart: String,
    pub app_version: String,
}

/// One revision of a Helm release's history.
#[derive(Debug, Clone)]
pub struct HelmRevision {
    pub revision: i64,
    pub updated: String,
    pub status: String,
    pub chart: String,
    pub app_version: String,
    pub description: String,
}

} // verus!
