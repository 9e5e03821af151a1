//! Snapshots of cluster-level objects: contexts, namespaces, custom
//! resource definitions and port-forward sessions.

use vstd::prelude::*;

verus! {

/// One kubeconfig context.
#[derive(Debug, Clone)]
pub struct ContextInfo {
    pub name: String,
    pub cluster: String,
    pub user: String,
    pub namespace: Option<String>,
    pub is_active: bool,
}

/// One namespace of the active cluster.
#[derive(Debug, Clone)]
pub struct NamespaceInfo {
    pub name: String,
    pub status: String,
    pub age: String,
}

/// One custom resource definition.
#[derive(Debug, Clone)]
pub struct CRDInfo {
    pub name: String,
    pub group: String,
    pub version: String,
    pub kind: String,
    pub plural: String,
    pub scope: String,
}

/// One instance of a custom resource.
#[derive(Debug, Clone)]
pub struct CRDInstanceInfo {
    pub name: String,
    pub namespace: String,
    pub age: String,
}

/// One active port-forward session.
#[derive(Debug, Clone)]
pub struct PortForwardEntry {
    pub id: String,
    pub target_kind: String,
    pub target_name: String,
    pub local_port: u16,
    pub remote_port: u16,
}

} // verus!
