//! Snapshots of configuration objects.

use vstd::prelude::*;

verus! {

/// One config map, summarized for listing.
#[derive(Debug, Clone)]
pub struct ConfigMapInfo {
    pub name: String,
    pub namespace: String,
    pub data_count: i32,
    pub age: String,
}

/// One secret, summarized for listing.
#[derive(Debug, Clone)]
pub struct SecretInfo {
    pub name: String,
    pub namespace: String,
    pub secret_type: String,
    pub data_count: i32,
    pub age: String,
}

} // verus!
