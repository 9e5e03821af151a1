//! Plain data carried to the display layer: snapshots of cluster resources
//! and the composed diagnostic views. These types hold only owned values;
//! the application layer converts them for serialization at its boundary.

pub mod cluster;
pub mod common;
pub mod config;
pub mod gateway;
pub mod helm;
pub mod incident;
pub mod networking;
pub mod newrelic;
pub mod pod;
pub mod workload;
