//! Read-side correlation engine for cluster state: turns observed workloads,
//! pods, replica-set generations, autoscalers and events into operator-facing
//! diagnostic views (unhealthy workloads, recent changes, saturation,
//! affected routes, rollout timelines, and a debounced live pod index).
//!
//! Every function here is pure with respect to the cluster: the surrounding
//! application performs the API reads and hands the results in as plain
//! observed values.

pub mod changes;
pub mod entities;
pub mod errors;
pub mod events;
pub mod formatting;
pub mod obs;
pub mod owner;
pub mod podview;
pub mod rollout;
pub mod routes;
pub mod saturation;
pub mod streams;
pub mod summary;
pub mod text;
pub mod timeparse;
pub mod unhealthy;
pub mod watch;
