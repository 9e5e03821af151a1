//! Snapshots of alerting data from the external metrics service.

use vstd::prelude::*;

verus! {

/// One open alert incident.
#[derive(Debug, Clone)]
pub struct ActiveAlert {
    pub condition_name: String,
    pub policy_name: String,
    pub target_name: String,
    pub priority: String,
    pub open_time: i64,
}

/// All open alert incidents for the monitored entities.
#[derive(Debug, Clone)]
pub struct ActiveAlertsSummary {
    pub alerts: Vec<ActiveAlert>,
}

} // verus!
