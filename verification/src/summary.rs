//! The incident summary: assembly of the four independent fetches and
//! the route match into one all-or-nothing view, and the handler
//! methods callers go through.

use vstd::prelude::*;

use crate::changes::{detect_recent_changes, sort_changes_desc, spec_dedup_changes, spec_recent_changes};
use crate::entities::common::EventInfo;
use crate::entities::incident::{AffectedRoute, ChangeEvent, IncidentSummary, NamespaceEventInfo, NamespaceEventView, RolloutTimeline, UnhealthyWorkload, WorkloadSaturation};
use crate::errors::DomainError;
use crate::events::{fetch_namespace_events, sane_epoch, sane_event_times, sort_ns_desc, spec_select_events};
use crate::obs::{EventObs, EventSource, HpaObs, ReplicaSetObs, WorkloadObs};
use crate::rollout::{build_rollout_timeline, spec_rollout_steps};
use crate::text::str_eq;

verus! {

/// The Warning events of a listing, in order.
pub open spec fn warning_events(s: Seq<NamespaceEventView>) -> Seq<NamespaceEventView>
    decreases s.len(),
{
    if s.len() == 0 {
        Seq::empty()
    } else {
        warning_events(s.drop_last()) + if s.last().event_type == "Warning"@ {
            seq![s.last()]
        } else {
            Seq::empty()
        }
    }
}

/// Keep only the Warning events.
fn filter_warnings(v: Vec<NamespaceEventInfo>) -> (r: Vec<NamespaceEventInfo>)
    ensures
        r.deep_view() == warning_events(v.deep_view()),
{
    let ghost all = v.deep_view();
    let mut src = v;
    let mut out: Vec<NamespaceEventInfo> = Vec::new();
    let ghost i: int = 0;
    proof {
        assert(all.take(0) =~= Seq::<NamespaceEventView>::empty());
        assert(warning_events(all.take(0)) =~= Seq::<NamespaceEventView>::empty());
        assert(all.skip(0) =~= all);
    }
    while src.len() > 0
        invariant
            0 <= i <= all.len(),
            src.deep_view() =~= all.skip(i),
            out.deep_view() =~= warning_events(all.take(i)),
        decreases src.len(),
    {
        let ghost pre = src.deep_view();
        proof {
            assert(pre.len() == src@.len());
            assert(pre.len() == all.skip(i).len());
            assert(i < all.len());
            assert(all.skip(i)[0] == all[i]);
            assert(pre[0] == all[i]);
        }
        let e = src.remove(0);
        proof {
            assert(src.deep_view() =~= pre.remove(0));
            assert(pre.remove(0) =~= all.skip(i + 1));
            assert(all.take(i + 1).drop_last() =~= all.take(i));
            assert(all.take(i + 1).last() == all[i]);
        }
        let ghost outdeep = out.deep_view();
        if str_eq(e.event_type.as_str(), "Warning") {
            out.push(e);
            proof {
                assert(out.deep_view() =~= outdeep + seq![all[i]]);
            }
        }
        proof {
            i = i + 1;
        }
    }
    proof {
        assert(all.take(all.len() as int) =~= all);
        assert(all.skip(i) =~= src.deep_view());
        assert(i == all.len());
    }
    out
}

/// The request-facing operations of the incident view. Each takes the
/// already-observed cluster state as plain values; the surrounding
/// application performs the reads, concurrently where the summary asks
/// for it.
pub struct IncidentHandler;

impl IncidentHandler {
    /// Assemble the incident summary from its five fetch results.
    ///
    /// The summary is all-or-nothing: it exists exactly when every
    /// fetch succeeded, and the first failure (in the order unhealthy
    /// workloads, recent changes, saturation, namespace events,
    /// affected routes) is the summary's failure. Fetched events are
    /// narrowed to Warnings.
    pub fn get_incident_summary(
        unhealthy: Result<Vec<UnhealthyWorkload>, DomainError>,
        changes: Result<Vec<ChangeEvent>, DomainError>,
        events: Result<Vec<NamespaceEventInfo>, DomainError>,
        saturation: Result<Vec<WorkloadSaturation>, DomainError>,
        routes: Result<Vec<AffectedRoute>, DomainError>,
    ) -> (r: Result<IncidentSummary, DomainError>)
        ensures
            r is Ok <==> (unhealthy is Ok && changes is Ok && events is Ok && saturation is Ok
                && routes is Ok),
            r is Ok ==> {
                &&& r.unwrap().unhealthy_workloads.deep_view() == unhealthy.unwrap().deep_view()
                &&& r.unwrap().recent_changes.deep_view() == changes.unwrap().deep_view()
                &&& r.unwrap().error_events.deep_view() == warning_events(
                    events.unwrap().deep_view(),
                )
                &&& r.unwrap().saturation.deep_view() == saturation.unwrap().deep_view()
                &&& r.unwrap().affected_routes.deep_view() == routes.unwrap().deep_view()
            },
            unhealthy is Err ==> r == Result::<IncidentSummary, DomainError>::Err(
                unhealthy.unwrap_err(),
            ),
            unhealthy is Ok && changes is Err ==> r == Result::<IncidentSummary, DomainError>::Err(
                changes.unwrap_err(),
            ),
            unhealthy is Ok && changes is Ok && saturation is Err ==> r == Result::<
                IncidentSummary,
                DomainError,
            >::Err(saturation.unwrap_err()),
            unhealthy is Ok && changes is Ok && saturation is Ok && events is Err ==> r == Result::<
                IncidentSummary,
                DomainError,
            >::Err(events.unwrap_err()),
            unhealthy is Ok && changes is Ok && saturation is Ok && events is Ok && routes is Err
                ==> r == Result::<IncidentSummary, DomainError>::Err(routes.unwrap_err()),
    {
        let unhealthy_workloads = match unhealthy {
            Ok(v) => v,
            Err(e) => {
                return Err(e);
            },
        };
        let recent_changes = match changes {
            Ok(v) => v,
            Err(e) => {
                return Err(e);
            },
        };
        let saturation_list = match saturation {
            Ok(v) => v,
            Err(e) => {
                return Err(e);
            },
        };
        let event_list = match events {
            Ok(v) => v,
            Err(e) => {
                return Err(e);
            },
        };
        let affected_routes = match routes {
            Ok(v) => v,
            Err(e) => {
                return Err(e);
            },
        };
        let error_events = filter_warnings(event_list);
        Ok(
            IncidentSummary {
                unhealthy_workloads,
                recent_changes,
                error_events,
                saturation: saturation_list,
                affected_routes,
            },
        )
    }

    /// Everything that changed inside the lookback window; see
    /// [`detect_recent_changes`].
    pub fn get_what_changed(
        gens: &Vec<ReplicaSetObs>,
        deployments: &Vec<WorkloadObs>,
        hpas: &Vec<HpaObs>,
        events: &Vec<EventObs>,
        since_minutes: u32,
        now: i64,
    ) -> (r: Vec<ChangeEvent>)
        requires
            sane_epoch(now as int),
        ensures
            r.deep_view() == sort_changes_desc(
                spec_dedup_changes(
                    spec_recent_changes(
                        gens.deep_view(),
                        deployments.deep_view(),
                        hpas.deep_view(),
                        events.deep_view(),
                        now - 60 * (since_minutes as int),
                    ),
                ),
            ),
    {
        detect_recent_changes(gens, deployments, hpas, events, since_minutes, now)
    }

    /// One Deployment's rollout history; see [`build_rollout_timeline`].
    pub fn get_rollout_timeline(
        gens: &Vec<ReplicaSetObs>,
        deployment_name: &str,
        dep_events: &Vec<EventInfo>,
        rs_events: &Vec<EventSource>,
    ) -> (r: RolloutTimeline)
        ensures
            r.deployment_name@ == deployment_name@,
            r.steps.deep_view() == spec_rollout_steps(
                gens.deep_view(),
                deployment_name@,
                dep_events.deep_view(),
                rs_events.deep_view(),
            ),
    {
        build_rollout_timeline(gens, deployment_name, dep_events, rs_events)
    }

    /// The namespace's events, newest first; see
    /// [`fetch_namespace_events`].
    pub fn get_namespace_events(
        events: &Vec<EventObs>,
        since_minutes: Option<u32>,
        now: i64,
    ) -> (r: Vec<NamespaceEventInfo>)
        requires
            sane_epoch(now as int),
            sane_event_times(events.deep_view()),
        ensures
            r.deep_view() == sort_ns_desc(
                spec_select_events(
                    events.deep_view(),
                    match since_minutes {
                        Some(m) => Some((now - 60 * (m as i64)) as int),
                        None => None::<int>,
                    },
                    now as int,
                ),
            ),
    {
        fetch_namespace_events(events, since_minutes, now)
    }
}

} // verus!
