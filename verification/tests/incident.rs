use k0_core::entities::common::OwnerRefInfo;
use k0_core::entities::incident::IncidentSummary;
use k0_core::errors::DomainError;
use k0_core::obs::{ContainerObs, PodObs, ReplicaSetObs, WorkloadObs};
use k0_core::saturation::get_workload_saturation;
use k0_core::summary::IncidentHandler;
use k0_core::unhealthy::find_unhealthy_workloads;

fn workload(name: &str, desired: Option<i32>, ready: Option<i32>) -> WorkloadObs {
    WorkloadObs {
        name: name.to_string(),
        desired,
        ready,
        restarted_at: None,
    }
}

fn container(restarts: i32, waiting: Option<&str>) -> ContainerObs {
    ContainerObs {
        ready: false,
        restart_count: restarts,
        waiting_reason: waiting.map(|s| s.to_string()),
        terminated_reason: None,
    }
}

fn pod(name: &str, owners: Vec<OwnerRefInfo>, containers: Vec<ContainerObs>) -> PodObs {
    PodObs {
        name: name.to_string(),
        namespace: "default".to_string(),
        phase: Some("Running".to_string()),
        terminating: false,
        owners,
        containers,
        resources: None,
        node: None,
        ip: None,
        created: None,
    }
}

fn owner(kind: &str, name: &str) -> OwnerRefInfo {
    OwnerRefInfo {
        kind: kind.to_string(),
        name: name.to_string(),
    }
}

fn generation(name: &str, dep: &str) -> ReplicaSetObs {
    ReplicaSetObs {
        name: name.to_string(),
        owners: vec![owner("Deployment", dep)],
        revision: None,
        image: None,
        replicas: None,
        ready: None,
        created: None,
    }
}

#[test]
fn unready_deployment_appears_with_ratio() {
    let deployments = vec![workload("web", Some(3), Some(1))];
    let r = find_unhealthy_workloads(&deployments, &vec![], &vec![], &vec![], &vec![], &vec![]);
    assert_eq!(r.len(), 1);
    assert_eq!(r[0].name, "web");
    assert_eq!(r[0].kind, "Deployment");
    assert_eq!(r[0].ready, "1/3");
    assert_eq!(r[0].restart_count, 0);
    assert!(r[0].pod_errors.is_empty());
}

#[test]
fn healthy_deployment_stays_out() {
    let deployments = vec![workload("web", Some(3), Some(3))];
    let r = find_unhealthy_workloads(&deployments, &vec![], &vec![], &vec![], &vec![], &vec![]);
    assert!(r.is_empty());
}

#[test]
fn missing_counts_use_kind_defaults() {
    // A Deployment without declared replicas wants 1; without ready it has 0.
    let deployments = vec![workload("web", None, None)];
    let daemonsets = vec![workload("agent", None, None)];
    let r = find_unhealthy_workloads(&deployments, &vec![], &daemonsets, &vec![], &vec![], &vec![]);
    assert_eq!(r.len(), 1);
    assert_eq!(r[0].name, "web");
    assert_eq!(r[0].ready, "0/1");
}

#[test]
fn pod_signals_merge_into_matching_entry() {
    let deployments = vec![workload("web", Some(3), Some(1))];
    let gens = vec![generation("web-abc", "web")];
    let pods = vec![pod(
        "web-abc-1",
        vec![owner("ReplicaSet", "web-abc")],
        vec![container(4, Some("CrashLoopBackOff"))],
    )];
    let r = find_unhealthy_workloads(&deployments, &vec![], &vec![], &pods, &gens, &vec![]);
    assert_eq!(r.len(), 1);
    assert_eq!(r[0].restart_count, 4);
    assert_eq!(r[0].pod_errors, vec!["web-abc-1: CrashLoopBackOff".to_string()]);
}

#[test]
fn crashing_pod_of_healthy_workload_synthesizes_entry() {
    let deployments = vec![workload("web", Some(1), Some(1))];
    let gens = vec![generation("web-abc", "web")];
    let pods = vec![pod(
        "web-abc-1",
        vec![owner("ReplicaSet", "web-abc")],
        vec![container(6, None)],
    )];
    let r = find_unhealthy_workloads(&deployments, &vec![], &vec![], &pods, &gens, &vec![]);
    assert_eq!(r.len(), 1);
    assert_eq!(r[0].name, "web");
    assert_eq!(r[0].kind, "Deployment");
    assert_eq!(r[0].ready, "?");
    assert_eq!(r[0].restart_count, 6);
}

#[test]
fn quiet_pod_of_healthy_workload_changes_nothing() {
    let deployments = vec![workload("web", Some(1), Some(1))];
    let gens = vec![generation("web-abc", "web")];
    let pods = vec![pod(
        "web-abc-1",
        vec![owner("ReplicaSet", "web-abc")],
        vec![container(5, None)],
    )];
    let r = find_unhealthy_workloads(&deployments, &vec![], &vec![], &pods, &gens, &vec![]);
    assert!(r.is_empty());
}

#[test]
fn unhealthy_sorted_by_severity_then_name() {
    let deployments = vec![
        workload("calm", Some(2), Some(1)),
        workload("noisy", Some(2), Some(1)),
    ];
    let gens = vec![generation("noisy-abc", "noisy")];
    let pods = vec![pod(
        "noisy-abc-1",
        vec![owner("ReplicaSet", "noisy-abc")],
        vec![container(7, None)],
    )];
    let r = find_unhealthy_workloads(&deployments, &vec![], &vec![], &pods, &gens, &vec![]);
    assert_eq!(r.len(), 2);
    assert_eq!(r[0].name, "noisy");
    assert_eq!(r[1].name, "calm");
}

#[test]
fn saturation_excludes_quiet_healthy_workload() {
    let deployments = vec![workload("web", Some(2), Some(2))];
    let gens = vec![generation("web-abc", "web")];
    let pods = vec![pod(
        "web-abc-1",
        vec![owner("ReplicaSet", "web-abc")],
        vec![container(3, None)],
    )];
    let r = get_workload_saturation(&deployments, &vec![], &pods, &gens);
    assert!(r.is_empty());
}

#[test]
fn saturation_includes_unready_workload() {
    let deployments = vec![workload("web", Some(2), Some(1))];
    let gens = vec![generation("web-abc", "web")];
    let pods = vec![pod(
        "web-abc-1",
        vec![owner("ReplicaSet", "web-abc")],
        vec![container(0, None)],
    )];
    let r = get_workload_saturation(&deployments, &vec![], &pods, &gens);
    assert_eq!(r.len(), 1);
    assert_eq!(r[0].workload_name, "web");
    assert_eq!(r[0].workload_kind, "Deployment");
    assert_eq!(r[0].desired_replicas, 2);
    assert_eq!(r[0].ready_replicas, 1);
    assert_eq!(r[0].pods.len(), 1);
    assert_eq!(r[0].pods[0].name, "web-abc-1");
}

#[test]
fn saturation_includes_restarting_workload() {
    let deployments = vec![workload("web", Some(1), Some(1))];
    let gens = vec![generation("web-abc", "web")];
    let pods = vec![pod(
        "web-abc-1",
        vec![owner("ReplicaSet", "web-abc")],
        vec![container(4, None)],
    )];
    let r = get_workload_saturation(&deployments, &vec![], &pods, &gens);
    assert_eq!(r.len(), 1);
    assert_eq!(r[0].workload_name, "web");
}

fn ok_summary_parts() -> (
    Result<Vec<k0_core::entities::incident::UnhealthyWorkload>, DomainError>,
    Result<Vec<k0_core::entities::incident::ChangeEvent>, DomainError>,
    Result<Vec<k0_core::entities::incident::NamespaceEventInfo>, DomainError>,
    Result<Vec<k0_core::entities::incident::WorkloadSaturation>, DomainError>,
    Result<Vec<k0_core::entities::incident::AffectedRoute>, DomainError>,
) {
    (Ok(vec![]), Ok(vec![]), Ok(vec![]), Ok(vec![]), Ok(vec![]))
}

#[test]
fn summary_succeeds_when_all_fetches_succeed() {
    let (u, c, e, s, r) = ok_summary_parts();
    let out: IncidentSummary = IncidentHandler::get_incident_summary(u, c, e, s, r).unwrap();
    assert!(out.unhealthy_workloads.is_empty());
    assert!(out.affected_routes.is_empty());
}

#[test]
fn summary_fails_atomically_on_saturation_error() {
    let (u, c, e, _s, r) = ok_summary_parts();
    let out = IncidentHandler::get_incident_summary(
        u,
        c,
        e,
        Err(DomainError::KubernetesApi("boom".to_string())),
        r,
    );
    match out {
        Err(DomainError::KubernetesApi(m)) => assert_eq!(m, "boom"),
        _ => panic!("expected the saturation failure to fail the summary"),
    }
}

#[test]
fn summary_keeps_only_warning_events() {
    let (u, c, _e, s, r) = ok_summary_parts();
    let mk = |ty: &str| k0_core::entities::incident::NamespaceEventInfo {
        involved_kind: "Pod".to_string(),
        involved_name: "p".to_string(),
        reason: "r".to_string(),
        message: "m".to_string(),
        count: 1,
        event_type: ty.to_string(),
        timestamp: String::new(),
        age: "1m".to_string(),
    };
    let out =
        IncidentHandler::get_incident_summary(u, c, Ok(vec![mk("Normal"), mk("Warning")]), s, r)
            .unwrap();
    assert_eq!(out.error_events.len(), 1);
    assert_eq!(out.error_events[0].event_type, "Warning");
}
