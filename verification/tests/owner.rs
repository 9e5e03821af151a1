use k0_core::entities::common::OwnerRefInfo;
use k0_core::obs::ReplicaSetObs;
use k0_core::owner::{resolve, ReplicaSetIndex};

fn owner(kind: &str, name: &str) -> OwnerRefInfo {
    OwnerRefInfo {
        kind: kind.to_string(),
        name: name.to_string(),
    }
}

fn generation(name: &str, owners: Vec<OwnerRefInfo>) -> ReplicaSetObs {
    ReplicaSetObs {
        name: name.to_string(),
        owners,
        revision: None,
        image: None,
        replicas: None,
        ready: None,
        created: None,
    }
}

#[test]
fn resolves_pod_through_generation_to_deployment() {
    let gens = vec![
        generation("web-abc123", vec![owner("Deployment", "web")]),
        generation("api-def456", vec![owner("Deployment", "api")]),
    ];
    let idx = ReplicaSetIndex::build(&gens);
    let r = resolve(&vec![owner("ReplicaSet", "web-abc123")], &idx).unwrap();
    assert_eq!(r.kind, "Deployment");
    assert_eq!(r.name, "web");
}

#[test]
fn resolves_direct_owners() {
    let idx = ReplicaSetIndex::build(&vec![]);
    let r = resolve(&vec![owner("StatefulSet", "db")], &idx).unwrap();
    assert_eq!(r.kind, "StatefulSet");
    assert_eq!(r.name, "db");
    let r = resolve(&vec![owner("DaemonSet", "agent")], &idx).unwrap();
    assert_eq!(r.kind, "DaemonSet");
    assert_eq!(r.name, "agent");
    let r = resolve(&vec![owner("Job", "batch")], &idx).unwrap();
    assert_eq!(r.kind, "Job");
    assert_eq!(r.name, "batch");
}

#[test]
fn unknown_generation_falls_back_to_replica_set() {
    let idx = ReplicaSetIndex::build(&vec![]);
    let r = resolve(&vec![owner("ReplicaSet", "orphan-xyz")], &idx).unwrap();
    assert_eq!(r.kind, "ReplicaSet");
    assert_eq!(r.name, "orphan-xyz");
}

#[test]
fn unrecognized_owner_kinds_resolve_to_nothing() {
    let idx = ReplicaSetIndex::build(&vec![]);
    assert!(resolve(&vec![owner("Node", "n1")], &idx).is_none());
    assert!(resolve(&vec![], &idx).is_none());
}

#[test]
fn first_recognized_owner_wins() {
    let gens = vec![generation("web-abc123", vec![owner("Deployment", "web")])];
    let idx = ReplicaSetIndex::build(&gens);
    let chain = vec![
        owner("Node", "n1"),
        owner("StatefulSet", "db"),
        owner("ReplicaSet", "web-abc123"),
    ];
    let r = resolve(&chain, &idx).unwrap();
    assert_eq!(r.kind, "StatefulSet");
    assert_eq!(r.name, "db");
}
