use k0_core::entities::common::OwnerRefInfo;
use k0_core::obs::{PodObs, ReplicaSetObs};
use k0_core::watch::{PodStreamEvent, PodWatcher, DEBOUNCE_MILLIS};

fn pod(name: &str) -> PodObs {
    PodObs {
        name: name.to_string(),
        namespace: "default".to_string(),
        phase: Some("Running".to_string()),
        terminating: false,
        owners: vec![OwnerRefInfo {
            kind: "ReplicaSet".to_string(),
            name: "web-abc".to_string(),
        }],
        containers: vec![],
        resources: None,
        node: None,
        ip: None,
        created: None,
    }
}

fn generation() -> ReplicaSetObs {
    ReplicaSetObs {
        name: "web-abc".to_string(),
        owners: vec![OwnerRefInfo {
            kind: "Deployment".to_string(),
            name: "web".to_string(),
        }],
        revision: None,
        image: None,
        replicas: None,
        ready: None,
        created: None,
    }
}

#[test]
fn burst_within_window_coalesces_into_one_emission() {
    let gens = vec![generation()];
    let mut w = PodWatcher::new(&gens, 0);
    // The first event emits immediately and starts the window.
    assert!(w.handle_event(PodStreamEvent::InitDone, 0));
    // A burst of 10 applies inside 100 ms: no emission, only a pending mark.
    let mut emissions = 0;
    for i in 0..10 {
        let name = format!("pod-{}", i);
        if w.handle_event(PodStreamEvent::Apply(pod(&name)), 10 + 10 * i) {
            emissions += 1;
        }
    }
    assert_eq!(emissions, 0);
    // The debounce timer then fires once, and the emitted list holds all 10.
    assert!(w.timer_fire(DEBOUNCE_MILLIS));
    let rows = w.render(1_700_000_000);
    assert_eq!(rows.len(), 10);
    assert_eq!(rows[0].name, "pod-0");
    assert_eq!(rows[0].workload_kind, "Deployment");
    assert_eq!(rows[0].workload_name, "web");
    assert_eq!(rows[9].name, "pod-9");
    // Nothing further is pending.
    assert!(!w.timer_fire(2 * DEBOUNCE_MILLIS));
}

#[test]
fn delete_of_unseen_pod_leaves_cache_unchanged() {
    let mut w = PodWatcher::new(&vec![], 0);
    assert!(w.handle_event(PodStreamEvent::Apply(pod("a")), 0));
    assert!(w.handle_event(PodStreamEvent::Delete(pod("ghost")), 1000));
    assert_eq!(w.render(0).len(), 1);
}

#[test]
fn apply_upserts_by_name() {
    let mut w = PodWatcher::new(&vec![], 0);
    w.handle_event(PodStreamEvent::Apply(pod("a")), 0);
    let mut newer = pod("a");
    newer.phase = Some("Pending".to_string());
    w.handle_event(PodStreamEvent::Apply(newer), 1000);
    let rows = w.render(0);
    assert_eq!(rows.len(), 1);
    assert_eq!(rows[0].status, "Pending");
}

#[test]
fn delete_removes_by_name() {
    let mut w = PodWatcher::new(&vec![], 0);
    w.handle_event(PodStreamEvent::Apply(pod("a")), 0);
    w.handle_event(PodStreamEvent::Apply(pod("b")), 1000);
    w.handle_event(PodStreamEvent::Delete(pod("a")), 2000);
    let rows = w.render(0);
    assert_eq!(rows.len(), 1);
    assert_eq!(rows[0].name, "b");
}

#[test]
fn init_clears_cache_and_rebuilds_index() {
    let mut w = PodWatcher::new(&vec![], 0);
    w.handle_event(PodStreamEvent::Apply(pod("a")), 0);
    w.handle_event(PodStreamEvent::Init(vec![generation()]), 1000);
    assert_eq!(w.render(0).len(), 0);
    w.handle_event(PodStreamEvent::InitApply(pod("a")), 2000);
    let rows = w.render(0);
    assert_eq!(rows[0].workload_name, "web");
}

#[test]
fn age_tick_emits_only_with_cached_pods() {
    let mut w = PodWatcher::new(&vec![], 0);
    assert!(!w.age_tick(1000));
    w.handle_event(PodStreamEvent::Apply(pod("a")), 2000);
    assert!(w.age_tick(40000));
}
