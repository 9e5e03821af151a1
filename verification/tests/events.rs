use k0_core::entities::common::OwnerRefInfo;
use k0_core::events::fetch_namespace_events;
use k0_core::obs::{ContainerObs, EventObs, PodObs, TimeObs};
use k0_core::owner::ReplicaSetIndex;
use k0_core::podview::pod_to_pod_info;

const NOW: i64 = 1_700_000_000;

fn event(reason: &str, epoch: Option<i64>, ts: &str, kind: &str) -> EventObs {
    EventObs {
        involved_kind: Some("Pod".to_string()),
        involved_name: Some("web-1".to_string()),
        reason: Some(reason.to_string()),
        message: Some("m".to_string()),
        count: None,
        event_type: Some(kind.to_string()),
        event_time: epoch.map(|e| TimeObs {
            epoch: e,
            rfc3339: ts.to_string(),
        }),
        creation_time: Some(TimeObs {
            epoch: NOW - 120,
            rfc3339: "2023-11-14T22:11:20Z".to_string(),
        }),
    }
}

#[test]
fn events_are_filtered_by_window_and_sorted_newest_first() {
    let events = vec![
        event("Old", Some(NOW - 7200), "2023-11-14T20:13:20Z", "Normal"),
        event("Earlier", Some(NOW - 600), "2023-11-14T22:03:20Z", "Warning"),
        event("Later", Some(NOW - 60), "2023-11-14T22:12:20Z", "Normal"),
    ];
    let r = fetch_namespace_events(&events, Some(30), NOW);
    assert_eq!(r.len(), 2);
    assert_eq!(r[0].reason, "Later");
    assert_eq!(r[1].reason, "Earlier");
    assert_eq!(r[0].count, 1);
    assert_eq!(r[0].age, "2m");
}

#[test]
fn undated_events_pass_the_window_and_sort_last() {
    let events = vec![
        EventObs {
            involved_kind: None,
            involved_name: None,
            reason: Some("Undated".to_string()),
            message: None,
            count: Some(3),
            event_type: None,
            event_time: None,
            creation_time: None,
        },
        event("Dated", Some(NOW - 60), "2023-11-14T22:12:20Z", "Normal"),
    ];
    let r = fetch_namespace_events(&events, Some(30), NOW);
    assert_eq!(r.len(), 2);
    assert_eq!(r[0].reason, "Dated");
    assert_eq!(r[1].reason, "Undated");
    assert_eq!(r[1].timestamp, "");
    assert_eq!(r[1].event_type, "Normal");
    assert_eq!(r[1].involved_kind, "");
    assert_eq!(r[1].age, "Unknown");
    assert_eq!(r[1].count, 3);
}

#[test]
fn pod_row_renders_status_ready_and_owner() {
    let gens = vec![k0_core::obs::ReplicaSetObs {
        name: "web-abc".to_string(),
        owners: vec![OwnerRefInfo {
            kind: "Deployment".to_string(),
            name: "web".to_string(),
        }],
        revision: None,
        image: None,
        replicas: None,
        ready: None,
        created: None,
    }];
    let idx = ReplicaSetIndex::build(&gens);
    let p = PodObs {
        name: "web-abc-1".to_string(),
        namespace: "default".to_string(),
        phase: Some("Running".to_string()),
        terminating: false,
        owners: vec![OwnerRefInfo {
            kind: "ReplicaSet".to_string(),
            name: "web-abc".to_string(),
        }],
        containers: vec![
            ContainerObs {
                ready: true,
                restart_count: 2,
                waiting_reason: None,
                terminated_reason: None,
            },
            ContainerObs {
                ready: false,
                restart_count: 1,
                waiting_reason: Some("CrashLoopBackOff".to_string()),
                terminated_reason: None,
            },
        ],
        resources: None,
        node: Some("node-1".to_string()),
        ip: Some("10.0.0.1".to_string()),
        created: Some(TimeObs {
            epoch: NOW - 5 * 86400,
            rfc3339: "2023-11-09T22:13:20Z".to_string(),
        }),
    };
    let row = pod_to_pod_info(&p, &idx, NOW);
    assert_eq!(row.name, "web-abc-1");
    assert_eq!(row.status, "Running");
    assert_eq!(row.ready, "1/2");
    assert_eq!(row.restarts, 3);
    assert_eq!(row.age, "5d");
    assert_eq!(row.node, "node-1");
    assert_eq!(row.ip, "10.0.0.1");
    assert_eq!(row.workload_kind, "Deployment");
    assert_eq!(row.workload_name, "web");
}

#[test]
fn terminating_pod_shows_terminating() {
    let idx = ReplicaSetIndex::build(&vec![]);
    let p = PodObs {
        name: "p".to_string(),
        namespace: "default".to_string(),
        phase: Some("Running".to_string()),
        terminating: true,
        owners: vec![],
        containers: vec![],
        resources: None,
        node: None,
        ip: None,
        created: None,
    };
    let row = pod_to_pod_info(&p, &idx, NOW);
    assert_eq!(row.status, "Terminating");
    assert_eq!(row.ready, "0/0");
    assert_eq!(row.age, "Unknown");
    assert_eq!(row.workload_kind, "");
}
