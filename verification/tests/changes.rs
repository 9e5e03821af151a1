use k0_core::changes::detect_recent_changes;
use k0_core::entities::common::{EventInfo, OwnerRefInfo};
use k0_core::entities::incident::ChangeDetails;
use k0_core::obs::{EventObs, HpaObs, ReplicaSetObs, TimeObs, WorkloadObs};

const NOW: i64 = 1_700_000_000;

fn owner(kind: &str, name: &str) -> OwnerRefInfo {
    OwnerRefInfo {
        kind: kind.to_string(),
        name: name.to_string(),
    }
}

fn generation(
    name: &str,
    dep: &str,
    revision: &str,
    image: &str,
    created: Option<i64>,
) -> ReplicaSetObs {
    ReplicaSetObs {
        name: name.to_string(),
        owners: vec![owner("Deployment", dep)],
        revision: Some(revision.to_string()),
        image: Some(image.to_string()),
        replicas: Some(1),
        ready: Some(1),
        created: created.map(|e| TimeObs {
            epoch: e,
            rfc3339: format!("epoch:{}", e),
        }),
    }
}

#[test]
fn image_update_detected_for_fresh_generation() {
    let gens = vec![
        generation("web-old", "web", "1", "img:v1", Some(NOW - 3600)),
        generation("web-new", "web", "2", "img:v2", Some(NOW - 60)),
    ];
    let r = detect_recent_changes(&gens, &vec![], &vec![], &vec![], 15, NOW);
    assert_eq!(r.len(), 1);
    let c = &r[0];
    assert_eq!(c.change_type, "ImageUpdate");
    assert_eq!(c.resource_name, "web");
    assert_eq!(c.description, "Image updated: img:v1 -> img:v2");
    match &c.details {
        ChangeDetails::ImageUpdate {
            old_image,
            new_image,
            revision,
        } => {
            assert_eq!(old_image, "img:v1");
            assert_eq!(new_image, "img:v2");
            assert_eq!(revision, "2");
        }
        _ => panic!("expected an image update"),
    }
}

#[test]
fn new_generation_without_image_change_reports_new_replica_set() {
    let gens = vec![generation("web-new", "web", "1", "img:v1", Some(NOW - 60))];
    let r = detect_recent_changes(&gens, &vec![], &vec![], &vec![], 15, NOW);
    assert_eq!(r.len(), 1);
    match &r[0].details {
        ChangeDetails::NewReplicaSet { name, revision, image } => {
            assert_eq!(name, "web-new");
            assert_eq!(revision, "1");
            assert_eq!(image, "img:v1");
        }
        _ => panic!("expected a new generation notice"),
    }
}

#[test]
fn stale_generation_yields_nothing() {
    let gens = vec![generation("web-new", "web", "2", "img:v2", Some(NOW - 3600))];
    let r = detect_recent_changes(&gens, &vec![], &vec![], &vec![], 15, NOW);
    assert!(r.is_empty());
}

#[test]
fn restart_annotation_inside_window_is_reported() {
    let deployments = vec![WorkloadObs {
        name: "web".to_string(),
        desired: Some(1),
        ready: Some(1),
        restarted_at: Some("2023-11-14T22:13:00Z".to_string()),
    }];
    // The annotation above parses to an instant a few seconds before NOW.
    let r = detect_recent_changes(&vec![], &deployments, &vec![], &vec![], 15, NOW);
    assert_eq!(r.len(), 1);
    assert_eq!(r[0].change_type, "Restart");
    assert_eq!(r[0].timestamp, "2023-11-14T22:13:00Z");
    match &r[0].details {
        ChangeDetails::Restart { triggered_at } => {
            assert_eq!(triggered_at, "2023-11-14T22:13:00Z")
        }
        _ => panic!("expected a restart"),
    }
}

#[test]
fn unparsable_restart_annotation_is_ignored() {
    let deployments = vec![WorkloadObs {
        name: "web".to_string(),
        desired: Some(1),
        ready: Some(1),
        restarted_at: Some("not a timestamp".to_string()),
    }];
    let r = detect_recent_changes(&vec![], &deployments, &vec![], &vec![], 15, NOW);
    assert!(r.is_empty());
}

fn rescale_event() -> EventInfo {
    EventInfo {
        reason: "SuccessfulRescale".to_string(),
        message: "New size: 4".to_string(),
        count: 1,
        age: "1m".to_string(),
        event_type: "Normal".to_string(),
    }
}

#[test]
fn hpa_rescale_events_are_reported() {
    let hpas = vec![HpaObs {
        name: "web-hpa".to_string(),
        current_replicas: Some(4),
        desired_replicas: Some(4),
        events: vec![rescale_event()],
    }];
    let r = detect_recent_changes(&vec![], &vec![], &hpas, &vec![], 15, NOW);
    assert_eq!(r.len(), 1);
    assert_eq!(r[0].change_type, "HPAScale");
    assert_eq!(r[0].resource_kind, "HPA");
    match &r[0].details {
        ChangeDetails::HPAScale {
            current_replicas,
            desired_replicas,
            metric_status,
        } => {
            assert_eq!(*current_replicas, 4);
            assert_eq!(*desired_replicas, 4);
            assert_eq!(metric_status, "New size: 4");
        }
        _ => panic!("expected a rescale"),
    }
}

#[test]
fn identical_findings_deduplicate_to_one() {
    // Two events on one autoscaler produce identical
    // (type, resource, description) triples: exactly one change stays.
    let hpas = vec![HpaObs {
        name: "web-hpa".to_string(),
        current_replicas: Some(4),
        desired_replicas: Some(4),
        events: vec![rescale_event(), rescale_event()],
    }];
    let r = detect_recent_changes(&vec![], &vec![], &hpas, &vec![], 15, NOW);
    assert_eq!(r.len(), 1);
}

#[test]
fn scaling_events_are_reported_and_ordered_newest_first() {
    let ev = |epoch: i64, msg: &str| EventObs {
        involved_kind: Some("Deployment".to_string()),
        involved_name: Some("web".to_string()),
        reason: Some("ScalingReplicaSet".to_string()),
        message: Some(msg.to_string()),
        count: Some(1),
        event_type: Some("Normal".to_string()),
        event_time: Some(TimeObs {
            epoch,
            rfc3339: format!("2023-11-14T22:1{}:00Z", if epoch == NOW - 60 { 2 } else { 1 }),
        }),
        creation_time: None,
    };
    let events = vec![ev(NOW - 120, "Scaled up replica set web-a to 2"), ev(NOW - 60, "Scaled up replica set web-a to 3")];
    let r = detect_recent_changes(&vec![], &vec![], &vec![], &events, 15, NOW);
    assert_eq!(r.len(), 2);
    assert_eq!(r[0].description, "Scaled up replica set web-a to 3");
    assert_eq!(r[1].description, "Scaled up replica set web-a to 2");
}

#[test]
fn undated_changes_sort_last() {
    let gens = vec![generation("web-new", "web", "1", "img:v1", Some(NOW - 60))];
    let hpas = vec![HpaObs {
        name: "web-hpa".to_string(),
        current_replicas: None,
        desired_replicas: None,
        events: vec![rescale_event()],
    }];
    let r = detect_recent_changes(&gens, &vec![], &hpas, &vec![], 15, NOW);
    assert_eq!(r.len(), 2);
    assert_eq!(r[0].change_type, "ImageUpdate");
    assert_eq!(r[1].change_type, "HPAScale");
    assert_eq!(r[1].timestamp, "");
}
