use k0_core::entities::common::{EventInfo, OwnerRefInfo};
use k0_core::obs::{EventSource, ReplicaSetObs, TimeObs};
use k0_core::rollout::build_rollout_timeline;

fn owner(kind: &str, name: &str) -> OwnerRefInfo {
    OwnerRefInfo {
        kind: kind.to_string(),
        name: name.to_string(),
    }
}

fn generation(name: &str, dep: &str, revision: &str, image: &str, ts: &str) -> ReplicaSetObs {
    ReplicaSetObs {
        name: name.to_string(),
        owners: vec![owner("Deployment", dep)],
        revision: Some(revision.to_string()),
        image: Some(image.to_string()),
        replicas: Some(2),
        ready: Some(2),
        created: Some(TimeObs {
            epoch: 0,
            rfc3339: ts.to_string(),
        }),
    }
}

#[test]
fn generations_appear_in_revision_order_with_predecessor_snapshots() {
    // Revisions 1, 2, 3 with ascending creation timestamps, listed shuffled.
    let gens = vec![
        generation("web-r2", "web", "2", "img:v2", "2024-01-02T00:00:00Z"),
        generation("web-r3", "web", "3", "img:v3", "2024-01-03T00:00:00Z"),
        generation("web-r1", "web", "1", "img:v1", "2024-01-01T00:00:00Z"),
    ];
    let t = build_rollout_timeline(&gens, "web", &vec![], &vec![]);
    assert_eq!(t.deployment_name, "web");
    assert_eq!(t.steps.len(), 3);
    assert_eq!(t.steps[0].step_type, "revision:1");
    assert_eq!(t.steps[1].step_type, "revision:2");
    assert_eq!(t.steps[2].step_type, "revision:3");
    assert!(t.steps[0].old_rs.is_none());
    assert_eq!(t.steps[1].old_rs.as_ref().unwrap().name, "web-r1");
    assert_eq!(t.steps[2].old_rs.as_ref().unwrap().name, "web-r2");
    assert_eq!(t.steps[2].new_rs.as_ref().unwrap().image, "img:v3");
    assert_eq!(
        t.steps[0].description,
        "ReplicaSet web-r1 (rev 1) image: img:v1"
    );
}

#[test]
fn deployment_events_lead_the_timeline() {
    let gens = vec![generation("web-r1", "web", "1", "img:v1", "2024-01-01T00:00:00Z")];
    let dep_events = vec![EventInfo {
        reason: "ScalingReplicaSet".to_string(),
        message: "Scaled up".to_string(),
        count: 1,
        age: "1h".to_string(),
        event_type: "Normal".to_string(),
    }];
    let t = build_rollout_timeline(&gens, "web", &dep_events, &vec![]);
    assert_eq!(t.steps.len(), 2);
    assert_eq!(t.steps[0].step_type, "deployment:ScalingReplicaSet");
    assert_eq!(t.steps[0].timestamp, "");
    assert_eq!(t.steps[1].step_type, "revision:1");
}

#[test]
fn other_deployments_generations_are_ignored() {
    let gens = vec![
        generation("web-r1", "web", "1", "img:v1", "2024-01-01T00:00:00Z"),
        generation("api-r1", "api", "1", "img:api", "2024-01-01T00:00:00Z"),
    ];
    let t = build_rollout_timeline(&gens, "web", &vec![], &vec![]);
    assert_eq!(t.steps.len(), 1);
    assert_eq!(t.steps[0].new_rs.as_ref().unwrap().name, "web-r1");
}

#[test]
fn generation_events_attach_to_their_step() {
    let gens = vec![generation("web-r1", "web", "1", "img:v1", "2024-01-01T00:00:00Z")];
    let rs_events = vec![EventSource {
        name: "web-r1".to_string(),
        kind: "ReplicaSet".to_string(),
        events: vec![EventInfo {
            reason: "SuccessfulCreate".to_string(),
            message: "Created pod".to_string(),
            count: 1,
            age: "1h".to_string(),
            event_type: "Normal".to_string(),
        }],
    }];
    let t = build_rollout_timeline(&gens, "web", &vec![], &rs_events);
    assert_eq!(t.steps.len(), 1);
    assert_eq!(t.steps[0].events.len(), 1);
    assert_eq!(t.steps[0].events[0].reason, "SuccessfulCreate");
}

#[test]
fn unparsable_revisions_cluster_at_the_front() {
    let gens = vec![
        generation("web-r2", "web", "2", "img:v2", "2024-01-02T00:00:00Z"),
        generation("web-r0", "web", "garbage", "img:v0", "2024-01-01T00:00:00Z"),
    ];
    let t = build_rollout_timeline(&gens, "web", &vec![], &vec![]);
    assert_eq!(t.steps.len(), 2);
    assert_eq!(t.steps[0].new_rs.as_ref().unwrap().name, "web-r0");
    assert_eq!(t.steps[1].new_rs.as_ref().unwrap().name, "web-r2");
}
