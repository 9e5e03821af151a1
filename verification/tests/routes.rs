use k0_core::obs::{IngressObs, IngressPathObs, IngressRuleObs};
use k0_core::routes::find_affected_routes;

fn ingress(name: &str, host: Option<&str>, path: Option<&str>, svc: Option<&str>) -> IngressObs {
    IngressObs {
        name: name.to_string(),
        rules: vec![IngressRuleObs {
            host: host.map(|s| s.to_string()),
            paths: vec![IngressPathObs {
                path: path.map(|s| s.to_string()),
                service: svc.map(|s| s.to_string()),
            }],
        }],
    }
}

#[test]
fn exact_and_prefix_matches_are_reported() {
    let names = vec!["web".to_string()];
    let ings = vec![
        ingress("ing-exact", Some("a.example"), Some("/"), Some("web")),
        ingress("ing-svc-prefix", Some("b.example"), Some("/api"), Some("web-svc")),
        ingress("ing-wl-prefix", None, None, Some("we")),
        ingress("ing-other", Some("c.example"), Some("/"), Some("db")),
    ];
    let r = find_affected_routes(&ings, &names);
    assert_eq!(r.len(), 3);
    assert_eq!(r[0].route_name, "ing-exact");
    assert_eq!(r[0].backend_service, "web");
    assert!(!r[0].backend_healthy);
    assert_eq!(r[0].route_type, "Ingress");
    assert_eq!(r[1].route_name, "ing-svc-prefix");
    assert_eq!(r[2].route_name, "ing-wl-prefix");
    assert_eq!(r[2].hosts, vec!["*".to_string()]);
    assert_eq!(r[2].paths, vec!["/".to_string()]);
}

#[test]
fn nothing_matches_when_no_workload_is_unhealthy() {
    let ings = vec![ingress("ing", Some("a.example"), Some("/"), Some("web"))];
    let r = find_affected_routes(&ings, &vec![]);
    assert!(r.is_empty());
}

#[test]
fn paths_without_service_backends_are_skipped() {
    let ings = vec![ingress("ing", Some("a.example"), Some("/"), None)];
    let r = find_affected_routes(&ings, &vec!["web".to_string()]);
    assert!(r.is_empty());
}
