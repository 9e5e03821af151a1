use k0_core::streams::{build_system_prompt, kubectl_target};

#[test]
fn kubectl_targets_by_kind() {
    assert_eq!(kubectl_target("pod", "web-abc-1"), "web-abc-1");
    assert_eq!(kubectl_target("deployment", "web"), "deployment/web");
    assert_eq!(kubectl_target("statefulset", "db"), "statefulset/db");
    assert_eq!(kubectl_target("daemonset", "agent"), "daemonset/agent");
    assert_eq!(kubectl_target("job", "batch"), "job/batch");
    assert_eq!(kubectl_target("service", "svc"), "svc");
}

#[test]
fn prompt_pins_context_and_namespace() {
    let p = build_system_prompt("prod", "default", "pods", "", "text_only");
    assert!(p.contains("- Context: `prod`"));
    assert!(p.contains("- Namespace: `default`"));
    assert!(p.contains("- Viewing: `pods`"));
    assert!(p.contains("text-only mode"));
    assert!(!p.contains("## Resource Data"));
}

#[test]
fn prompt_includes_resource_data_when_present() {
    let p = build_system_prompt("prod", "default", "pods", "NAME READY", "allow_bash");
    assert!(p.contains("## Resource Data (pre-loaded from K0)\n```\nNAME READY\n```"));
    assert!(p.contains("`--context prod` and `-n default`"));
    assert!(!p.contains("text-only mode"));
}

#[test]
fn prompt_bypass_all_also_grants_tools() {
    let p = build_system_prompt("c", "n", "v", "", "bypass_all");
    assert!(p.contains("You have access to kubectl and helm"));
}
