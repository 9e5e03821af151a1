use k0_core::errors::DomainError;

#[test]
fn test_domain_error_display() {
    assert_eq!(
        DomainError::NotFound("pod xyz".to_string()).message(),
        "Not found: pod xyz"
    );
    assert_eq!(DomainError::NoActiveContext.message(), "No active context");
    assert_eq!(
        DomainError::NoActiveNamespace.message(),
        "No active namespace"
    );
}

#[test]
fn test_domain_error_to_string() {
    let err = DomainError::KubernetesApi("timeout".to_string());
    let s: String = err.into();
    assert_eq!(s, "Kubernetes API error: timeout");
}

#[test]
fn domain_error_other_variants() {
    assert_eq!(
        DomainError::Configuration("bad".to_string()).message(),
        "Configuration error: bad"
    );
    assert_eq!(
        DomainError::Serialization("oops".to_string()).message(),
        "Serialization error: oops"
    );
}
