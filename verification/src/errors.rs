use vstd::prelude::*;
use vstd::string::StringExecFns;

verus! {

/// Errors surfaced by the library's operations.
///
/// Transport and API failures are carried as `KubernetesApi`; the remaining
/// variants classify configuration and serialization problems and the two
/// "nothing selected" states.
#[derive(Debug, Clone)]
pub enum DomainError {
    NotFound(String),
    KubernetesApi(String),
    Configuration(String),
    Serialization(String),
    NoActiveContext,
    NoActiveNamespace,
}

impl DomainError {
    /// The operator-facing message of an error, as a sequence of characters.
    pub open spec fn message_view(&self) -> Seq<char> {
        match self {
            DomainError::NotFound(m) => "Not found: "@ + m@,
            DomainError::KubernetesApi(m) => "Kubernetes API error: "@ + m@,
            DomainError::Configuration(m) => "Configuration error: "@ + m@,
            DomainError::Serialization(m) => "Serialization error: "@ + m@,
            DomainError::NoActiveContext => "No active context"@,
            DomainError::NoActiveNamespace => "No active namespace"@,
        }
    }

    /// Render the operator-facing message for this error.
    pub fn message(&self) -> (r: String)
        ensures
            r@ == self.message_view(),
    {
        match self {
            DomainError::NotFound(m) => {
                let mut s = "Not found: ".to_owned();
                s.append(m.as_str());
                s
            },
            DomainError::KubernetesApi(m) => {
                let mut s = "Kubernetes API error: ".to_owned();
                s.append(m.as_str());
                s
            },
            DomainError::Configuration(m) => {
                let mut s = "Configuration error: ".to_owned();
                s.append(m.as_str());
                s
            },
            DomainError::Serialization(m) => {
                let mut s = "Serialization error: ".to_owned();
                s.append(m.as_str());
                s
            },
            DomainError::NoActiveContext => "No active context".to_owned(),
            DomainError::NoActiveNamespace => "No active namespace".to_owned(),
        }
    }
}

impl From<DomainError> for String {
    /// Callers that only want a displayable error keep the message text.
    fn from(e: DomainError) -> (r: String)
        ensures
            r@ == e.message_view(),
    {
        e.message()
    }
}

/// What the conversion returns is stated on `from` itself; no blanket
/// conversion spec is claimed here.
impl vstd::std_specs::convert::FromSpecImpl<DomainError> for String {
    open spec fn obeys_from_spec() -> bool {
        false
    }

    open spec fn from_spec(e: DomainError) -> Self {
        vstd::pervasive::arbitrary()
    }
}

} // verus!
