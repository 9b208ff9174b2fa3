use vstd::prelude::*;

verus! {

/// The failure taxonomy of the agent library.
///
/// `ValidationIssues` of the quality gate are data, not errors, so they do
/// not appear here: a blob that parses but fails its thresholds still yields
/// an `Ok` validation result.
#[derive(Clone, Copy, Debug, PartialEq, Eq, Structural)]
pub enum AgentError {
    /// No repository address has been configured.
    NotConfigured,
    /// A model or chunk identifier is malformed.
    InvalidReference,
    /// A manifest or chunk is absent upstream.
    NotFound,
    /// A manifest exists but its state is Pending or Deprecated.
    NotActive,
    /// The operation requires a bound model but none exists.
    NoBinding,
    /// A quality-gate blob does not decode.
    ParseFailure,
}

impl AgentError {
    /// A human-readable description, in place of `Display`.
    pub fn message(&self) -> (r: &'static str)
        ensures
            self is NotConfigured ==> r@ == "model repository not configured"@,
            self is InvalidReference ==> r@ == "invalid reference"@,
            self is NotFound ==> r@ == "not found"@,
            self is NotActive ==> r@ == "model is not Active"@,
            self is NoBinding ==> r@ == "no model bound"@,
            self is ParseFailure ==> r@ == "failed to parse quantized model"@,
    {
        match self {
            AgentError::NotConfigured => "model repository not configured",
            AgentError::InvalidReference => "invalid reference",
            AgentError::NotFound => "not found",
            AgentError::NotActive => "model is not Active",
            AgentError::NoBinding => "no model bound",
            AgentError::ParseFailure => "failed to parse quantized model",
        }
    }
}

} // verus!
