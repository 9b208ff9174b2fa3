//! Request guards: caller authentication, prompt length, and message-id
//! validation. The host resolves who the caller is; the guards decide.

use vstd::prelude::*;

use crate::text::char_is_alphanumeric;
use crate::text::chars_vec;
use vstd::string::StringSliceAdditionalSpecFns;

verus! {

/// Why a guard refused a request.
#[derive(Clone, Copy, Debug, PartialEq, Eq, Structural)]
pub enum GuardError {
    AuthenticationRequired,
    PromptTooLong,
    InvalidMsgId,
}

impl GuardError {
    /// A human-readable description, in place of `Display`.
    pub fn message(&self) -> (r: &'static str)
        ensures
            self is AuthenticationRequired ==> r@ == "Authentication required"@,
            self is PromptTooLong ==> r@ == "Prompt too long"@,
            self is InvalidMsgId ==> r@ == "Invalid msg_id format"@,
    {
        match self {
            GuardError::AuthenticationRequired => "Authentication required",
            GuardError::PromptTooLong => "Prompt too long",
            GuardError::InvalidMsgId => "Invalid msg_id format",
        }
    }
}

/// The longest prompt accepted, in bytes.
pub const MAX_PROMPT_LENGTH: usize = 10000;

/// Whether a character may appear in a message id: alphanumeric, an
/// underscore, or a dash.
pub open spec fn msg_id_char(c: char) -> bool {
    char_is_alphanumeric(c) || c == '_' || c == '-'
}

/// Whether a message id is acceptable: non-empty, at most 64 bytes, and
/// made of message-id characters only.
pub open spec fn valid_msg_id(s: &str) -> bool {
    &&& s@.len() > 0
    &&& s.spec_bytes().len() <= 64
    &&& forall|i: int| 0 <= i < s@.len() ==> msg_id_char(#[trigger] s@[i])
}

/// The request guards.
pub struct Guards;

impl Guards {
    /// Refuses anonymous callers.
    pub fn require_caller_authenticated(caller_is_anonymous: bool) -> (r: Result<(), GuardError>)
        ensures
            r is Ok <==> !caller_is_anonymous,
            r is Err ==> r->Err_0 == GuardError::AuthenticationRequired,
    {
        if caller_is_anonymous {
            Err(GuardError::AuthenticationRequired)
        } else {
            Ok(())
        }
    }

    /// Refuses anonymous callers; administrative rights carry no further
    /// check at this layer.
    pub fn require_admin(caller_is_anonymous: bool) -> (r: Result<(), GuardError>)
        ensures
            r is Ok <==> !caller_is_anonymous,
            r is Err ==> r->Err_0 == GuardError::AuthenticationRequired,
    {
        Self::require_caller_authenticated(caller_is_anonymous)
    }

    /// Accepts a prompt exactly when it is at most `MAX_PROMPT_LENGTH`
    /// bytes.
    pub fn validate_prompt_length(prompt: &str) -> (r: Result<(), GuardError>)
        ensures
            r is Ok <==> prompt.spec_bytes().len() <= MAX_PROMPT_LENGTH,
            r is Err ==> r->Err_0 == GuardError::PromptTooLong,
    {
        let blen = prompt.as_bytes().len();
        if blen > MAX_PROMPT_LENGTH {
            Err(GuardError::PromptTooLong)
        } else {
            Ok(())
        }
    }

    /// Accepts a message id exactly when it is non-empty, at most 64 bytes,
    /// and made of alphanumeric characters, underscores and dashes.
    pub fn validate_msg_id(msg_id: &str) -> (r: Result<(), GuardError>)
        ensures
            r is Ok <==> valid_msg_id(msg_id),
            r is Err ==> r->Err_0 == GuardError::InvalidMsgId,
    {
        let mlen = msg_id.as_bytes().len();
        if msg_id.is_empty() || mlen > 64 {
            proof {
                if msg_id@.len() == 0 {
                } else {
                    assert(msg_id.spec_bytes().len() > 64);
                }
            }
            return Err(GuardError::InvalidMsgId);
        }
        let chars = chars_vec(msg_id);
        let n = chars.len();
        for i in 0..n
            invariant
                n == msg_id@.len(),
                chars@ == msg_id@,
                forall|j: int| 0 <= j < i ==> msg_id_char(#[trigger] msg_id@[j]),
        {
            let c = chars[i];
            if !(c.is_alphanumeric() || c == '_' || c == '-') {
                return Err(GuardError::InvalidMsgId);
            }
        }
        Ok(())
    }

    /// Memory limits hold no check at this layer: every request is within
    /// bounds.
    pub fn check_memory_limits() -> (r: Result<(), GuardError>)
        ensures
            r is Ok,
    {
        Ok(())
    }
}

} // verus!
