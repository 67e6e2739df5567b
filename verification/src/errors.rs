//! The merge engine's error taxonomy. Every failure is surfaced as one of
//! these; nothing is swallowed or replaced by a default value.
use vstd::prelude::*;

verus! {

/// Why a turn could not be folded into the application state.
#[derive(Debug, Clone, Copy, PartialEq, Eq, Structural)]
pub enum MergeError {
    /// The transport to the model failed (produced by the caller that runs the
    /// gateway; the merge engine itself never fails this way).
    GatewayError,
    /// The model's reply is not syntactically valid JSON.
    MalformedModelOutput,
    /// The reply is valid JSON but not of the document schema's shape.
    SchemaMismatch,
}

impl MergeError {
    /// A fixed description, one per variant.
    pub fn describe(&self) -> (r: &'static str)
        ensures
            *self is GatewayError ==> r@ == "error talking to the model gateway"@,
            *self is MalformedModelOutput ==> r@ == "model output is not valid JSON"@,
            *self is SchemaMismatch ==> r@ == "model output does not match the document schema"@,
    {
        match self {
            MergeError::GatewayError => "error talking to the model gateway",
            MergeError::MalformedModelOutput => "model output is not valid JSON",
            MergeError::SchemaMismatch => "model output does not match the document schema",
        }
    }
}

} // verus!
