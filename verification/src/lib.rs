//! Document/conversation state merge for an LLM-assisted document extraction
//! service.
//!
//! A client holds an [`model::ApplicationState`]: the canonical document text
//! with its extracted fields, plus the full conversation so far. Each turn, the
//! assistant's free-text reply is parsed as JSON, the canonical document text
//! is re-injected over whatever the model echoed, and the result is decoded
//! strictly into [`model::DocumentData`]. The merge itself, the JSON schema
//! codec, and their invariants are verified; only the generic JSON text
//! parser and printer are delegated to `serde_json` behind trusted wrappers.

pub mod codec;
pub mod errors;
pub mod json;
pub mod merge;
pub mod model;
