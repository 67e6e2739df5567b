//! The state merge engine: how one assistant reply is folded into an
//! [`ApplicationState`].
//!
//! A turn appends the reply to the conversation, parses the reply's content as
//! JSON, overwrites the `document` field of the parsed value with the state's
//! canonical document text (the model is not trusted to echo it back), and
//! strictly decodes the result into a fresh [`DocumentData`]. Parsing or
//! decoding can fail; in that case the error is returned and the input state
//! is discarded whole — a failed merge leaves no partially updated state
//! behind, and the caller keeps resubmitting the state it already holds.
//!
//! The functions here are pure: no I/O, no session memory. The caller runs the
//! model gateway and hands the reply in; on gateway failure nothing here is
//! called, so the merge never runs on a half-failed turn.
use vstd::prelude::*;
use vstd::string::StringExecFns;

use crate::codec::dec_doc;
use crate::errors::MergeError;
use crate::json::{inject_document, parse_json, parsed_json, spec_inject, JsonValue};
use crate::model::{ApplicationState, ChatMessage, DocumentData, Role};

verus! {

/// The fixed instruction the model is given ahead of the document text.
pub const INSTRUCTION_PROMPT: &'static str = "You are given a legal case document. Extract its metadata and answer with one JSON object, nothing else. The object has these fields: doctype, act_date, fact_date (strings); summary (object with string fields en, fr, nl, de); persons (array of objects with string fields firstname, lastname, role, function); locations (array of objects with string fields name, loctype); document (string, leave it empty).";

/// The first user message: the fixed instruction, then a labeled section with
/// the verbatim document text.
pub open spec fn initial_prompt(document: Seq<char>) -> Seq<char> {
    INSTRUCTION_PROMPT@ + "\n# Document\n"@ + document
}

/// Builds the one-message conversation that opens a session over a document.
/// Pure, and total: any document text works, the empty one included.
pub fn build_initial_conversation(document: &str) -> (r: Vec<ChatMessage>)
    ensures
        r.deep_view().len() == 1,
        r.deep_view()[0].role == Role::User,
        r.deep_view()[0].content == initial_prompt(document@),
{
    let mut prompt = INSTRUCTION_PROMPT.to_owned();
    prompt.append("\n# Document\n");
    prompt.append(document);
    let mut conv: Vec<ChatMessage> = Vec::new();
    conv.push(ChatMessage { role: Role::User, content: prompt });
    proof {
        assert(conv.deep_view()[0] == conv@[0].deep_view());
    }
    conv
}

/// Folds one parsed reply into an extraction: overwrites the parsed value's
/// `document` field with the canonical text, then strictly decodes. Succeeds
/// exactly when the overwritten value is of the schema's shape, and the
/// result then carries the canonical document text, whatever the reply held.
pub fn merge_document(reply_json: JsonValue, document: &String) -> (r: Result<
    DocumentData,
    MergeError,
>)
    ensures
        match r {
            Ok(d) => {
                &&& dec_doc(spec_inject(reply_json.deep_view(), document@)) == Some(d.deep_view())
                &&& d.document@ == document@
            },
            Err(e) => {
                &&& e is SchemaMismatch
                &&& dec_doc(spec_inject(reply_json.deep_view(), document@)) is None
            },
        },
{
    let ghost jdv = reply_json.deep_view();
    let injected = inject_document(reply_json, document);
    match DocumentData::decode(&injected) {
        Ok(d) => {
            proof {
                if jdv is Obj {
                    let fields = spec_inject(jdv, document@)->Obj_0;
                    assert(fields[0] == ("document"@, crate::json::JVal::Str(document@)));
                    assert(crate::json::lookup(fields, "document"@) == Some(
                        crate::json::JVal::Str(document@),
                    ));
                }
            }
            Ok(d)
        },
        Err(e) => Err(e),
    }
}

/// Folds one assistant reply into the application state.
///
/// The reply is appended to the conversation, then its content is parsed and
/// merged (see [`merge_document`]). On success the returned state holds the
/// appended conversation — one turn longer, the old turns untouched — and a
/// document whose text is still the canonical one. On failure the error says
/// which step refused: `MalformedModelOutput` exactly when the content is not
/// valid JSON, `SchemaMismatch` exactly when it is valid JSON but the merged
/// value is not of the schema's shape. A failed merge returns no state: the
/// caller keeps the state it submitted, so nothing half-updated survives.
pub fn merge_turn(state: ApplicationState, reply: ChatMessage) -> (r: Result<
    ApplicationState,
    MergeError,
>)
    ensures
        match r {
            Ok(s2) => {
                &&& parsed_json(reply.content@) matches Some(jv) && dec_doc(
                    spec_inject(jv, state.document_data.document@),
                ) == Some(s2.document_data.deep_view())
                &&& s2.document_data.document@ == state.document_data.document@
                &&& s2.conversation.deep_view() == state.conversation.deep_view().push(
                    reply.deep_view(),
                )
            },
            Err(e) => {
                &&& (e is MalformedModelOutput <==> parsed_json(reply.content@) is None)
                &&& (e is SchemaMismatch <==> (parsed_json(reply.content@) matches Some(jv)
                    && dec_doc(spec_inject(jv, state.document_data.document@)) is None))
                &&& !(e is GatewayError)
            },
        },
{
    let mut state = state;
    let content = reply.content.clone();
    let ghost conv0 = state.conversation.deep_view();
    let ghost rv = reply.deep_view();
    state.conversation.push(reply);
    proof {
        assert(state.conversation.deep_view() =~~= conv0.push(rv));
    }
    match parse_json(content.as_str()) {
        None => Err(MergeError::MalformedModelOutput),
        Some(jv) => match merge_document(jv, &state.document_data.document) {
            Ok(d) => {
                state.document_data = d;
                Ok(state)
            },
            Err(e) => Err(e),
        },
    }
}

/// Runs the merge for the very first turn: the state is nothing but the raw
/// document text and the opening prompt, and the given reply is the model's
/// answer to that prompt. On success the conversation holds exactly two turns
/// — the built user message, then the reply — and the document text is the
/// one given, whatever the model echoed.
pub fn initial_interaction(document: String, reply: ChatMessage) -> (r: Result<
    ApplicationState,
    MergeError,
>)
    ensures
        match r {
            Ok(s) => {
                &&& s.conversation.deep_view().len() == 2
                &&& s.conversation.deep_view()[0].role == Role::User
                &&& s.conversation.deep_view()[0].content == initial_prompt(document@)
                &&& s.conversation.deep_view()[1] == reply.deep_view()
                &&& s.document_data.document@ == document@
                &&& parsed_json(reply.content@) matches Some(jv) && dec_doc(
                    spec_inject(jv, document@),
                ) == Some(s.document_data.deep_view())
            },
            Err(e) => {
                &&& (e is MalformedModelOutput <==> parsed_json(reply.content@) is None)
                &&& (e is SchemaMismatch <==> (parsed_json(reply.content@) matches Some(jv)
                    && dec_doc(spec_inject(jv, document@)) is None))
                &&& !(e is GatewayError)
            },
        },
{
    let conv = build_initial_conversation(document.as_str());
    let state = ApplicationState {
        document_data: DocumentData::of_document(document),
        conversation: conv,
    };
    merge_turn(state, reply)
}

} // verus!
