//! Behavioral tests for the merge engine and the JSON codec.
use docstate::errors::MergeError;
use docstate::json::{inject_document, parse_json, JsonValue};
use docstate::merge::{build_initial_conversation, initial_interaction, merge_document, merge_turn};
use docstate::model::{
    ApplicationState, ChatMessage, DocumentData, Location, Metadata, MultiLingual, Person, Role,
};

/// A syntactically valid reply with every schema field, echoing a forged
/// document text that the merge must overwrite.
const GOOD_REPLY: &str = "{\"doctype\":\"judgment\",\"act_date\":\"2020-01-01\",\"fact_date\":\"2019-12-31\",\"summary\":{\"en\":\"a\",\"fr\":\"b\",\"nl\":\"c\",\"de\":\"d\"},\"persons\":[{\"firstname\":\"Ada\",\"lastname\":\"Lovelace\",\"role\":\"witness\",\"function\":\"engineer\"}],\"locations\":[{\"name\":\"Brussels\",\"loctype\":\"city\"}],\"document\":\"forged text\"}";

fn assistant(content: &str) -> ChatMessage {
    ChatMessage {
        role: Role::Assistant,
        content: content.to_string(),
    }
}

fn state_with_document(document: &str) -> ApplicationState {
    ApplicationState {
        document_data: DocumentData::of_document(document.to_string()),
        conversation: build_initial_conversation(document),
    }
}

#[test]
fn malformed_reply_is_rejected() {
    let state = state_with_document("Case #1");
    let result = merge_turn(state, assistant("not json"));
    assert_eq!(result, Err(MergeError::MalformedModelOutput));
}

#[test]
fn wrong_shape_is_rejected() {
    let state = state_with_document("Case #1");
    let result = merge_turn(state, assistant("{\"persons\": \"nope\"}"));
    assert_eq!(result, Err(MergeError::SchemaMismatch));
}

#[test]
fn valid_json_wrong_toplevel_type_is_schema_mismatch() {
    let state = state_with_document("Case #1");
    let result = merge_turn(state, assistant("[1, 2, 3]"));
    assert_eq!(result, Err(MergeError::SchemaMismatch));
}

#[test]
fn merge_keeps_canonical_document_text() {
    let state = state_with_document("Case #1");
    let merged = merge_turn(state, assistant(GOOD_REPLY)).unwrap();
    assert_eq!(merged.document_data.document, "Case #1");
    assert_eq!(merged.document_data.metadata.doctype, "judgment");
    assert_eq!(merged.document_data.persons.len(), 1);
    assert_eq!(merged.document_data.persons[0].firstname, "Ada");
    assert_eq!(merged.document_data.locations.len(), 1);
    assert_eq!(merged.document_data.locations[0].name, "Brussels");
}

#[test]
fn merge_appends_exactly_one_turn() {
    let state = state_with_document("Case #1");
    let before = state.conversation.len();
    let reply = assistant(GOOD_REPLY);
    let merged = merge_turn(state, reply.clone()).unwrap();
    assert_eq!(merged.conversation.len(), before + 1);
    assert_eq!(merged.conversation.last().unwrap(), &reply);
}

#[test]
fn merging_twice_appends_two_turns() {
    let state = state_with_document("Case #1");
    let before = state.conversation.len();
    let reply = assistant(GOOD_REPLY);
    let once = merge_turn(state, reply.clone()).unwrap();
    let twice = merge_turn(once, reply.clone()).unwrap();
    assert_eq!(twice.conversation.len(), before + 2);
    assert_eq!(twice.conversation[before], reply);
    assert_eq!(twice.conversation[before + 1], reply);
}

#[test]
fn initial_interaction_two_messages() {
    let result = initial_interaction("Case #1".to_string(), assistant(GOOD_REPLY)).unwrap();
    assert_eq!(result.conversation.len(), 2);
    assert_eq!(result.conversation[0].role, Role::User);
    assert_eq!(result.conversation[1].role, Role::Assistant);
    assert_eq!(result.document_data.document, "Case #1");
}

#[test]
fn initial_interaction_rejects_malformed_reply() {
    let result = initial_interaction("Case #1".to_string(), assistant("not json"));
    assert_eq!(result, Err(MergeError::MalformedModelOutput));
}

#[test]
fn initial_prompt_carries_the_document() {
    let conv = build_initial_conversation("Case #1");
    assert_eq!(conv.len(), 1);
    assert_eq!(conv[0].role, Role::User);
    assert!(conv[0].content.ends_with("\n# Document\nCase #1"));
}

#[test]
fn empty_document_is_accepted() {
    let result = initial_interaction(String::new(), assistant(GOOD_REPLY)).unwrap();
    assert_eq!(result.document_data.document, "");
}

#[test]
fn merge_document_overwrites_echoed_field() {
    let parsed = parse_json(GOOD_REPLY).unwrap();
    let canonical = "the real text".to_string();
    let merged = merge_document(parsed, &canonical).unwrap();
    assert_eq!(merged.document, "the real text");
}

#[test]
fn inject_document_prepends_the_canonical_entry() {
    let j = JsonValue::Obj(vec![(
        "document".to_string(),
        JsonValue::Str("forged".to_string()),
    )]);
    let injected = inject_document(j, &"real".to_string());
    match injected {
        JsonValue::Obj(fields) => {
            assert_eq!(fields[0].0, "document");
            assert_eq!(fields[0].1, JsonValue::Str("real".to_string()));
        }
        other => panic!("expected an object, got {:?}", other),
    }
}

#[test]
fn gateway_error_is_its_own_variant() {
    assert_ne!(MergeError::GatewayError, MergeError::MalformedModelOutput);
    assert_eq!(
        MergeError::GatewayError.describe(),
        "error talking to the model gateway"
    );
    assert_eq!(
        MergeError::MalformedModelOutput.describe(),
        "model output is not valid JSON"
    );
    assert_eq!(
        MergeError::SchemaMismatch.describe(),
        "model output does not match the document schema"
    );
}

fn sample_state() -> ApplicationState {
    ApplicationState {
        document_data: DocumentData {
            document: "Case #1".to_string(),
            metadata: Metadata {
                doctype: "judgment".to_string(),
                act_date: "2020-01-01".to_string(),
                fact_date: "2019-12-31".to_string(),
                summary: MultiLingual {
                    en: "a".to_string(),
                    fr: "b".to_string(),
                    nl: "c".to_string(),
                    de: "d".to_string(),
                },
            },
            persons: vec![Person {
                firstname: "Ada".to_string(),
                lastname: "Lovelace".to_string(),
                role: "witness".to_string(),
                function: "engineer".to_string(),
            }],
            locations: vec![Location {
                name: "Brussels".to_string(),
                loctype: "city".to_string(),
            }],
        },
        conversation: vec![
            ChatMessage {
                role: Role::User,
                content: "hello".to_string(),
            },
            ChatMessage {
                role: Role::Assistant,
                content: GOOD_REPLY.to_string(),
            },
        ],
    }
}

#[test]
fn state_round_trips_through_json_text() {
    let state = sample_state();
    let text = state.to_json();
    let back = ApplicationState::from_json(&text).unwrap();
    assert_eq!(back, state);
}

#[test]
fn empty_state_round_trips_through_json_text() {
    let state = ApplicationState::empty();
    let back = ApplicationState::from_json(&state.to_json()).unwrap();
    assert_eq!(back, state);
}

#[test]
fn to_json_is_real_json_with_the_fields() {
    let text = sample_state().to_json();
    assert!(text.contains("\"document_data\""));
    assert!(text.contains("\"conversation\""));
    assert!(text.contains("\"Case #1\""));
    assert!(parse_json(&text).is_some());
}

#[test]
fn from_json_rejects_malformed_text() {
    assert_eq!(
        ApplicationState::from_json("{{"),
        Err(MergeError::MalformedModelOutput)
    );
}

#[test]
fn from_json_rejects_wrong_shape() {
    assert_eq!(
        ApplicationState::from_json("{\"document_data\": 3}"),
        Err(MergeError::SchemaMismatch)
    );
}

#[test]
fn decode_reads_the_first_occurrence_of_a_key() {
    let mut fields = Vec::new();
    for (k, v) in [
        ("document", "first"),
        ("document", "second"),
        ("doctype", ""),
        ("act_date", ""),
        ("fact_date", ""),
    ] {
        fields.push((k.to_string(), JsonValue::Str(v.to_string())));
    }
    fields.push((
        "summary".to_string(),
        JsonValue::Obj(vec![
            ("en".to_string(), JsonValue::Str(String::new())),
            ("fr".to_string(), JsonValue::Str(String::new())),
            ("nl".to_string(), JsonValue::Str(String::new())),
            ("de".to_string(), JsonValue::Str(String::new())),
        ]),
    ));
    fields.push(("persons".to_string(), JsonValue::Arr(Vec::new())));
    fields.push(("locations".to_string(), JsonValue::Arr(Vec::new())));
    let decoded = DocumentData::decode(&JsonValue::Obj(fields)).unwrap();
    assert_eq!(decoded.document, "first");
}

#[test]
fn missing_summary_language_is_schema_mismatch() {
    let reply = "{\"doctype\":\"\",\"act_date\":\"\",\"fact_date\":\"\",\"summary\":{\"en\":\"a\",\"fr\":\"b\",\"nl\":\"c\"},\"persons\":[],\"locations\":[]}";
    let state = state_with_document("x");
    assert_eq!(
        merge_turn(state, assistant(reply)),
        Err(MergeError::SchemaMismatch)
    );
}

#[test]
fn number_in_string_field_is_schema_mismatch() {
    let reply = "{\"doctype\":7,\"act_date\":\"\",\"fact_date\":\"\",\"summary\":{\"en\":\"a\",\"fr\":\"b\",\"nl\":\"c\",\"de\":\"d\"},\"persons\":[],\"locations\":[]}";
    let state = state_with_document("x");
    assert_eq!(
        merge_turn(state, assistant(reply)),
        Err(MergeError::SchemaMismatch)
    );
}

#[test]
fn parse_json_keeps_structure() {
    let parsed = parse_json("{\"a\": [null, true, 7, \"x\"]}").unwrap();
    match parsed {
        JsonValue::Obj(fields) => {
            assert_eq!(fields.len(), 1);
            assert_eq!(fields[0].0, "a");
            match &fields[0].1 {
                JsonValue::Arr(items) => {
                    assert_eq!(items.len(), 4);
                    assert_eq!(items[0], JsonValue::Null);
                    assert_eq!(items[1], JsonValue::Bool(true));
                    assert_eq!(items[2], JsonValue::Num("7".to_string()));
                    assert_eq!(items[3], JsonValue::Str("x".to_string()));
                }
                other => panic!("expected an array, got {:?}", other),
            }
        }
        other => panic!("expected an object, got {:?}", other),
    }
}

#[test]
fn parse_json_rejects_invalid_text() {
    assert!(parse_json("").is_none());
    assert!(parse_json("{\"a\":").is_none());
    assert!(parse_json("not json").is_none());
}
