use llmcache::commands::{request_id, request_key, CommandArg};
use llmcache::fetch::{
    approx_start, exact_start, generation_mode, nearest_candidate, ApproxAction, ApproxError,
    ApproxEvent, ApproxState, ExactAction, ExactEvent, ExactState, GenerationMode,
};
use llmcache::resp::RespValue;
use llmcache::search::{DecodeError, SearchDocument, ValkeySearchResult};
use std::collections::HashMap;

#[test]
fn tools_select_function_calling() {
    assert_eq!(generation_mode(Some(2)), GenerationMode::WithFunctions);
    assert_eq!(generation_mode(Some(0)), GenerationMode::Content);
    assert_eq!(generation_mode(None), GenerationMode::Content);
}

/// Runs one exact fetch against `store`, with `generated` as the model's answer.
fn run_exact(store: &mut HashMap<String, String>, key: &str, generated: &str) -> (String, bool) {
    let (mut state, mut action) = exact_start(key.to_string());
    let mut called_model = false;
    loop {
        let event = match action {
            ExactAction::Get { key } => ExactEvent::Found(store.get(&key).cloned()),
            ExactAction::CallModel => {
                called_model = true;
                ExactEvent::Generated(generated.to_string())
            }
            ExactAction::Put { key, value } => {
                store.insert(key, value);
                ExactEvent::Saved
            }
            ExactAction::Respond { response } => return (response, called_model),
        };
        let (s, a) = state.next(event).unwrap();
        state = s;
        action = a;
    }
}

#[test]
fn exact_fetch_twice_gives_same_answer() {
    let mut store = HashMap::new();
    let (first, called_first) = run_exact(&mut store, "{\"req\":1}", "{\"resp\":\"a\"}");
    let (second, called_second) = run_exact(&mut store, "{\"req\":1}", "{\"resp\":\"b\"}");
    assert_eq!(first, "{\"resp\":\"a\"}");
    assert_eq!(second, first);
    assert!(called_first);
    assert!(!called_second);
    assert_eq!(store.len(), 1);
}

#[test]
fn exact_fetch_rejects_out_of_order_events() {
    let (state, _) = exact_start("k".to_string());
    assert!(state.next(ExactEvent::Saved).is_none());
    assert!(ExactState::Finished { response: "x".to_string() }
        .next(ExactEvent::Found(None))
        .is_none());
}

fn doc(response: Option<&str>, embedding: Option<Vec<u32>>) -> SearchDocument {
    SearchDocument {
        id: "request:x".to_string(),
        request: Some("{}".to_string()),
        response: response.map(|s| s.to_string()),
        embedding,
    }
}

#[test]
fn nearest_candidate_cases() {
    let empty = ValkeySearchResult { total_results: 0, documents: vec![] };
    assert!(matches!(nearest_candidate(&empty), Ok(None)));
    let no_response = ValkeySearchResult { total_results: 1, documents: vec![doc(None, Some(vec![1]))] };
    assert!(matches!(nearest_candidate(&no_response), Err(ApproxError::MissingResponse)));
    let no_embedding = ValkeySearchResult { total_results: 1, documents: vec![doc(Some("{}"), None)] };
    assert!(matches!(nearest_candidate(&no_embedding), Ok(None)));
    let full = ValkeySearchResult {
        total_results: 1,
        documents: vec![doc(Some("{\"r\":1}"), Some(vec![7, 8]))],
    };
    let c = nearest_candidate(&full).unwrap().unwrap();
    assert_eq!(c.response, "{\"r\":1}");
    assert_eq!(c.embedding, vec![7, 8]);
}

/// The reply a search gives back when it finds what `writes` stored.
fn echo_reply(writes: &[llmcache::commands::Command]) -> RespValue {
    let bytes = |a: &CommandArg| match a {
        CommandArg::Text(s) => s.as_bytes().to_vec(),
        CommandArg::Bytes(b) => b.clone(),
    };
    let mut fields = vec![];
    for w in writes {
        fields.push(Ok(RespValue::BulkString(bytes(&w.args[1]))));
        fields.push(Ok(RespValue::BulkString(bytes(&w.args[2]))));
    }
    RespValue::Array(vec![
        Ok(RespValue::Int(1)),
        Ok(RespValue::Array(vec![
            Ok(RespValue::BulkString(bytes(&writes[0].args[0]))),
            Ok(RespValue::Array(fields)),
        ])),
    ])
}

#[test]
fn approximate_fetch_stores_then_finds() {
    let prompt = "Approx cache test!";
    let key = request_key(&request_id(prompt));
    let embedding = vec![1.0f32.to_bits(), 0.5f32.to_bits()];

    // First fetch: the index is empty, so the model is called and the answer stored.
    let (state, action) = approx_start(key.clone(), embedding.clone());
    assert!(matches!(action, ApproxAction::Search(_)));
    let empty = ValkeySearchResult { total_results: 0, documents: vec![] };
    let (state, action) = state.next(ApproxEvent::Searched(Ok(empty))).unwrap();
    assert_eq!(action, ApproxAction::CallModel);
    let (state, action) = state
        .next(ApproxEvent::Generated {
            request_json: "{\"q\":1}".to_string(),
            response_json: "{\"candidates\":[]}".to_string(),
        })
        .unwrap();
    let writes = match action {
        ApproxAction::Write(w) => w,
        other => panic!("unexpected action {:?}", other),
    };
    assert_eq!(writes.len(), 3);
    let (_, action) = state.next(ApproxEvent::Saved).unwrap();
    assert_eq!(action, ApproxAction::Respond { response: "{\"candidates\":[]}".to_string() });

    // Second fetch: the search finds what was stored.
    let reply = ValkeySearchResult::from_value(&echo_reply(&writes)).unwrap();
    let (state, _) = approx_start(key.clone(), embedding.clone());
    let (state, action) = state.next(ApproxEvent::Searched(Ok(reply))).unwrap();
    assert_eq!(action, ApproxAction::MeasureDistance { stored: embedding.clone() });
    let (_, action) = state.next(ApproxEvent::Measured(true)).unwrap();
    assert_eq!(action, ApproxAction::Respond { response: "{\"candidates\":[]}".to_string() });
}

/// The reply a RESP3 search gives back, as a map, when it finds what
/// `writes` stored.
fn echo_reply_map(writes: &[llmcache::commands::Command]) -> RespValue {
    let bytes = |a: &CommandArg| match a {
        CommandArg::Text(s) => s.as_bytes().to_vec(),
        CommandArg::Bytes(b) => b.clone(),
    };
    let fields = writes
        .iter()
        .map(|w| (RespValue::BulkString(bytes(&w.args[1])), RespValue::BulkString(bytes(&w.args[2]))))
        .collect();
    RespValue::Array(vec![
        Ok(RespValue::Int(1)),
        Ok(RespValue::Dict(vec![(
            RespValue::BulkString(bytes(&writes[0].args[0])),
            RespValue::Dict(fields),
        )])),
    ])
}

#[test]
fn stored_hash_found_in_map_form() {
    let key = request_key(&request_id("a small blue bird sings at sunrise"));
    let writes = llmcache::commands::store_commands(&key, &[3, 4], "{\"q\":1}", "{\"r\":2}");
    let reply = ValkeySearchResult::from_value(&echo_reply_map(&writes)).unwrap();
    assert_eq!(reply.documents.len(), 1);
    assert_eq!(reply.documents[0].id, key);
    assert_eq!(reply.documents[0].request.as_deref(), Some("{\"q\":1}"));
    assert_eq!(reply.documents[0].response.as_deref(), Some("{\"r\":2}"));
    assert_eq!(reply.documents[0].embedding, Some(vec![3, 4]));
    let c = nearest_candidate(&reply).unwrap().unwrap();
    assert_eq!(c.response, "{\"r\":2}");
}

#[test]
fn approximate_fetch_too_far_calls_model() {
    let (state, _) = approx_start("request:k".to_string(), vec![1]);
    let found = ValkeySearchResult { total_results: 1, documents: vec![doc(Some("{}"), Some(vec![2]))] };
    let (state, _) = state.next(ApproxEvent::Searched(Ok(found))).unwrap();
    let (state, action) = state.next(ApproxEvent::Measured(false)).unwrap();
    assert_eq!(action, ApproxAction::CallModel);
    assert!(matches!(state, ApproxState::Generate { .. }));
}

#[test]
fn approximate_fetch_fails_on_bad_reply() {
    let (state, _) = approx_start("request:k".to_string(), vec![1]);
    let (state, action) = state
        .next(ApproxEvent::Searched(Err(DecodeError::NotAnArray)))
        .unwrap();
    assert_eq!(action, ApproxAction::Fail(ApproxError::Decode(DecodeError::NotAnArray)));
    assert_eq!(state, ApproxState::Failed);
    let (state, _) = approx_start("request:k".to_string(), vec![1]);
    let found = ValkeySearchResult { total_results: 1, documents: vec![doc(None, Some(vec![2]))] };
    let (_, action) = state.next(ApproxEvent::Searched(Ok(found))).unwrap();
    assert_eq!(action, ApproxAction::Fail(ApproxError::MissingResponse));
}
