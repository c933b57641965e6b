use llmcache::resp::{RespValue, ServerError};
use llmcache::search::{
    parse_embedding_value, parse_field_name, parse_text_value, DecodeError, SearchDocument,
    SearchDocumentFields, StoredField, ValkeySearchResult,
};

fn simple(s: &str) -> RespValue {
    RespValue::SimpleString(s.to_string())
}

fn bulk(b: &[u8]) -> RespValue {
    RespValue::BulkString(b.to_vec())
}

fn server_error() -> ServerError {
    ServerError { detail: "ERR boom".to_string() }
}

fn floats_from_words(words: &[u32]) -> Vec<f32> {
    words.iter().map(|w| f32::from_bits(*w)).collect()
}

#[test]
fn parses_typed_search_result_documents() {
    let request_json =
        r#"{"contents":[{"role":"user","parts":[{"text":"test"}]}],"generationConfig":{}}"#
            .to_string();
    let response_json = r#"{"candidates":[]}"#.to_string();
    let embedding = vec![1.0f32, 2.0f32, 3.0f32, 4.0f32];
    let embedding_bytes = embedding
        .iter()
        .flat_map(|value| value.to_le_bytes())
        .collect::<Vec<_>>();

    let payload = RespValue::Array(vec![
        Ok(RespValue::Int(1)),
        Ok(RespValue::Array(vec![
            Ok(simple("request:test")),
            Ok(RespValue::Array(vec![
                Ok(simple("prompt_vec")),
                Ok(RespValue::BulkString(embedding_bytes.clone())),
                Ok(simple("encoded_request")),
                Ok(RespValue::SimpleString(request_json)),
                Ok(simple("encoded_response")),
                Ok(RespValue::SimpleString(response_json)),
            ])),
        ])),
    ]);

    let parsed = ValkeySearchResult::from_value(&payload).unwrap();
    assert_eq!(parsed.total_results, 1);
    assert_eq!(parsed.documents.len(), 1);
    assert_eq!(parsed.documents[0].id, "request:test");
    assert!(parsed.documents[0].request.is_some());
    assert!(parsed.documents[0].response.is_some());
    assert_eq!(
        parsed.documents[0]
            .embedding
            .as_deref()
            .map(floats_from_words),
        Some(embedding.clone())
    );
}

#[test]
fn stored_texts_come_back_unchanged() {
    let payload = RespValue::Array(vec![
        Ok(RespValue::Int(1)),
        Ok(RespValue::Array(vec![
            Ok(bulk(b"request:abc")),
            Ok(RespValue::Array(vec![
                Ok(bulk(b"encoded_response")),
                Ok(bulk(b"{\"candidates\":[]}")),
            ])),
        ])),
    ]);
    let parsed = ValkeySearchResult::from_value(&payload).unwrap();
    assert_eq!(parsed.documents[0].id, "request:abc");
    assert_eq!(parsed.documents[0].request, None);
    assert_eq!(
        parsed.documents[0].response.as_deref(),
        Some("{\"candidates\":[]}")
    );
    assert_eq!(parsed.documents[0].embedding, None);
}

#[test]
fn quoted_text_is_unquoted() {
    let v = simple("\"request:quoted\\n\"");
    assert_eq!(parse_text_value(&v), Ok("request:quoted\n".to_string()));
    let plain = simple("not json");
    assert_eq!(parse_text_value(&plain), Ok("not json".to_string()));
}

#[test]
fn text_of_numbers_and_status() {
    assert_eq!(parse_text_value(&RespValue::Int(-42)), Ok("-42".to_string()));
    assert_eq!(parse_text_value(&RespValue::Okay), Ok("OK".to_string()));
    assert_eq!(parse_text_value(&RespValue::Nil), Err(DecodeError::NonStringValue));
    assert_eq!(
        parse_text_value(&RespValue::BulkString(vec![0xff, 0xfe])),
        Err(DecodeError::NonStringValue)
    );
}

#[test]
fn field_names_are_recognised() {
    assert_eq!(parse_field_name(&simple("prompt_vec")), Ok(StoredField::PromptVec));
    assert_eq!(
        parse_field_name(&bulk(b"encoded_request")),
        Ok(StoredField::EncodedRequest)
    );
    assert_eq!(
        parse_field_name(&simple("encoded_response")),
        Ok(StoredField::EncodedResponse)
    );
    assert_eq!(
        parse_field_name(&simple("__score")),
        Err(DecodeError::UnsupportedField)
    );
}

#[test]
fn embedding_words_are_little_endian() {
    let v = bulk(&[0x01, 0x02, 0x03, 0x04, 0xff, 0x00, 0x00, 0x80]);
    assert_eq!(parse_embedding_value(&v), Ok(vec![0x0403_0201, 0x8000_00ff]));
    assert_eq!(parse_embedding_value(&simple("abcd")), Ok(vec![0x6463_6261]));
    assert_eq!(
        parse_embedding_value(&bulk(&[1, 2, 3])),
        Err(DecodeError::MisalignedEmbedding)
    );
    assert_eq!(
        parse_embedding_value(&RespValue::Int(4)),
        Err(DecodeError::NonBinaryEmbedding)
    );
}

#[test]
fn reply_errors() {
    assert_eq!(
        ValkeySearchResult::from_value(&RespValue::Int(0)),
        Err(DecodeError::NotAnArray)
    );
    assert_eq!(
        ValkeySearchResult::from_value(&RespValue::Array(vec![])),
        Err(DecodeError::EmptyReply)
    );
    assert_eq!(
        ValkeySearchResult::from_value(&RespValue::Array(vec![Err(server_error())])),
        Err(DecodeError::TotalUnreadable)
    );
    assert_eq!(
        ValkeySearchResult::from_value(&RespValue::Array(vec![Ok(RespValue::Int(-1))])),
        Err(DecodeError::TotalNotCount)
    );
    assert_eq!(
        ValkeySearchResult::from_value(&RespValue::Array(vec![
            Ok(RespValue::Int(1)),
            Err(server_error())
        ])),
        Err(DecodeError::DocumentUnreadable)
    );
}

#[test]
fn totals_in_every_form() {
    let total = |v: RespValue| {
        ValkeySearchResult::from_value(&RespValue::Array(vec![Ok(v)])).map(|r| r.total_results)
    };
    assert_eq!(total(RespValue::Int(7)), Ok(7));
    assert_eq!(total(simple("+12")), Ok(12));
    assert_eq!(total(bulk(b"30")), Ok(30));
    assert_eq!(total(simple("-1")), Err(DecodeError::TotalNotCount));
    assert_eq!(total(simple("")), Err(DecodeError::TotalNotCount));
    assert_eq!(
        total(RespValue::Double { text: "3.5".to_string(), integral: Some(3) }),
        Ok(3)
    );
    assert_eq!(
        total(RespValue::Double { text: "NaN".to_string(), integral: None }),
        Err(DecodeError::TotalNotCount)
    );
    assert_eq!(total(RespValue::Boolean(true)), Err(DecodeError::TotalNotCount));
}

#[test]
fn document_errors() {
    assert_eq!(
        SearchDocument::from_value(&RespValue::Array(vec![])),
        Err(DecodeError::EmptyDocumentArray)
    );
    assert_eq!(
        SearchDocument::from_value(&RespValue::Array(vec![Err(server_error())])),
        Err(DecodeError::InvalidDocumentId)
    );
    assert_eq!(
        SearchDocument::from_value(&RespValue::Dict(vec![])),
        Err(DecodeError::EmptyDocumentMap)
    );
    assert_eq!(
        SearchDocument::from_value(&RespValue::Array(vec![
            Ok(simple("request:x")),
            Ok(RespValue::Array(vec![Err(server_error()), Ok(simple("v"))])),
        ])),
        Err(DecodeError::InvalidFieldName)
    );
    assert_eq!(
        SearchDocument::from_value(&RespValue::Array(vec![
            Ok(simple("request:x")),
            Ok(RespValue::Array(vec![Ok(simple("encoded_request")), Err(server_error())])),
        ])),
        Err(DecodeError::InvalidFieldValue)
    );
    assert_eq!(
        SearchDocument::from_value(&RespValue::Nil),
        Err(DecodeError::NonStringValue)
    );
}

#[test]
fn map_document_reads_fields_before_identifier() {
    let doc = RespValue::Dict(vec![(
        RespValue::Nil,
        RespValue::Dict(vec![(simple("bogus"), simple("x"))]),
    )]);
    assert_eq!(
        SearchDocument::from_value(&doc),
        Err(DecodeError::UnsupportedField)
    );
    let doc = RespValue::Dict(vec![(
        simple("request:k"),
        RespValue::Dict(vec![(simple("encoded_request"), simple("{}"))]),
    )]);
    let parsed = SearchDocument::from_value(&doc).unwrap();
    assert_eq!(parsed.id, "request:k");
    assert_eq!(parsed.request.as_deref(), Some("{}"));
}

#[test]
fn bare_identifier_document() {
    let parsed = SearchDocument::from_value(&bulk(b"request:only")).unwrap();
    assert_eq!(
        parsed,
        SearchDocument {
            id: "request:only".to_string(),
            request: None,
            response: None,
            embedding: None
        }
    );
    let missing_fields = SearchDocument::from_value(&RespValue::Array(vec![
        Ok(simple("request:a")),
        Err(server_error()),
    ]))
    .unwrap();
    assert_eq!(missing_fields.request, None);
}

#[test]
fn fields_pairs_and_overrides() {
    let fields = SearchDocumentFields::from_value(&RespValue::Array(vec![
        Ok(simple("encoded_request")),
        Ok(simple("{\"a\":1}")),
        Ok(simple("encoded_request")),
        Ok(simple("{\"b\":2}")),
        Ok(simple("prompt_vec")),
    ]))
    .unwrap();
    assert_eq!(fields.request.as_deref(), Some("{\"b\":2}"));
    assert_eq!(fields.embedding, None);
    let other = SearchDocumentFields::from_value(&RespValue::Int(3)).unwrap();
    assert_eq!(other, SearchDocumentFields::empty());
}

#[test]
fn one_document_per_element() {
    let payload = RespValue::Array(vec![
        Ok(RespValue::Int(10)),
        Ok(simple("request:a")),
        Ok(simple("request:b")),
        Ok(RespValue::Dict(vec![(simple("request:c"), RespValue::Nil)])),
    ]);
    let parsed = ValkeySearchResult::from_value(&payload).unwrap();
    assert_eq!(parsed.total_results, 10);
    let ids: Vec<&str> = parsed.documents.iter().map(|d| d.id.as_str()).collect();
    assert_eq!(ids, vec!["request:a", "request:b", "request:c"]);
}

fn attr(data: RespValue) -> RespValue {
    RespValue::Attribute {
        data: Box::new(data),
        attributes: vec![(simple("ttl"), RespValue::Int(3))],
    }
}

#[test]
fn attribute_wrappers_follow_the_client() {
    // Text and counts look through one wrapper.
    assert_eq!(parse_text_value(&attr(simple("request:w"))), Ok("request:w".to_string()));
    assert_eq!(
        parse_text_value(&attr(attr(simple("x")))),
        Err(DecodeError::NonStringValue)
    );
    let reply = RespValue::Array(vec![Ok(attr(RespValue::Int(2)))]);
    assert_eq!(ValkeySearchResult::from_value(&reply).map(|r| r.total_results), Ok(2));
    // Structure does not look through a wrapper.
    assert_eq!(
        ValkeySearchResult::from_value(&attr(RespValue::Array(vec![Ok(RespValue::Int(0))]))),
        Err(DecodeError::NotAnArray)
    );
    assert_eq!(
        parse_embedding_value(&attr(bulk(&[1, 2, 3, 4]))),
        Err(DecodeError::NonBinaryEmbedding)
    );
    let fields = SearchDocumentFields::from_value(&attr(RespValue::Array(vec![
        Ok(simple("encoded_request")),
        Ok(simple("{}")),
    ])))
    .unwrap();
    assert_eq!(fields, SearchDocumentFields::empty());
    let doc = SearchDocument::from_value(&attr(bulk(b"request:z"))).unwrap();
    assert_eq!(doc.id, "request:z");
}

#[test]
fn any_float_bits_survive_the_stored_form() {
    let floats = [f32::NAN, f32::INFINITY, f32::NEG_INFINITY, -0.0f32, 1.5];
    let words: Vec<u32> = floats.iter().map(|f| f.to_bits()).collect();
    let bytes = llmcache::embedding::encode_words(&words);
    let back = parse_embedding_value(&RespValue::BulkString(bytes)).unwrap();
    assert_eq!(back.len(), floats.len());
    for (w, f) in back.iter().zip(floats.iter()) {
        assert_eq!(*w, f.to_bits());
    }
}

#[test]
fn payloads_are_reported_in_order_up_to_the_failure() {
    let doc = RespValue::Array(vec![
        Ok(simple("request:p")),
        Ok(RespValue::Array(vec![
            Ok(simple("encoded_request")),
            Ok(simple("{not json")),
            Ok(simple("encoded_request")),
            Ok(simple("{}")),
            Ok(simple("encoded_response")),
            Ok(RespValue::Nil),
            Ok(simple("encoded_response")),
            Ok(simple("{\"never\":1}")),
        ])),
    ]);
    let reply = RespValue::Array(vec![Ok(RespValue::Int(1)), Ok(doc)]);
    let (result, payloads) = ValkeySearchResult::from_value_with_payloads(&reply);
    assert_eq!(result, Err(DecodeError::NonStringValue));
    assert_eq!(
        payloads,
        vec![
            (StoredField::EncodedRequest, "{not json".to_string()),
            (StoredField::EncodedRequest, "{}".to_string()),
        ]
    );
}

#[test]
fn payloads_of_a_good_reply() {
    let reply = RespValue::Array(vec![
        Ok(RespValue::Int(2)),
        Ok(RespValue::Dict(vec![(
            simple("request:a"),
            RespValue::Dict(vec![
                (simple("encoded_response"), simple("{\"r\":1}")),
                (simple("prompt_vec"), bulk(&[0, 0, 0, 0])),
            ]),
        )])),
        Ok(simple("request:b")),
    ]);
    let (result, payloads) = ValkeySearchResult::from_value_with_payloads(&reply);
    assert_eq!(result.unwrap().documents.len(), 2);
    assert_eq!(payloads, vec![(StoredField::EncodedResponse, "{\"r\":1}".to_string())]);
    let (_, none) = ValkeySearchResult::from_value_with_payloads(&RespValue::Int(1));
    assert!(none.is_empty());
}
