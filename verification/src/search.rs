//! Decoding of the reply to a vector search (`FT.SEARCH`) over the cache's
//! stored requests.
//!
//! A reply is an array: the total number of matches, then one entry per
//! document. A document is an array of its identifier and its fields, a map
//! from its identifier to its fields, or a bare identifier. Fields come as an
//! array of alternating names and values, or as a map.
use vstd::prelude::*;

use crate::embedding::{bytes_of_words, decode_words, law_words_bytes_roundtrip, words_of_bytes};
use crate::resp::{field_text, starts_plain, value_count, value_text, RespValue, ServerError};
use vstd::utf8::encode_utf8;

verus! {

/// Why a search reply could not be decoded.
#[derive(PartialEq, Eq, Structural, Debug, Clone, Copy)]
pub enum DecodeError {
    /// The reply is not an array.
    NotAnArray,
    /// The reply is an empty array, with no total count.
    EmptyReply,
    /// The server reported an error in place of the total count.
    TotalUnreadable,
    /// The total count is not a non-negative integer that fits in `usize`.
    TotalNotCount,
    /// The server reported an error in place of a document.
    DocumentUnreadable,
    /// A document given as an array has no elements.
    EmptyDocumentArray,
    /// The server reported an error in place of a document's identifier.
    InvalidDocumentId,
    /// A document given as a map has no entries.
    EmptyDocumentMap,
    /// The server reported an error in place of a field name.
    InvalidFieldName,
    /// The server reported an error in place of a field value.
    InvalidFieldValue,
    /// A field name is none of those the cache stores.
    UnsupportedField,
    /// A value that must be text has none.
    NonStringValue,
    /// An embedding is neither a binary nor a simple string.
    NonBinaryEmbedding,
    /// An embedding's length is not a multiple of four bytes.
    MisalignedEmbedding,
}

/// The fields that the cache stores with each request.
#[derive(PartialEq, Eq, Structural, Debug, Clone, Copy)]
pub enum StoredField {
    /// The request, as JSON text.
    EncodedRequest,
    /// The response, as JSON text.
    EncodedResponse,
    /// The embedding of the prompt, as little-endian 32-bit words.
    PromptVec,
}

/// The fields of a document as decoded: the request and response JSON texts
/// and the embedding's words, each where the document carries it.
pub struct FieldsView {
    pub request: Option<Seq<char>>,
    pub response: Option<Seq<char>>,
    pub embedding: Option<Seq<u32>>,
}

/// A decoded document.
pub struct DocumentView {
    pub id: Seq<char>,
    pub request: Option<Seq<char>>,
    pub response: Option<Seq<char>>,
    pub embedding: Option<Seq<u32>>,
}

/// A decoded search reply.
pub struct SearchView {
    pub total_results: usize,
    pub documents: Seq<DocumentView>,
}

/// No fields.
pub open spec fn no_fields() -> FieldsView {
    FieldsView { request: None, response: None, embedding: None }
}

/// The text of a value as a field, or `NonStringValue` where it has none.
pub open spec fn text_of(v: RespValue) -> Result<Seq<char>, DecodeError> {
    match field_text(v) {
        Some(t) => Ok(t),
        None => Err(DecodeError::NonStringValue),
    }
}

/// Which stored field a name designates.
pub open spec fn field_of_name(v: RespValue) -> Result<StoredField, DecodeError> {
    match text_of(v) {
        Err(e) => Err(e),
        Ok(t) => if t == "encoded_request"@ {
            Ok(StoredField::EncodedRequest)
        } else if t == "encoded_response"@ {
            Ok(StoredField::EncodedResponse)
        } else if t == "prompt_vec"@ {
            Ok(StoredField::PromptVec)
        } else {
            Err(DecodeError::UnsupportedField)
        },
    }
}

/// The bytes of an embedding value: those of a binary string, or the UTF-8
/// encoding of a simple string.
pub open spec fn embedding_bytes(v: RespValue) -> Option<Seq<u8>> {
    match v {
        RespValue::BulkString(b) => Some(b@),
        RespValue::SimpleString(s) => Some(encode_utf8(s@)),
        _ => None,
    }
}

/// The words of an embedding value.
pub open spec fn embedding_of(v: RespValue) -> Result<Seq<u32>, DecodeError> {
    match embedding_bytes(v) {
        None => Err(DecodeError::NonBinaryEmbedding),
        Some(b) => if b.len() % 4 != 0 {
            Err(DecodeError::MisalignedEmbedding)
        } else {
            Ok(words_of_bytes(b))
        },
    }
}

/// `acc` with the field `kind` set from `value`.
pub open spec fn with_field(acc: FieldsView, kind: StoredField, value: RespValue) -> Result<
    FieldsView,
    DecodeError,
> {
    match kind {
        StoredField::EncodedRequest => match text_of(value) {
            Ok(t) => Ok(FieldsView { request: Some(t), ..acc }),
            Err(e) => Err(e),
        },
        StoredField::EncodedResponse => match text_of(value) {
            Ok(t) => Ok(FieldsView { response: Some(t), ..acc }),
            Err(e) => Err(e),
        },
        StoredField::PromptVec => match embedding_of(value) {
            Ok(w) => Ok(FieldsView { embedding: Some(w), ..acc }),
            Err(e) => Err(e),
        },
    }
}

/// `acc` with one name and value of a field array applied.
pub open spec fn with_array_pair(
    acc: FieldsView,
    name: Result<RespValue, ServerError>,
    value: Result<RespValue, ServerError>,
) -> Result<FieldsView, DecodeError> {
    match name {
        Err(_) => Err(DecodeError::InvalidFieldName),
        Ok(n) => match field_of_name(n) {
            Err(e) => Err(e),
            Ok(kind) => match value {
                Err(_) => Err(DecodeError::InvalidFieldValue),
                Ok(v) => with_field(acc, kind, v),
            },
        },
    }
}

/// `acc` with one entry of a field map applied.
pub open spec fn with_map_pair(acc: FieldsView, name: RespValue, value: RespValue) -> Result<
    FieldsView,
    DecodeError,
> {
    match field_of_name(name) {
        Err(e) => Err(e),
        Ok(kind) => with_field(acc, kind, value),
    }
}

/// The fields given by the first `n` name and value pairs of `items`.
pub open spec fn fields_of_array(items: Seq<Result<RespValue, ServerError>>, n: nat) -> Result<
    FieldsView,
    DecodeError,
>
    decreases n,
{
    if n == 0 {
        Ok(no_fields())
    } else {
        match fields_of_array(items, (n - 1) as nat) {
            Err(e) => Err(e),
            Ok(acc) => with_array_pair(acc, items[2 * (n - 1)], items[2 * (n - 1) + 1]),
        }
    }
}

/// The fields given by the first `n` entries of `pairs`.
pub open spec fn fields_of_map(pairs: Seq<(RespValue, RespValue)>, n: nat) -> Result<
    FieldsView,
    DecodeError,
>
    decreases n,
{
    if n == 0 {
        Ok(no_fields())
    } else {
        match fields_of_map(pairs, (n - 1) as nat) {
            Err(e) => Err(e),
            Ok(acc) => with_map_pair(acc, pairs[n - 1].0, pairs[n - 1].1),
        }
    }
}

/// The fields a value gives: every complete name and value pair of an array
/// (a trailing lone name is ignored), every entry of a map, and nothing from
/// any other value.
pub open spec fn fields_of(v: RespValue) -> Result<FieldsView, DecodeError> {
    match v {
        RespValue::Array(items) => fields_of_array(items@, items@.len() / 2),
        RespValue::Dict(pairs) => fields_of_map(pairs@, pairs@.len()),
        _ => Ok(no_fields()),
    }
}

/// A document of identifier `id` with fields `f`.
pub open spec fn document(id: Seq<char>, f: FieldsView) -> DocumentView {
    DocumentView { id, request: f.request, response: f.response, embedding: f.embedding }
}

/// The value holding a document's fields when the document is an array: its
/// second element where there is one and the server reported no error there,
/// else nil.
pub open spec fn document_fields_value(items: Seq<Result<RespValue, ServerError>>) -> RespValue {
    if items.len() > 1 {
        match items[1] {
            Ok(v) => v,
            Err(_) => RespValue::Nil,
        }
    } else {
        RespValue::Nil
    }
}

/// The document a value gives.
pub open spec fn document_of(v: RespValue) -> Result<DocumentView, DecodeError> {
    match v {
        RespValue::Array(items) => if items@.len() == 0 {
            Err(DecodeError::EmptyDocumentArray)
        } else {
            match items@[0] {
                Err(_) => Err(DecodeError::InvalidDocumentId),
                Ok(idv) => match text_of(idv) {
                    Err(e) => Err(e),
                    Ok(id) => match fields_of(document_fields_value(items@)) {
                        Err(e) => Err(e),
                        Ok(f) => Ok(document(id, f)),
                    },
                },
            }
        },
        RespValue::Dict(pairs) => if pairs@.len() == 0 {
            Err(DecodeError::EmptyDocumentMap)
        } else {
            match fields_of(pairs@[0].1) {
                Err(e) => Err(e),
                Ok(f) => match text_of(pairs@[0].0) {
                    Err(e) => Err(e),
                    Ok(id) => Ok(document(id, f)),
                },
            }
        },
        _ => match text_of(v) {
            Err(e) => Err(e),
            Ok(id) => Ok(document(id, no_fields())),
        },
    }
}

/// The documents given by elements 1 to `n` of a reply.
pub open spec fn documents_of(items: Seq<Result<RespValue, ServerError>>, n: nat) -> Result<
    Seq<DocumentView>,
    DecodeError,
>
    decreases n,
{
    if n == 0 {
        Ok(Seq::empty())
    } else {
        match documents_of(items, (n - 1) as nat) {
            Err(e) => Err(e),
            Ok(ds) => match items[n as int] {
                Err(_) => Err(DecodeError::DocumentUnreadable),
                Ok(dv) => match document_of(dv) {
                    Err(e) => Err(e),
                    Ok(d) => Ok(ds.push(d)),
                },
            },
        }
    }
}

/// The search reply a value gives.
pub open spec fn search_of(v: RespValue) -> Result<SearchView, DecodeError> {
    match v {
        RespValue::Array(items) => if items@.len() == 0 {
            Err(DecodeError::EmptyReply)
        } else {
            match items@[0] {
                Err(_) => Err(DecodeError::TotalUnreadable),
                Ok(tv) => match value_count(tv) {
                    None => Err(DecodeError::TotalNotCount),
                    Some(total) => match documents_of(items@, (items@.len() - 1) as nat) {
                        Err(e) => Err(e),
                        Ok(ds) => Ok(SearchView { total_results: total, documents: ds }),
                    },
                },
            }
        },
        _ => Err(DecodeError::NotAnArray),
    }
}

/// A JSON payload met while decoding: the field it came from and its text.
pub type PayloadView = (StoredField, Seq<char>);

/// The JSON payload that setting field `kind` from `value` hands over: the
/// text of a request or response field, where it reads.
pub open spec fn pair_payload(kind: StoredField, value: RespValue) -> Seq<PayloadView> {
    match kind {
        StoredField::PromptVec => Seq::empty(),
        _ => match text_of(value) {
            Ok(t) => seq![(kind, t)],
            Err(_) => Seq::empty(),
        },
    }
}

/// The JSON payload one name and value of a field array hands over.
pub open spec fn array_pair_payload(
    name: Result<RespValue, ServerError>,
    value: Result<RespValue, ServerError>,
) -> Seq<PayloadView> {
    match name {
        Ok(n) => match field_of_name(n) {
            Ok(kind) => match value {
                Ok(v) => pair_payload(kind, v),
                Err(_) => Seq::empty(),
            },
            Err(_) => Seq::empty(),
        },
        Err(_) => Seq::empty(),
    }
}

/// The JSON payload one entry of a field map hands over.
pub open spec fn map_pair_payload(name: RespValue, value: RespValue) -> Seq<PayloadView> {
    match field_of_name(name) {
        Ok(kind) => pair_payload(kind, value),
        Err(_) => Seq::empty(),
    }
}

/// The JSON payloads that the first `n` pairs of a field array hand over, in
/// order, up to the first pair that fails.
pub open spec fn payloads_of_array(items: Seq<Result<RespValue, ServerError>>, n: nat) -> Seq<
    PayloadView,
>
    decreases n,
{
    if n == 0 {
        Seq::empty()
    } else if fields_of_array(items, (n - 1) as nat) is Ok {
        payloads_of_array(items, (n - 1) as nat) + array_pair_payload(
            items[2 * (n - 1)],
            items[2 * (n - 1) + 1],
        )
    } else {
        payloads_of_array(items, (n - 1) as nat)
    }
}

/// The JSON payloads that the first `n` entries of a field map hand over, in
/// order, up to the first entry that fails.
pub open spec fn payloads_of_map(pairs: Seq<(RespValue, RespValue)>, n: nat) -> Seq<PayloadView>
    decreases n,
{
    if n == 0 {
        Seq::empty()
    } else if fields_of_map(pairs, (n - 1) as nat) is Ok {
        payloads_of_map(pairs, (n - 1) as nat) + map_pair_payload(pairs[n - 1].0, pairs[n - 1].1)
    } else {
        payloads_of_map(pairs, (n - 1) as nat)
    }
}

/// The JSON payloads that decoding the fields of `v` meets, in order.
pub open spec fn field_payloads(v: RespValue) -> Seq<PayloadView> {
    match v {
        RespValue::Array(items) => payloads_of_array(items@, items@.len() / 2),
        RespValue::Dict(pairs) => payloads_of_map(pairs@, pairs@.len()),
        _ => Seq::empty(),
    }
}

/// The JSON payloads that decoding the document `v` meets, in order.
pub open spec fn document_payloads(v: RespValue) -> Seq<PayloadView> {
    match v {
        RespValue::Array(items) => if items@.len() == 0 {
            Seq::empty()
        } else {
            match items@[0] {
                Ok(idv) => if text_of(idv) is Ok {
                    field_payloads(document_fields_value(items@))
                } else {
                    Seq::empty()
                },
                Err(_) => Seq::empty(),
            }
        },
        RespValue::Dict(pairs) => if pairs@.len() == 0 {
            Seq::empty()
        } else {
            field_payloads(pairs@[0].1)
        },
        _ => Seq::empty(),
    }
}

/// The JSON payloads that decoding elements 1 to `n` of a reply meets, in
/// order, up to the first document that fails.
pub open spec fn documents_payloads(items: Seq<Result<RespValue, ServerError>>, n: nat) -> Seq<
    PayloadView,
>
    decreases n,
{
    if n == 0 {
        Seq::empty()
    } else if documents_of(items, (n - 1) as nat) is Ok {
        documents_payloads(items, (n - 1) as nat) + match items[n as int] {
            Ok(dv) => document_payloads(dv),
            Err(_) => Seq::empty(),
        }
    } else {
        documents_payloads(items, (n - 1) as nat)
    }
}

/// The JSON payloads that decoding the reply `v` meets, in order: those of
/// every document decoded before the first failure, up to that failure.
/// Each of them is the text of a request or a response, to be decoded as JSON
/// as soon as it is met.
pub open spec fn search_payloads(v: RespValue) -> Seq<PayloadView> {
    match v {
        RespValue::Array(items) => if items@.len() > 0 && items@[0] is Ok && value_count(
            items@[0]->Ok_0,
        ) is Some {
            documents_payloads(items@, (items@.len() - 1) as nat)
        } else {
            Seq::empty()
        },
        _ => Seq::empty(),
    }
}

/// The view of a list of payloads.
pub open spec fn payloads_view(p: Seq<(StoredField, String)>) -> Seq<PayloadView> {
    p.map_values(|x: (StoredField, String)| (x.0, x.1@))
}

proof fn lemma_array_payloads_persist(items: Seq<Result<RespValue, ServerError>>, k: nat, n: nat)
    requires
        k <= n,
        fields_of_array(items, k) is Err,
    ensures
        payloads_of_array(items, n) == payloads_of_array(items, k),
    decreases n - k,
{
    if k < n {
        lemma_array_payloads_persist(items, k, (n - 1) as nat);
        lemma_array_error_persists(items, k, (n - 1) as nat);
    }
}

proof fn lemma_map_payloads_persist(pairs: Seq<(RespValue, RespValue)>, k: nat, n: nat)
    requires
        k <= n,
        fields_of_map(pairs, k) is Err,
    ensures
        payloads_of_map(pairs, n) == payloads_of_map(pairs, k),
    decreases n - k,
{
    if k < n {
        lemma_map_payloads_persist(pairs, k, (n - 1) as nat);
        lemma_map_error_persists(pairs, k, (n - 1) as nat);
    }
}

proof fn lemma_documents_payloads_persist(
    items: Seq<Result<RespValue, ServerError>>,
    k: nat,
    n: nat,
)
    requires
        k <= n,
        documents_of(items, k) is Err,
    ensures
        documents_payloads(items, n) == documents_payloads(items, k),
    decreases n - k,
{
    if k < n {
        lemma_documents_payloads_persist(items, k, (n - 1) as nat);
        lemma_documents_error_persists(items, k, (n - 1) as nat);
    }
}

proof fn lemma_array_error_persists(items: Seq<Result<RespValue, ServerError>>, k: nat, n: nat)
    requires
        k <= n,
        fields_of_array(items, k) is Err,
    ensures
        fields_of_array(items, n) == fields_of_array(items, k),
    decreases n - k,
{
    if k < n {
        lemma_array_error_persists(items, k, (n - 1) as nat);
    }
}

proof fn lemma_map_error_persists(pairs: Seq<(RespValue, RespValue)>, k: nat, n: nat)
    requires
        k <= n,
        fields_of_map(pairs, k) is Err,
    ensures
        fields_of_map(pairs, n) == fields_of_map(pairs, k),
    decreases n - k,
{
    if k < n {
        lemma_map_error_persists(pairs, k, (n - 1) as nat);
    }
}

/// The view of an optional embedding.
pub open spec fn words_view(e: Option<Vec<u32>>) -> Option<Seq<u32>> {
    match e {
        Some(w) => Some(w@),
        None => None,
    }
}

/// The view of an optional text.
pub open spec fn text_view(t: Option<String>) -> Option<Seq<char>> {
    match t {
        Some(s) => Some(s@),
        None => None,
    }
}

/// The fields of a stored document: the request and response as JSON text,
/// and the embedding as little-endian 32-bit words.
#[derive(Debug, PartialEq, Eq)]
pub struct SearchDocumentFields {
    pub request: Option<String>,
    pub response: Option<String>,
    pub embedding: Option<Vec<u32>>,
}

impl View for SearchDocumentFields {
    type V = FieldsView;

    open spec fn view(&self) -> FieldsView {
        FieldsView {
            request: text_view(self.request),
            response: text_view(self.response),
            embedding: words_view(self.embedding),
        }
    }
}

/// A document found by a search: its key and the fields stored with it.
#[derive(Debug, PartialEq, Eq)]
pub struct SearchDocument {
    pub id: String,
    pub request: Option<String>,
    pub response: Option<String>,
    pub embedding: Option<Vec<u32>>,
}

impl View for SearchDocument {
    type V = DocumentView;

    open spec fn view(&self) -> DocumentView {
        DocumentView {
            id: self.id@,
            request: text_view(self.request),
            response: text_view(self.response),
            embedding: words_view(self.embedding),
        }
    }
}

/// A decoded search reply: the total number of matches and the documents
/// returned.
#[derive(Debug, PartialEq, Eq)]
pub struct ValkeySearchResult {
    pub total_results: usize,
    pub documents: Vec<SearchDocument>,
}

impl View for ValkeySearchResult {
    type V = SearchView;

    open spec fn view(&self) -> SearchView {
        SearchView {
            total_results: self.total_results,
            documents: self.documents@.map_values(|d: SearchDocument| d@),
        }
    }
}

/// Whether an exec result agrees with a spec result.
pub open spec fn agrees<T: View>(r: Result<T, DecodeError>, s: Result<T::V, DecodeError>) -> bool {
    match r {
        Ok(x) => s == Ok::<T::V, DecodeError>(x@),
        Err(e) => s == Err::<T::V, DecodeError>(e),
    }
}

/// The text of a value as a field, or `NonStringValue` where it has none.
pub fn parse_text_value(v: &RespValue) -> (r: Result<String, DecodeError>)
    ensures
        match r {
            Ok(s) => text_of(*v) == Ok::<Seq<char>, DecodeError>(s@),
            Err(e) => text_of(*v) == Err::<Seq<char>, DecodeError>(e),
        },
        value_text(*v) is Some && starts_plain(value_text(*v)->Some_0) ==> (r matches Ok(s) && s@
            == value_text(*v)->Some_0),
{
    match v.field_text() {
        Some(s) => Ok(s),
        None => Err(DecodeError::NonStringValue),
    }
}

/// Which stored field a name designates.
pub fn parse_field_name(v: &RespValue) -> (r: Result<StoredField, DecodeError>)
    ensures
        r == field_of_name(*v),
{
    let text = parse_text_value(v)?;
    if text == String::from_str("encoded_request") {
        Ok(StoredField::EncodedRequest)
    } else if text == String::from_str("encoded_response") {
        Ok(StoredField::EncodedResponse)
    } else if text == String::from_str("prompt_vec") {
        Ok(StoredField::PromptVec)
    } else {
        Err(DecodeError::UnsupportedField)
    }
}

/// The words of an embedding value.
pub fn parse_embedding_value(v: &RespValue) -> (r: Result<Vec<u32>, DecodeError>)
    ensures
        match r {
            Ok(w) => embedding_of(*v) == Ok::<Seq<u32>, DecodeError>(w@),
            Err(e) => embedding_of(*v) == Err::<Seq<u32>, DecodeError>(e),
        },
{
    let bytes: &[u8] = match v {
        RespValue::BulkString(b) => b.as_slice(),
        RespValue::SimpleString(s) => s.as_str().as_bytes(),
        _ => {
            return Err(DecodeError::NonBinaryEmbedding);
        },
    };
    if bytes.len() % 4 != 0 {
        return Err(DecodeError::MisalignedEmbedding);
    }
    Ok(decode_words(bytes))
}

impl SearchDocumentFields {
    /// No fields.
    pub fn empty() -> (r: Self)
        ensures
            r@ == no_fields(),
    {
        SearchDocumentFields { request: None, response: None, embedding: None }
    }

    /// These fields with the field `kind` set from `value`.
    pub fn with_field(self, kind: StoredField, value: &RespValue) -> (r: Result<Self, DecodeError>)
        ensures
            agrees(r, with_field(self@, kind, *value)),
    {
        let mut fields = self;
        match kind {
            StoredField::EncodedRequest => {
                fields.request = Some(parse_text_value(value)?);
            },
            StoredField::EncodedResponse => {
                fields.response = Some(parse_text_value(value)?);
            },
            StoredField::PromptVec => {
                fields.embedding = Some(parse_embedding_value(value)?);
            },
        }
        Ok(fields)
    }

    /// The fields a value gives: see `fields_of`.
    pub fn from_value(v: &RespValue) -> (r: Result<Self, DecodeError>)
        ensures
            agrees(r, fields_of(*v)),
    {
        Self::from_value_with_payloads(v).0
    }

    /// The fields a value gives, with the JSON payloads met on the way, in
    /// order: see `fields_of` and `field_payloads`.
    pub fn from_value_with_payloads(v: &RespValue) -> (r: (
        Result<Self, DecodeError>,
        Vec<(StoredField, String)>,
    ))
        ensures
            agrees(r.0, fields_of(*v)),
            payloads_view(r.1@) == field_payloads(*v),
    {
        let mut log: Vec<(StoredField, String)> = Vec::new();
        assert(payloads_view(log@) =~= Seq::<PayloadView>::empty());
        match v {
            RespValue::Array(items) => {
                let len: usize = items.len();
                let n: usize = len / 2;
                let mut fields = Self::empty();
                let mut k: usize = 0;
                while k < n
                    invariant
                        len == items@.len(),
                        n == items@.len() / 2,
                        fields_of(*v) == fields_of_array(items@, n as nat),
                        field_payloads(*v) == payloads_of_array(items@, n as nat),
                        k <= n,
                        fields_of_array(items@, k as nat) == Ok::<FieldsView, DecodeError>(
                            fields@,
                        ),
                        payloads_view(log@) == payloads_of_array(items@, k as nat),
                    decreases n - k,
                {
                    assert(2 * k + 1 < items@.len());
                    let ghost step = with_array_pair(fields@, items@[2 * k as int], items@[2 * k + 1]);
                    let ghost added = array_pair_payload(items@[2 * k as int], items@[2 * k + 1]);
                    let ghost before = log@;
                    proof {
                        assert(fields_of_array(items@, (k + 1) as nat) == step);
                        assert(payloads_of_array(items@, (k + 1) as nat) == payloads_view(log@)
                            + added);
                        if step is Err {
                            lemma_array_error_persists(items@, (k + 1) as nat, n as nat);
                            lemma_array_payloads_persist(items@, (k + 1) as nat, n as nat);
                        }
                    }
                    let name = match &items[2 * k] {
                        Ok(name) => name,
                        Err(_) => {
                            assert(added =~= Seq::<PayloadView>::empty());
                            assert(payloads_view(log@) =~= payloads_view(log@) + added);
                            return (Err(DecodeError::InvalidFieldName), log);
                        },
                    };
                    let kind = match parse_field_name(name) {
                        Ok(kind) => kind,
                        Err(e) => {
                            assert(added =~= Seq::<PayloadView>::empty());
                            assert(payloads_view(log@) =~= payloads_view(log@) + added);
                            return (Err(e), log);
                        },
                    };
                    let value = match &items[2 * k + 1] {
                        Ok(value) => value,
                        Err(_) => {
                            assert(added =~= Seq::<PayloadView>::empty());
                            assert(payloads_view(log@) =~= payloads_view(log@) + added);
                            return (Err(DecodeError::InvalidFieldValue), log);
                        },
                    };
                    fields = match fields.with_field(kind, value) {
                        Ok(f) => f,
                        Err(e) => {
                            assert(added =~= Seq::<PayloadView>::empty());
                            assert(payloads_view(log@) =~= payloads_view(log@) + added);
                            return (Err(e), log);
                        },
                    };
                    Self::log_payload(&mut log, &fields, kind);
                    proof {
                        assert(payloads_view(log@) =~= payloads_view(before) + added);
                    }
                    k = k + 1;
                }
                (Ok(fields), log)
            },
            RespValue::Dict(pairs) => {
                let n: usize = pairs.len();
                let mut fields = Self::empty();
                let mut k: usize = 0;
                while k < n
                    invariant
                        n == pairs@.len(),
                        fields_of(*v) == fields_of_map(pairs@, n as nat),
                        field_payloads(*v) == payloads_of_map(pairs@, n as nat),
                        k <= n,
                        fields_of_map(pairs@, k as nat) == Ok::<FieldsView, DecodeError>(fields@),
                        payloads_view(log@) == payloads_of_map(pairs@, k as nat),
                    decreases n - k,
                {
                    let ghost step = with_map_pair(fields@, pairs@[k as int].0, pairs@[k as int].1);
                    let ghost added = map_pair_payload(pairs@[k as int].0, pairs@[k as int].1);
                    let ghost before = log@;
                    proof {
                        assert(fields_of_map(pairs@, (k + 1) as nat) == step);
                        assert(payloads_of_map(pairs@, (k + 1) as nat) == payloads_view(log@)
                            + added);
                        if step is Err {
                            lemma_map_error_persists(pairs@, (k + 1) as nat, n as nat);
                            lemma_map_payloads_persist(pairs@, (k + 1) as nat, n as nat);
                        }
                    }
                    let kind = match parse_field_name(&pairs[k].0) {
                        Ok(kind) => kind,
                        Err(e) => {
                            assert(added =~= Seq::<PayloadView>::empty());
                            assert(payloads_view(log@) =~= payloads_view(log@) + added);
                            return (Err(e), log);
                        },
                    };
                    fields = match fields.with_field(kind, &pairs[k].1) {
                        Ok(f) => f,
                        Err(e) => {
                            assert(added =~= Seq::<PayloadView>::empty());
                            assert(payloads_view(log@) =~= payloads_view(log@) + added);
                            return (Err(e), log);
                        },
                    };
                    Self::log_payload(&mut log, &fields, kind);
                    proof {
                        assert(payloads_view(log@) =~= payloads_view(before) + added);
                    }
                    k = k + 1;
                }
                (Ok(fields), log)
            },
            _ => (Ok(Self::empty()), log),
        }
    }

    /// Appends to `log` the payload that setting field `kind` handed over:
    /// the request or response text these fields now hold.
    fn log_payload(log: &mut Vec<(StoredField, String)>, fields: &Self, kind: StoredField)
        ensures
            payloads_view(final(log)@) == payloads_view(old(log)@) + match kind {
                StoredField::EncodedRequest => match fields@.request {
                    Some(t) => seq![(kind, t)],
                    None => Seq::empty(),
                },
                StoredField::EncodedResponse => match fields@.response {
                    Some(t) => seq![(kind, t)],
                    None => Seq::empty(),
                },
                StoredField::PromptVec => Seq::<PayloadView>::empty(),
            },
    {
        let ghost before = log@;
        match kind {
            StoredField::EncodedRequest => match &fields.request {
                Some(t) => log.push((kind, t.clone())),
                None => {},
            },
            StoredField::EncodedResponse => match &fields.response {
                Some(t) => log.push((kind, t.clone())),
                None => {},
            },
            StoredField::PromptVec => {},
        }
        assert(payloads_view(log@) =~= payloads_view(before) + match kind {
            StoredField::EncodedRequest => match fields@.request {
                Some(t) => seq![(kind, t)],
                None => Seq::empty(),
            },
            StoredField::EncodedResponse => match fields@.response {
                Some(t) => seq![(kind, t)],
                None => Seq::empty(),
            },
            StoredField::PromptVec => Seq::<PayloadView>::empty(),
        });
    }
}

impl SearchDocument {
    /// The document a value gives: see `document_of`.
    pub fn from_value(v: &RespValue) -> (r: Result<Self, DecodeError>)
        ensures
            agrees(r, document_of(*v)),
    {
        Self::from_value_with_payloads(v).0
    }

    /// The document a value gives, with the JSON payloads met on the way, in
    /// order: see `document_of` and `document_payloads`.
    pub fn from_value_with_payloads(v: &RespValue) -> (r: (
        Result<Self, DecodeError>,
        Vec<(StoredField, String)>,
    ))
        ensures
            agrees(r.0, document_of(*v)),
            payloads_view(r.1@) == document_payloads(*v),
    {
        let none: Vec<(StoredField, String)> = Vec::new();
        assert(payloads_view(none@) =~= Seq::<PayloadView>::empty());
        match v {
            RespValue::Array(items) => {
                if items.len() == 0 {
                    return (Err(DecodeError::EmptyDocumentArray), none);
                }
                let id = match &items[0] {
                    Ok(idv) => match parse_text_value(idv) {
                        Ok(id) => id,
                        Err(e) => {
                            return (Err(e), none);
                        },
                    },
                    Err(_) => {
                        return (Err(DecodeError::InvalidDocumentId), none);
                    },
                };
                let nil = RespValue::Nil;
                let fields_value: &RespValue = if items.len() > 1 {
                    match &items[1] {
                        Ok(fv) => fv,
                        Err(_) => &nil,
                    }
                } else {
                    &nil
                };
                assert(*fields_value == document_fields_value(items@));
                let (fields, log) = SearchDocumentFields::from_value_with_payloads(fields_value);
                match fields {
                    Ok(fields) => (
                        Ok(
                            SearchDocument {
                                id,
                                request: fields.request,
                                response: fields.response,
                                embedding: fields.embedding,
                            },
                        ),
                        log,
                    ),
                    Err(e) => (Err(e), log),
                }
            },
            RespValue::Dict(pairs) => {
                if pairs.len() == 0 {
                    return (Err(DecodeError::EmptyDocumentMap), none);
                }
                let (fields, log) = SearchDocumentFields::from_value_with_payloads(&pairs[0].1);
                let fields = match fields {
                    Ok(fields) => fields,
                    Err(e) => {
                        return (Err(e), log);
                    },
                };
                match parse_text_value(&pairs[0].0) {
                    Ok(id) => (
                        Ok(
                            SearchDocument {
                                id,
                                request: fields.request,
                                response: fields.response,
                                embedding: fields.embedding,
                            },
                        ),
                        log,
                    ),
                    Err(e) => (Err(e), log),
                }
            },
            _ => match parse_text_value(v) {
                Ok(id) => (Ok(SearchDocument { id, request: None, response: None, embedding: None }), none),
                Err(e) => (Err(e), none),
            },
        }
    }
}

proof fn lemma_documents_error_persists(items: Seq<Result<RespValue, ServerError>>, k: nat, n: nat)
    requires
        k <= n,
        documents_of(items, k) is Err,
    ensures
        documents_of(items, n) == documents_of(items, k),
    decreases n - k,
{
    if k < n {
        lemma_documents_error_persists(items, k, (n - 1) as nat);
    }
}

impl ValkeySearchResult {
    /// The documents that the elements of a reply after the first give, with
    /// the JSON payloads met on the way.
    fn documents_from(items: &Vec<Result<RespValue, ServerError>>) -> (r: (
        Result<Vec<SearchDocument>, DecodeError>,
        Vec<(StoredField, String)>,
    ))
        requires
            items@.len() >= 1,
        ensures
            match r.0 {
                Ok(ds) => documents_of(items@, (items@.len() - 1) as nat) == Ok::<
                    Seq<DocumentView>,
                    DecodeError,
                >(ds@.map_values(|d: SearchDocument| d@)),
                Err(e) => documents_of(items@, (items@.len() - 1) as nat) == Err::<
                    Seq<DocumentView>,
                    DecodeError,
                >(e),
            },
            payloads_view(r.1@) == documents_payloads(items@, (items@.len() - 1) as nat),
    {
        let len: usize = items.len();
        let mut documents: Vec<SearchDocument> = Vec::new();
        let mut log: Vec<(StoredField, String)> = Vec::new();
        assert(documents@.map_values(|d: SearchDocument| d@) =~= Seq::<DocumentView>::empty());
        assert(payloads_view(log@) =~= Seq::<PayloadView>::empty());
        let mut k: usize = 1;
        while k < len
            invariant
                len == items@.len(),
                1 <= k <= len,
                documents_of(items@, (k - 1) as nat) == Ok::<Seq<DocumentView>, DecodeError>(
                    documents@.map_values(|d: SearchDocument| d@),
                ),
                payloads_view(log@) == documents_payloads(items@, (k - 1) as nat),
            decreases len - k,
        {
            let ghost step = documents_of(items@, k as nat);
            let ghost before = log@;
            proof {
                if step is Err {
                    lemma_documents_error_persists(items@, k as nat, (len - 1) as nat);
                    lemma_documents_payloads_persist(items@, k as nat, (len - 1) as nat);
                }
            }
            let document = match &items[k] {
                Ok(dv) => {
                    let (d, mut dlog) = SearchDocument::from_value_with_payloads(dv);
                    let ghost dl = dlog@;
                    log.append(&mut dlog);
                    assert(payloads_view(log@) =~= payloads_view(before) + payloads_view(dl));
                    match d {
                        Ok(d) => d,
                        Err(e) => {
                            return (Err(e), log);
                        },
                    }
                },
                Err(_) => {
                    assert(payloads_view(log@) =~= payloads_view(log@) + Seq::<PayloadView>::empty());
                    return (Err(DecodeError::DocumentUnreadable), log);
                },
            };
            let ghost docs_before = documents@;
            documents.push(document);
            assert(documents@.map_values(|d: SearchDocument| d@) =~= docs_before.map_values(
                |d: SearchDocument| d@,
            ).push(document@));
            k = k + 1;
        }
        (Ok(documents), log)
    }

    /// The search reply a value gives: see `search_of`.
    pub fn from_value(v: &RespValue) -> (r: Result<Self, DecodeError>)
        ensures
            agrees(r, search_of(*v)),
    {
        Self::from_value_with_payloads(v).0
    }

    /// The search reply a value gives, with the JSON payloads met on the
    /// way, in order: see `search_of` and `search_payloads`. Each payload is
    /// met, and is to be decoded, before anything that follows it in the
    /// reply is looked at.
    pub fn from_value_with_payloads(v: &RespValue) -> (r: (
        Result<Self, DecodeError>,
        Vec<(StoredField, String)>,
    ))
        ensures
            agrees(r.0, search_of(*v)),
            payloads_view(r.1@) == search_payloads(*v),
    {
        let none: Vec<(StoredField, String)> = Vec::new();
        assert(payloads_view(none@) =~= Seq::<PayloadView>::empty());
        let items = match v {
            RespValue::Array(items) => items,
            _ => {
                return (Err(DecodeError::NotAnArray), none);
            },
        };
        if items.len() == 0 {
            return (Err(DecodeError::EmptyReply), none);
        }
        let total_results: usize = match &items[0] {
            Ok(tv) => match tv.count() {
                Some(total) => total,
                None => {
                    return (Err(DecodeError::TotalNotCount), none);
                },
            },
            Err(_) => {
                return (Err(DecodeError::TotalUnreadable), none);
            },
        };
        let (documents, log) = Self::documents_from(items);
        match documents {
            Ok(documents) => (Ok(ValkeySearchResult { total_results, documents }), log),
            Err(e) => (Err(e), log),
        }
    }
}

proof fn lemma_documents_count(items: Seq<Result<RespValue, ServerError>>, n: nat)
    ensures
        documents_of(items, n) matches Ok(ds) ==> ds.len() == n,
    decreases n,
{
    if n > 0 {
        lemma_documents_count(items, (n - 1) as nat);
    }
}

/// A decoded reply holds one document for each of its elements after the
/// total count.
pub proof fn law_one_document_per_element(v: RespValue)
    ensures
        search_of(v) matches Ok(found) ==> v matches RespValue::Array(items) && found.documents.len()
            == items@.len() - 1,
{
    if let RespValue::Array(items) = v {
        if items@.len() > 0 {
            lemma_documents_count(items@, (items@.len() - 1) as nat);
        }
    }
}

/// An embedding stored in its encoded form, and read back as a binary string,
/// decodes to the words that were stored, whatever they are.
pub proof fn law_stored_embedding_decodes(v: RespValue, words: Seq<u32>)
    requires
        v matches RespValue::BulkString(b) && b@ == bytes_of_words(words),
    ensures
        embedding_of(v) == Ok::<Seq<u32>, DecodeError>(words),
{
    let bytes = bytes_of_words(words);
    assert(bytes.len() % 4 == 0) by (nonlinear_arith)
        requires
            bytes.len() == words.len() * 4,
    ;
    law_words_bytes_roundtrip(words);
}

/// A reply that holds only a total, as a search of an index with no match
/// gives, decodes to that total and no documents; a total of zero included.
pub proof fn law_reply_without_documents(reply: RespValue, n: i64)
    requires
        reply matches RespValue::Array(items) && items@ == seq![
            Ok::<RespValue, ServerError>(RespValue::Int(n)),
        ],
        0 <= n <= usize::MAX,
    ensures
        search_of(reply) == Ok::<SearchView, DecodeError>(
            SearchView { total_results: n as usize, documents: Seq::empty() },
        ),
{
    crate::resp::law_count_of_integer(n);
}

} // verus!
