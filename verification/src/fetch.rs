//! The decisions of the cache's two fetch paths, each written as a machine
//! from state and event to next state and action. The caller performs each
//! action (a read or write in Valkey, a call to the model, a distance
//! computation) and hands back what came of it as the next event.
//!
//! The exact path keys the cache by the request's JSON text. The approximate
//! path looks up the stored request whose prompt embedding is nearest to the
//! new prompt's, and answers with its response when it is close enough.
use vstd::prelude::*;

use crate::commands::{
    arg_bytes, key_prefix, knn_search_command, ArgView, knn_search_spec, store_commands, store_spec, Command, CommandView,
};
use crate::embedding::bytes_of_words;
use crate::resp::{starts_plain, value_count, RespValue, ServerError};
use crate::search::{
    document_of, documents_of, embedding_of, field_of_name, fields_of, fields_of_array, fields_of_map,
    law_stored_embedding_decodes, no_fields,
    search_of, text_of, DecodeError, DocumentView, FieldsView, SearchDocument, SearchView,
    StoredField, ValkeySearchResult,
};
use vstd::utf8::{encode_utf8, encode_utf8_decode_utf8, encode_utf8_valid_utf8};

verus! {

/// Which model call answers a request.
#[derive(PartialEq, Eq, Structural, Debug, Clone, Copy)]
pub enum GenerationMode {
    /// The request offers tools: the model may answer with function calls.
    WithFunctions,
    /// A plain content generation.
    Content,
}

/// The model call for a request that offers `tool_count` tools (`None` where
/// it names no tool list).
pub fn generation_mode(tool_count: Option<usize>) -> (r: GenerationMode)
    ensures
        r == (match tool_count {
            Some(n) => if n > 0 {
                GenerationMode::WithFunctions
            } else {
                GenerationMode::Content
            },
            None => GenerationMode::Content,
        }),
{
    let count: usize = match tool_count {
        Some(n) => n,
        None => 0,
    };
    if count > 0 {
        GenerationMode::WithFunctions
    } else {
        GenerationMode::Content
    }
}

// ---------------------------------------------------------------------------
// The exact path.
// ---------------------------------------------------------------------------
/// Where an exact fetch stands.
#[derive(Debug, PartialEq, Eq)]
pub enum ExactState {
    /// Waiting for the stored value at `key`.
    Lookup { key: String },
    /// Nothing was stored: waiting for the model's response.
    Generate { key: String },
    /// Waiting for `response` to be stored at `key`.
    Store { key: String, response: String },
    /// Done: `response` is the answer.
    Finished { response: String },
}

/// What the caller reports back to an exact fetch.
#[derive(Debug, PartialEq, Eq)]
pub enum ExactEvent {
    /// The value stored at the looked-up key, if any.
    Found(Option<String>),
    /// The model's response, as JSON text.
    Generated(String),
    /// The last write completed.
    Saved,
}

/// What an exact fetch asks the caller to do.
#[derive(Debug, PartialEq, Eq)]
pub enum ExactAction {
    /// Read the value stored at `key`.
    Get { key: String },
    /// Call the model on the request.
    CallModel,
    /// Store `value` at `key`.
    Put { key: String, value: String },
    /// Answer with `response`, the JSON text of the model's response.
    Respond { response: String },
}

/// The view of an exact fetch's state.
pub enum ExactStateView {
    Lookup(Seq<char>),
    Generate(Seq<char>),
    Store(Seq<char>, Seq<char>),
    Finished(Seq<char>),
}

/// The view of an exact fetch's event.
pub enum ExactEventView {
    Found(Option<Seq<char>>),
    Generated(Seq<char>),
    Saved,
}

/// The view of an exact fetch's action.
pub enum ExactActionView {
    Get(Seq<char>),
    CallModel,
    Put(Seq<char>, Seq<char>),
    Respond(Seq<char>),
}

impl View for ExactState {
    type V = ExactStateView;

    open spec fn view(&self) -> ExactStateView {
        match self {
            ExactState::Lookup { key } => ExactStateView::Lookup(key@),
            ExactState::Generate { key } => ExactStateView::Generate(key@),
            ExactState::Store { key, response } => ExactStateView::Store(key@, response@),
            ExactState::Finished { response } => ExactStateView::Finished(response@),
        }
    }
}

impl View for ExactEvent {
    type V = ExactEventView;

    open spec fn view(&self) -> ExactEventView {
        match self {
            ExactEvent::Found(v) => ExactEventView::Found(
                match v {
                    Some(s) => Some(s@),
                    None => None,
                },
            ),
            ExactEvent::Generated(s) => ExactEventView::Generated(s@),
            ExactEvent::Saved => ExactEventView::Saved,
        }
    }
}

impl View for ExactAction {
    type V = ExactActionView;

    open spec fn view(&self) -> ExactActionView {
        match self {
            ExactAction::Get { key } => ExactActionView::Get(key@),
            ExactAction::CallModel => ExactActionView::CallModel,
            ExactAction::Put { key, value } => ExactActionView::Put(key@, value@),
            ExactAction::Respond { response } => ExactActionView::Respond(response@),
        }
    }
}

/// The first step of an exact fetch of the request whose JSON text is `key`.
pub open spec fn exact_start_spec(key: Seq<char>) -> (ExactStateView, ExactActionView) {
    (ExactStateView::Lookup(key), ExactActionView::Get(key))
}

/// The step an exact fetch takes on an event; `None` where the event does not
/// answer the action last asked for.
pub open spec fn exact_next_spec(s: ExactStateView, e: ExactEventView) -> Option<
    (ExactStateView, ExactActionView),
> {
    match (s, e) {
        (ExactStateView::Lookup(_), ExactEventView::Found(Some(v))) => Some(
            (ExactStateView::Finished(v), ExactActionView::Respond(v)),
        ),
        (ExactStateView::Lookup(key), ExactEventView::Found(None)) => Some(
            (ExactStateView::Generate(key), ExactActionView::CallModel),
        ),
        (ExactStateView::Generate(key), ExactEventView::Generated(r)) => Some(
            (ExactStateView::Store(key, r), ExactActionView::Put(key, r)),
        ),
        (ExactStateView::Store(_, r), ExactEventView::Saved) => Some(
            (ExactStateView::Finished(r), ExactActionView::Respond(r)),
        ),
        _ => None,
    }
}

/// The views of an optional step.
pub open spec fn exact_step_view(r: Option<(ExactState, ExactAction)>) -> Option<
    (ExactStateView, ExactActionView),
> {
    match r {
        Some((s, a)) => Some((s@, a@)),
        None => None,
    }
}

/// Starts an exact fetch of the request whose JSON text is `key`.
pub fn exact_start(key: String) -> (r: (ExactState, ExactAction))
    ensures
        (r.0@, r.1@) == exact_start_spec(key@),
{
    let action = ExactAction::Get { key: key.clone() };
    (ExactState::Lookup { key }, action)
}

impl ExactState {
    /// The step this fetch takes on `event`: see `exact_next_spec`.
    pub fn next(self, event: ExactEvent) -> (r: Option<(ExactState, ExactAction)>)
        ensures
            exact_step_view(r) == exact_next_spec(self@, event@),
    {
        match (self, event) {
            (ExactState::Lookup { key: _ }, ExactEvent::Found(Some(v))) => {
                let action = ExactAction::Respond { response: v.clone() };
                Some((ExactState::Finished { response: v }, action))
            },
            (ExactState::Lookup { key }, ExactEvent::Found(None)) => {
                Some((ExactState::Generate { key }, ExactAction::CallModel))
            },
            (ExactState::Generate { key }, ExactEvent::Generated(r)) => {
                let action = ExactAction::Put { key: key.clone(), value: r.clone() };
                Some((ExactState::Store { key, response: r }, action))
            },
            (ExactState::Store { key: _, response }, ExactEvent::Saved) => {
                let action = ExactAction::Respond { response: response.clone() };
                Some((ExactState::Finished { response }, action))
            },
            _ => None,
        }
    }
}

/// A store of values by key, as the cache sees Valkey: a read gives back what
/// the last write to the key wrote.
pub type StoreModel = Map<Seq<char>, Seq<char>>;

/// What a read of `key` finds in `store`.
pub open spec fn read(store: StoreModel, key: Seq<char>) -> Option<Seq<char>> {
    if store.contains_key(key) {
        Some(store[key])
    } else {
        None
    }
}

/// One exact fetch of `key` run to its end against `store`, where a call to
/// the model gives `generated`: the answer and the store afterwards. Each
/// action is performed as the caller performs it: a read reads the key the
/// read action names, a write writes the key and value the write action
/// names; `None` where the machine stopped without an answer.
pub open spec fn exact_run(store: StoreModel, key: Seq<char>, generated: Seq<char>) -> Option<
    (Seq<char>, StoreModel),
> {
    let (s0, a0) = exact_start_spec(key);
    match a0 {
        ExactActionView::Get(looked_up) => match exact_next_spec(
            s0,
            ExactEventView::Found(read(store, looked_up)),
        ) {
            Some((_, ExactActionView::Respond(r))) => Some((r, store)),
            Some((s1, ExactActionView::CallModel)) => match exact_next_spec(
                s1,
                ExactEventView::Generated(generated),
            ) {
                Some((s2, ExactActionView::Put(k, v))) => match exact_next_spec(
                    s2,
                    ExactEventView::Saved,
                ) {
                    Some((_, ExactActionView::Respond(r))) => Some((r, store.insert(k, v))),
                    _ => None,
                },
                _ => None,
            },
            _ => None,
        },
        _ => None,
    }
}

/// An exact fetch first reads the request's own key. It answers with the
/// stored response when the request is cached, and otherwise with the model's
/// response, which it stores under that same key.
pub proof fn law_exact_fetch_reads_through(store: StoreModel, key: Seq<char>, generated: Seq<char>)
    ensures
        exact_start_spec(key).1 == ExactActionView::Get(key),
        exact_run(store, key, generated) == Some(
            if store.contains_key(key) {
                (store[key], store)
            } else {
                (generated, store.insert(key, generated))
            },
        ),
{
}

/// Fetching the same request twice gives the same answer, and the second
/// fetch leaves the store as the first left it.
pub proof fn law_exact_fetch_repeats(
    store: StoreModel,
    key: Seq<char>,
    first_generated: Seq<char>,
    second_generated: Seq<char>,
)
    ensures
        ({
            let (first, after) = exact_run(store, key, first_generated).unwrap();
            let (second, after_second) = exact_run(after, key, second_generated).unwrap();
            second == first && after_second == after
        }),
{
    law_exact_fetch_reads_through(store, key, first_generated);
    let (first, after) = exact_run(store, key, first_generated).unwrap();
    law_exact_fetch_reads_through(after, key, second_generated);
}

// ---------------------------------------------------------------------------
// The approximate path.
// ---------------------------------------------------------------------------
/// Why an approximate fetch failed.
#[derive(PartialEq, Eq, Structural, Debug, Clone, Copy)]
pub enum ApproxError {
    /// The search reply could not be decoded.
    Decode(DecodeError),
    /// The nearest stored request came without its response.
    MissingResponse,
}

/// The nearest stored request that a search found: its response, as JSON
/// text, and its prompt's embedding.
#[derive(Debug, PartialEq, Eq)]
pub struct Candidate {
    pub response: String,
    pub embedding: Vec<u32>,
}

/// What the documents of a search reply offer as the nearest stored request:
/// nothing where there is no document or the first one has no embedding, a
/// failure where it has no response, else its response and embedding.
pub open spec fn candidate_of(documents: Seq<DocumentView>) -> Result<
    Option<(Seq<char>, Seq<u32>)>,
    ApproxError,
> {
    if documents.len() == 0 {
        Ok(None)
    } else {
        match documents[0].response {
            None => Err(ApproxError::MissingResponse),
            Some(r) => match documents[0].embedding {
                None => Ok(None),
                Some(w) => Ok(Some((r, w))),
            },
        }
    }
}

/// The nearest stored request that a decoded search reply offers: see
/// `candidate_of`.
pub fn nearest_candidate(result: &ValkeySearchResult) -> (r: Result<Option<Candidate>, ApproxError>)
    ensures
        candidate_of(result@.documents) == match r {
            Ok(Some(c)) => Ok(Some((c.response@, c.embedding@))),
            Ok(None) => Ok(None),
            Err(e) => Err::<Option<(Seq<char>, Seq<u32>)>, ApproxError>(e),
        },
{
    if result.documents.len() == 0 {
        return Ok(None);
    }
    let document: &SearchDocument = &result.documents[0];
    assert(result@.documents[0] == document@);
    let response = match &document.response {
        Some(r) => r.clone(),
        None => {
            return Err(ApproxError::MissingResponse);
        },
    };
    match &document.embedding {
        Some(w) => Ok(Some(Candidate { response, embedding: w.clone() })),
        None => Ok(None),
    }
}

/// Where an approximate fetch stands. Each state keeps the key under which
/// the request would be stored and the embedding of its prompt.
#[derive(Debug, PartialEq, Eq)]
pub enum ApproxState {
    /// Waiting for the reply to the nearest-neighbour search.
    Search { key: String, embedding: Vec<u32> },
    /// Waiting to learn whether the candidate, whose response is `response`,
    /// is close enough.
    Measure { key: String, embedding: Vec<u32>, response: String },
    /// No stored request is close enough: waiting for the model's response.
    Generate { key: String, embedding: Vec<u32> },
    /// Waiting for the request and `response` to be stored.
    Store { response: String },
    /// Done: `response` is the answer.
    Finished { response: String },
    /// Done, with an error.
    Failed,
}

/// What the caller reports back to an approximate fetch.
#[derive(Debug, PartialEq, Eq)]
pub enum ApproxEvent {
    /// The decoded reply to the search.
    Searched(Result<ValkeySearchResult, DecodeError>),
    /// Whether the candidate's embedding lies within the allowed distance of
    /// the prompt's.
    Measured(bool),
    /// The model's response to the request, with the request, as JSON texts.
    Generated { request_json: String, response_json: String },
    /// The last writes completed.
    Saved,
}

/// What an approximate fetch asks the caller to do.
#[derive(Debug, PartialEq, Eq)]
pub enum ApproxAction {
    /// Send the nearest-neighbour search.
    Search(Command),
    /// Compare the prompt's embedding with `stored`, the candidate's.
    MeasureDistance { stored: Vec<u32> },
    /// Call the model on the request.
    CallModel,
    /// Send these commands, in order.
    Write(Vec<Command>),
    /// Answer with `response`, the JSON text of a model's response.
    Respond { response: String },
    /// Give up with this error.
    Fail(ApproxError),
}

/// The view of an approximate fetch's state.
pub enum ApproxStateView {
    Search(Seq<char>, Seq<u32>),
    Measure(Seq<char>, Seq<u32>, Seq<char>),
    Generate(Seq<char>, Seq<u32>),
    Store(Seq<char>),
    Finished(Seq<char>),
    Failed,
}

/// The view of an approximate fetch's event.
pub enum ApproxEventView {
    Searched(Result<SearchView, DecodeError>),
    Measured(bool),
    Generated(Seq<char>, Seq<char>),
    Saved,
}

/// The view of an approximate fetch's action.
pub enum ApproxActionView {
    Search(CommandView),
    MeasureDistance(Seq<u32>),
    CallModel,
    Write(Seq<CommandView>),
    Respond(Seq<char>),
    Fail(ApproxError),
}

impl View for ApproxState {
    type V = ApproxStateView;

    open spec fn view(&self) -> ApproxStateView {
        match self {
            ApproxState::Search { key, embedding } => ApproxStateView::Search(key@, embedding@),
            ApproxState::Measure { key, embedding, response } => ApproxStateView::Measure(
                key@,
                embedding@,
                response@,
            ),
            ApproxState::Generate { key, embedding } => ApproxStateView::Generate(key@, embedding@),
            ApproxState::Store { response } => ApproxStateView::Store(response@),
            ApproxState::Finished { response } => ApproxStateView::Finished(response@),
            ApproxState::Failed => ApproxStateView::Failed,
        }
    }
}

impl View for ApproxEvent {
    type V = ApproxEventView;

    open spec fn view(&self) -> ApproxEventView {
        match self {
            ApproxEvent::Searched(r) => ApproxEventView::Searched(
                match r {
                    Ok(res) => Ok(res@),
                    Err(e) => Err(*e),
                },
            ),
            ApproxEvent::Measured(b) => ApproxEventView::Measured(*b),
            ApproxEvent::Generated { request_json, response_json } => ApproxEventView::Generated(
                request_json@,
                response_json@,
            ),
            ApproxEvent::Saved => ApproxEventView::Saved,
        }
    }
}

impl View for ApproxAction {
    type V = ApproxActionView;

    open spec fn view(&self) -> ApproxActionView {
        match self {
            ApproxAction::Search(c) => ApproxActionView::Search(c@),
            ApproxAction::MeasureDistance { stored } => ApproxActionView::MeasureDistance(stored@),
            ApproxAction::CallModel => ApproxActionView::CallModel,
            ApproxAction::Write(cs) => ApproxActionView::Write(cs@.map_values(|c: Command| c@)),
            ApproxAction::Respond { response } => ApproxActionView::Respond(response@),
            ApproxAction::Fail(e) => ApproxActionView::Fail(*e),
        }
    }
}

/// Whether an embedding's stored form fits in memory.
pub open spec fn embedding_fits(w: Seq<u32>) -> bool {
    w.len() * 4 <= usize::MAX
}

impl ApproxStateView {
    /// Every embedding the state keeps fits in memory in its stored form.
    pub open spec fn wf(self) -> bool {
        match self {
            ApproxStateView::Search(_, w) => embedding_fits(w),
            ApproxStateView::Measure(_, w, _) => embedding_fits(w),
            ApproxStateView::Generate(_, w) => embedding_fits(w),
            _ => true,
        }
    }
}

/// The first step of an approximate fetch that would store the request at
/// `key`, for a prompt of embedding `embedding`.
pub open spec fn approx_start_spec(key: Seq<char>, embedding: Seq<u32>) -> (
    ApproxStateView,
    ApproxActionView,
) {
    (ApproxStateView::Search(key, embedding), ApproxActionView::Search(knn_search_spec(embedding)))
}

/// The step an approximate fetch takes on an event; `None` where the event
/// does not answer the action last asked for.
pub open spec fn approx_next_spec(s: ApproxStateView, e: ApproxEventView) -> Option<
    (ApproxStateView, ApproxActionView),
> {
    match (s, e) {
        (ApproxStateView::Search(_, _), ApproxEventView::Searched(Err(d))) => Some(
            (ApproxStateView::Failed, ApproxActionView::Fail(ApproxError::Decode(d))),
        ),
        (ApproxStateView::Search(k, w), ApproxEventView::Searched(Ok(res))) => match candidate_of(
            res.documents,
        ) {
            Err(x) => Some((ApproxStateView::Failed, ApproxActionView::Fail(x))),
            Ok(None) => Some((ApproxStateView::Generate(k, w), ApproxActionView::CallModel)),
            Ok(Some((r, stored))) => Some(
                (ApproxStateView::Measure(k, w, r), ApproxActionView::MeasureDistance(stored)),
            ),
        },
        (ApproxStateView::Measure(_, _, r), ApproxEventView::Measured(true)) => Some(
            (ApproxStateView::Finished(r), ApproxActionView::Respond(r)),
        ),
        (ApproxStateView::Measure(k, w, _), ApproxEventView::Measured(false)) => Some(
            (ApproxStateView::Generate(k, w), ApproxActionView::CallModel),
        ),
        (ApproxStateView::Generate(k, w), ApproxEventView::Generated(req, resp)) => Some(
            (ApproxStateView::Store(resp), ApproxActionView::Write(store_spec(k, w, req, resp))),
        ),
        (ApproxStateView::Store(r), ApproxEventView::Saved) => Some(
            (ApproxStateView::Finished(r), ApproxActionView::Respond(r)),
        ),
        _ => None,
    }
}

/// The views of an optional step.
pub open spec fn approx_step_view(r: Option<(ApproxState, ApproxAction)>) -> Option<
    (ApproxStateView, ApproxActionView),
> {
    match r {
        Some((s, a)) => Some((s@, a@)),
        None => None,
    }
}

/// Starts an approximate fetch that would store the request at `key`, for a
/// prompt of embedding `embedding`.
pub fn approx_start(key: String, embedding: Vec<u32>) -> (r: (ApproxState, ApproxAction))
    requires
        embedding_fits(embedding@),
    ensures
        (r.0@, r.1@) == approx_start_spec(key@, embedding@),
        r.0@.wf(),
{
    let search = knn_search_command(embedding.as_slice());
    (ApproxState::Search { key, embedding }, ApproxAction::Search(search))
}

impl ApproxState {
    /// The step this fetch takes on `event`: see `approx_next_spec`.
    pub fn next(self, event: ApproxEvent) -> (r: Option<(ApproxState, ApproxAction)>)
        requires
            self@.wf(),
        ensures
            approx_step_view(r) == approx_next_spec(self@, event@),
            r matches Some((s, _)) ==> s@.wf(),
    {
        match (self, event) {
            (ApproxState::Search { key: _, embedding: _ }, ApproxEvent::Searched(Err(d))) => {
                Some((ApproxState::Failed, ApproxAction::Fail(ApproxError::Decode(d))))
            },
            (ApproxState::Search { key, embedding }, ApproxEvent::Searched(Ok(res))) => {
                match nearest_candidate(&res) {
                    Err(x) => Some((ApproxState::Failed, ApproxAction::Fail(x))),
                    Ok(None) => Some((ApproxState::Generate { key, embedding }, ApproxAction::CallModel)),
                    Ok(Some(c)) => Some(
                        (
                            ApproxState::Measure { key, embedding, response: c.response },
                            ApproxAction::MeasureDistance { stored: c.embedding },
                        ),
                    ),
                }
            },
            (ApproxState::Measure { key, embedding, response }, ApproxEvent::Measured(within)) => {
                if within {
                    let action = ApproxAction::Respond { response: response.clone() };
                    Some((ApproxState::Finished { response }, action))
                } else {
                    Some((ApproxState::Generate { key, embedding }, ApproxAction::CallModel))
                }
            },
            (
                ApproxState::Generate { key, embedding },
                ApproxEvent::Generated { request_json, response_json },
            ) => {
                let writes = store_commands(
                    &key,
                    embedding.as_slice(),
                    request_json.as_str(),
                    response_json.as_str(),
                );
                Some((ApproxState::Store { response: response_json }, ApproxAction::Write(writes)))
            },
            (ApproxState::Store { response }, ApproxEvent::Saved) => {
                let action = ApproxAction::Respond { response: response.clone() };
                Some((ApproxState::Finished { response }, action))
            },
            _ => None,
        }
    }
}

// ---------------------------------------------------------------------------
// What a later search finds of what an approximate fetch stored.
// ---------------------------------------------------------------------------
/// Whether a reply element is a binary string holding exactly `bytes`.
pub open spec fn echoes(entry: Result<RespValue, ServerError>, bytes: Seq<u8>) -> bool {
    entry matches Ok(RespValue::BulkString(b)) && b@ == bytes
}

/// Whether a reply value is a binary string holding exactly `bytes`.
pub open spec fn echoes_value(v: RespValue, bytes: Seq<u8>) -> bool {
    v matches RespValue::BulkString(b) && b@ == bytes
}

/// Whether `doc` is a search document, given as an array, that gives back
/// the hash that `writes` (three field writes to one key) stored: the key,
/// then the three fields' names and values in the order they were written,
/// each as the bytes that were sent.
pub open spec fn echoes_stored_hash(doc: RespValue, writes: Seq<CommandView>) -> bool {
    &&& writes.len() == 3
    &&& doc matches RespValue::Array(items)
    &&& items@.len() == 2
    &&& echoes(items@[0], arg_bytes(writes[0].args[0]))
    &&& items@[1] matches Ok(RespValue::Array(fields))
    &&& fields@.len() == 6
    &&& forall|i: int|
        0 <= i < 3 ==> echoes(#[trigger] fields@[2 * i], arg_bytes(writes[i].args[1])) && echoes(
            fields@[2 * i + 1],
            arg_bytes(writes[i].args[2]),
        )
}

/// Whether `doc` is a search document, given as a map from the key to a map
/// of the fields, that gives back the hash that `writes` stored.
pub open spec fn echoes_stored_hash_map(doc: RespValue, writes: Seq<CommandView>) -> bool {
    &&& writes.len() == 3
    &&& doc matches RespValue::Dict(pairs)
    &&& pairs@.len() == 1
    &&& echoes_value(pairs@[0].0, arg_bytes(writes[0].args[0]))
    &&& pairs@[0].1 matches RespValue::Dict(fields)
    &&& fields@.len() == 3
    &&& forall|i: int|
        0 <= i < 3 ==> echoes_value(#[trigger] fields@[i].0, arg_bytes(writes[i].args[1]))
            && echoes_value(fields@[i].1, arg_bytes(writes[i].args[2]))
}

/// Whether `reply` is a search reply with a readable total and one document,
/// in either form, which gives back the hash that `writes` stored.
pub open spec fn replies_with_stored_hash(reply: RespValue, writes: Seq<CommandView>) -> bool {
    &&& reply matches RespValue::Array(items)
    &&& items@.len() == 2
    &&& items@[0] matches Ok(t)
    &&& value_count(t) is Some
    &&& items@[1] matches Ok(doc)
    &&& (echoes_stored_hash(doc, writes) || echoes_stored_hash_map(doc, writes))
}

proof fn lemma_echoed_text(v: RespValue, s: Seq<char>)
    requires
        echoes_value(v, encode_utf8(s)),
        starts_plain(s),
    ensures
        text_of(v) == Ok::<Seq<char>, DecodeError>(s),
{
    encode_utf8_valid_utf8(s);
    encode_utf8_decode_utf8(s);
}

/// The fields of the stored hash, read from its three written fields.
proof fn lemma_stored_fields(
    names: Seq<RespValue>,
    values: Seq<RespValue>,
    embedding: Seq<u32>,
    request_json: Seq<char>,
    response_json: Seq<char>,
)
    requires
        names.len() == 3,
        values.len() == 3,
        echoes_value(names[0], encode_utf8("prompt_vec"@)),
        echoes_value(names[1], encode_utf8("encoded_request"@)),
        echoes_value(names[2], encode_utf8("encoded_response"@)),
        echoes_value(values[0], bytes_of_words(embedding)),
        echoes_value(values[1], encode_utf8(request_json)),
        echoes_value(values[2], encode_utf8(response_json)),
        starts_plain(request_json),
        starts_plain(response_json),
    ensures
        field_of_name(names[0]) == Ok::<StoredField, DecodeError>(StoredField::PromptVec),
        field_of_name(names[1]) == Ok::<StoredField, DecodeError>(StoredField::EncodedRequest),
        field_of_name(names[2]) == Ok::<StoredField, DecodeError>(StoredField::EncodedResponse),
        embedding_of(values[0]) == Ok::<Seq<u32>, DecodeError>(embedding),
        text_of(values[1]) == Ok::<Seq<char>, DecodeError>(request_json),
        text_of(values[2]) == Ok::<Seq<char>, DecodeError>(response_json),
{
    reveal_strlit("prompt_vec");
    reveal_strlit("encoded_request");
    reveal_strlit("encoded_response");
    lemma_echoed_text(names[0], "prompt_vec"@);
    lemma_echoed_text(names[1], "encoded_request"@);
    lemma_echoed_text(names[2], "encoded_response"@);
    lemma_echoed_text(values[1], request_json);
    lemma_echoed_text(values[2], response_json);
    assert("prompt_vec"@ != "encoded_request"@);
    assert("prompt_vec"@ != "encoded_response"@);
    assert("encoded_response"@ != "encoded_request"@);
    law_stored_embedding_decodes(values[0], embedding);
}

/// The document a search gives back for the stored hash, in either form.
proof fn lemma_stored_document(
    doc: RespValue,
    id: Seq<char>,
    embedding: Seq<u32>,
    request_json: Seq<char>,
    response_json: Seq<char>,
)
    requires
        ({
            let writes = store_spec(key_prefix() + id, embedding, request_json, response_json);
            echoes_stored_hash(doc, writes) || echoes_stored_hash_map(doc, writes)
        }),
        starts_plain(request_json),
        starts_plain(response_json),
    ensures
        document_of(doc) == Ok::<DocumentView, DecodeError>(
            DocumentView {
                id: key_prefix() + id,
                request: Some(request_json),
                response: Some(response_json),
                embedding: Some(embedding),
            },
        ),
{
    reveal_strlit("request:");
    let key = key_prefix() + id;
    assert(key[0] == 'r');
    let writes = store_spec(key, embedding, request_json, response_json);
    let f1 = FieldsView { request: None, response: None, embedding: Some(embedding) };
    let f2 = FieldsView { request: Some(request_json), ..f1 };
    let f3 = FieldsView { response: Some(response_json), ..f2 };
    if echoes_stored_hash(doc, writes) {
        let ditems = doc->Array_0;
        let fields = ditems@[1]->Ok_0->Array_0;
        assert(echoes(fields@[0], arg_bytes(writes[0].args[1])));
        assert(echoes(fields@[2], arg_bytes(writes[1].args[1])));
        assert(echoes(fields@[4], arg_bytes(writes[2].args[1])));
        let names = seq![fields@[0]->Ok_0, fields@[2]->Ok_0, fields@[4]->Ok_0];
        let values = seq![fields@[1]->Ok_0, fields@[3]->Ok_0, fields@[5]->Ok_0];
        lemma_stored_fields(names, values, embedding, request_json, response_json);
        lemma_echoed_text(ditems@[0]->Ok_0, key);
        assert(fields_of_array(fields@, 0) == Ok::<FieldsView, DecodeError>(no_fields()));
        assert(fields_of_array(fields@, 1) == Ok::<FieldsView, DecodeError>(f1));
        assert(fields_of_array(fields@, 2) == Ok::<FieldsView, DecodeError>(f2));
        assert(fields_of_array(fields@, 3) == Ok::<FieldsView, DecodeError>(f3));
        assert(fields_of(ditems@[1]->Ok_0) == Ok::<FieldsView, DecodeError>(f3));
    } else {
        let pairs = doc->Dict_0;
        let fields = pairs@[0].1->Dict_0;
        assert(echoes_value(fields@[0].0, arg_bytes(writes[0].args[1])));
        assert(echoes_value(fields@[1].0, arg_bytes(writes[1].args[1])));
        assert(echoes_value(fields@[2].0, arg_bytes(writes[2].args[1])));
        let names = seq![fields@[0].0, fields@[1].0, fields@[2].0];
        let values = seq![fields@[0].1, fields@[1].1, fields@[2].1];
        lemma_stored_fields(names, values, embedding, request_json, response_json);
        lemma_echoed_text(pairs@[0].0, key);
        assert(fields_of_map(fields@, 0) == Ok::<FieldsView, DecodeError>(no_fields()));
        assert(fields_of_map(fields@, 1) == Ok::<FieldsView, DecodeError>(f1));
        assert(fields_of_map(fields@, 2) == Ok::<FieldsView, DecodeError>(f2));
        assert(fields_of_map(fields@, 3) == Ok::<FieldsView, DecodeError>(f3));
        assert(fields_of(pairs@[0].1) == Ok::<FieldsView, DecodeError>(f3));
    }
}

/// A search that finds the hash an approximate fetch stored, as a document
/// in either the array or the map form, gives back what was stored: the
/// key, the request and response texts, and the embedding. An approximate
/// fetch that gets this reply, and finds the stored embedding close enough,
/// answers with the stored response. The request and response texts are JSON
/// as the cache writes them: they start with neither a double quote nor
/// whitespace.
pub proof fn law_stored_request_found(
    reply: RespValue,
    id: Seq<char>,
    embedding: Seq<u32>,
    request_json: Seq<char>,
    response_json: Seq<char>,
    search_key: Seq<char>,
    search_embedding: Seq<u32>,
)
    requires
        replies_with_stored_hash(
            reply,
            store_spec(key_prefix() + id, embedding, request_json, response_json),
        ),
        starts_plain(request_json),
        starts_plain(response_json),
    ensures
        ({
            let stored = DocumentView {
                id: key_prefix() + id,
                request: Some(request_json),
                response: Some(response_json),
                embedding: Some(embedding),
            };
            &&& search_of(reply) matches Ok(found) && found.documents == seq![stored]
            &&& candidate_of(seq![stored]) == Ok::<
                Option<(Seq<char>, Seq<u32>)>,
                ApproxError,
            >(Some((response_json, embedding)))
            &&& approx_next_spec(
                ApproxStateView::Search(search_key, search_embedding),
                ApproxEventView::Searched(Ok(search_of(reply)->Ok_0)),
            ) == Some(
                (
                    ApproxStateView::Measure(search_key, search_embedding, response_json),
                    ApproxActionView::MeasureDistance(embedding),
                ),
            )
            &&& approx_next_spec(
                ApproxStateView::Measure(search_key, search_embedding, response_json),
                ApproxEventView::Measured(true),
            ) == Some(
                (ApproxStateView::Finished(response_json), ApproxActionView::Respond(response_json)),
            )
        }),
{
    let items = reply->Array_0;
    let doc = items@[1]->Ok_0;
    lemma_stored_document(doc, id, embedding, request_json, response_json);
    let stored = DocumentView {
        id: key_prefix() + id,
        request: Some(request_json),
        response: Some(response_json),
        embedding: Some(embedding),
    };
    assert(documents_of(items@, 0) == Ok::<Seq<DocumentView>, DecodeError>(Seq::empty()));
    assert(items@[1] == Ok::<RespValue, ServerError>(doc));
    assert(documents_of(items@, 1) == Ok::<Seq<DocumentView>, DecodeError>(
        Seq::<DocumentView>::empty().push(stored),
    ));
    assert(Seq::<DocumentView>::empty().push(stored) =~= seq![stored]);
}

/// When the nearest stored request is not close enough, an approximate fetch
/// calls the model, stores the request, its response and the prompt's
/// embedding under the fetch's key, and answers with the model's response.
pub proof fn law_far_candidate_generates_and_stores(
    key: Seq<char>,
    embedding: Seq<u32>,
    candidate_response: Seq<char>,
    request_json: Seq<char>,
    response_json: Seq<char>,
)
    ensures
        approx_next_spec(
            ApproxStateView::Measure(key, embedding, candidate_response),
            ApproxEventView::Measured(false),
        ) == Some((ApproxStateView::Generate(key, embedding), ApproxActionView::CallModel)),
        approx_next_spec(
            ApproxStateView::Generate(key, embedding),
            ApproxEventView::Generated(request_json, response_json),
        ) == Some(
            (
                ApproxStateView::Store(response_json),
                ApproxActionView::Write(store_spec(key, embedding, request_json, response_json)),
            ),
        ),
        approx_next_spec(ApproxStateView::Store(response_json), ApproxEventView::Saved) == Some(
            (ApproxStateView::Finished(response_json), ApproxActionView::Respond(response_json)),
        ),
{
}

/// Whether `writes` store, under `key` and nothing else, the prompt's
/// embedding `embedding` in its stored form, the request text and the response
/// text, as the three fields a later search returns.
pub open spec fn writes_entry(
    writes: Seq<CommandView>,
    key: Seq<char>,
    embedding: Seq<u32>,
    request_json: Seq<char>,
    response_json: Seq<char>,
) -> bool {
    &&& writes.len() == 3
    &&& forall|i: int|
        0 <= i < 3 ==> #[trigger] writes[i].name == "HSET"@ && writes[i].args.len() == 3
            && writes[i].args[0] == ArgView::Text(key)
    &&& writes[0].args[1] == ArgView::Text("prompt_vec"@)
    &&& writes[0].args[2] == ArgView::Bytes(bytes_of_words(embedding))
    &&& writes[1].args[1] == ArgView::Text("encoded_request"@)
    &&& writes[1].args[2] == ArgView::Text(request_json)
    &&& writes[2].args[1] == ArgView::Text("encoded_response"@)
    &&& writes[2].args[2] == ArgView::Text(response_json)
}

/// An approximate fetch that finds no usable stored request (no document, or
/// none with an embedding) calls the model, then stores the request, the
/// model's response and the prompt's embedding under the very key it was
/// started with, and answers with the model's response. The same holds when
/// the nearest stored request is too far.
pub proof fn law_approx_miss_stores_under_its_key(
    key: Seq<char>,
    embedding: Seq<u32>,
    found: SearchView,
    candidate_response: Seq<char>,
    request_json: Seq<char>,
    response_json: Seq<char>,
)
    requires
        candidate_of(found.documents) == Ok::<Option<(Seq<char>, Seq<u32>)>, ApproxError>(None),
    ensures
        ({
            let (s0, a0) = approx_start_spec(key, embedding);
            let miss = approx_next_spec(s0, ApproxEventView::Searched(Ok(found)));
            let far = approx_next_spec(
                ApproxStateView::Measure(key, embedding, candidate_response),
                ApproxEventView::Measured(false),
            );
            &&& miss == far
            &&& miss matches Some((s1, ApproxActionView::CallModel))
            &&& approx_next_spec(s1, ApproxEventView::Generated(request_json, response_json)) matches Some(
                (s2, ApproxActionView::Write(writes)),
            )
            &&& writes_entry(writes, key, embedding, request_json, response_json)
            &&& approx_next_spec(s2, ApproxEventView::Saved) == Some(
                (ApproxStateView::Finished(response_json), ApproxActionView::Respond(response_json)),
            )
        }),
{
    let writes = store_spec(key, embedding, request_json, response_json);
    assert(writes_entry(writes, key, embedding, request_json, response_json));
}

/// The candidate of a search is decided by its first document alone: none
/// without documents; a failure where that document lacks its response,
/// whatever its embedding; none where it has its response but no embedding;
/// else exactly its response and embedding.
pub proof fn law_candidate_is_first_document(documents: Seq<DocumentView>, rest: Seq<DocumentView>)
    ensures
        candidate_of(Seq::empty()) == Ok::<Option<(Seq<char>, Seq<u32>)>, ApproxError>(None),
        documents.len() > 0 ==> candidate_of(documents) == candidate_of(seq![documents[0]] + rest),
        documents.len() > 0 && documents[0].response is None ==> candidate_of(documents) == Err::<
            Option<(Seq<char>, Seq<u32>)>,
            ApproxError,
        >(ApproxError::MissingResponse),
        documents.len() > 0 && documents[0].response is Some && documents[0].embedding is None
            ==> candidate_of(documents) == Ok::<Option<(Seq<char>, Seq<u32>)>, ApproxError>(None),
        documents.len() > 0 && documents[0].response is Some && documents[0].embedding is Some
            ==> candidate_of(documents) == Ok::<Option<(Seq<char>, Seq<u32>)>, ApproxError>(
            Some((documents[0].response->Some_0, documents[0].embedding->Some_0)),
        ),
{
    if documents.len() > 0 {
        assert((seq![documents[0]] + rest)[0] == documents[0]);
    }
}

} // verus!
