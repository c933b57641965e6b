//! The commands the cache sends to Valkey: creating and probing its vector
//! index, storing a request with its embedding and response, and searching for
//! the stored request nearest to a prompt's embedding. Also the key under which
//! a prompt's request is stored.
use vstd::prelude::*;
use vstd::string::StringExecFns;
use vstd::utf8::encode_utf8;

use crate::embedding::{bytes_of_words, encode_words, law_words_bytes_roundtrip, words_of_bytes};

verus! {

/// One argument of a command: text, sent as its UTF-8 bytes, or raw bytes.
#[derive(Debug, PartialEq, Eq)]
pub enum CommandArg {
    Text(String),
    Bytes(Vec<u8>),
}

/// The view of a command argument.
pub enum ArgView {
    Text(Seq<char>),
    Bytes(Seq<u8>),
}

impl View for CommandArg {
    type V = ArgView;

    open spec fn view(&self) -> ArgView {
        match self {
            CommandArg::Text(s) => ArgView::Text(s@),
            CommandArg::Bytes(b) => ArgView::Bytes(b@),
        }
    }
}

/// The bytes that an argument puts on the wire.
pub open spec fn arg_bytes(a: ArgView) -> Seq<u8> {
    match a {
        ArgView::Text(s) => encode_utf8(s),
        ArgView::Bytes(b) => b,
    }
}

/// A command: its name and its arguments, in order.
#[derive(Debug, PartialEq, Eq)]
pub struct Command {
    pub name: String,
    pub args: Vec<CommandArg>,
}

/// The view of a command.
pub struct CommandView {
    pub name: Seq<char>,
    pub args: Seq<ArgView>,
}

impl View for Command {
    type V = CommandView;

    open spec fn view(&self) -> CommandView {
        CommandView { name: self.name@, args: self.args@.map_values(|a: CommandArg| a@) }
    }
}

/// A text argument.
pub open spec fn text(s: &str) -> ArgView {
    ArgView::Text(s@)
}

/// The name of the cache's vector index.
pub open spec fn index_name() -> Seq<char> {
    "idx:cache"@
}

/// The prefix of the keys of stored requests.
pub open spec fn key_prefix() -> Seq<char> {
    "request:"@
}

/// The command that asks whether the cache's index exists.
pub open spec fn index_info_spec() -> CommandView {
    CommandView { name: "FT.INFO"@, args: seq![text("idx:cache")] }
}

/// The command that creates the cache's index: an HNSW vector index over the
/// `prompt_vec` field of the hashes whose key starts with `request:`, of
/// 384-dimensional 32-bit float vectors compared by cosine distance.
pub open spec fn index_create_spec() -> CommandView {
    CommandView {
        name: "FT.CREATE"@,
        args: seq![
            text("idx:cache"),
            text("ON"),
            text("HASH"),
            text("PREFIX"),
            text("1"),
            text("request:"),
            text("SCHEMA"),
            text("prompt_vec"),
            text("VECTOR"),
            text("HNSW"),
            text("6"),
            text("TYPE"),
            text("FLOAT32"),
            text("DIM"),
            text("384"),
            text("DISTANCE_METRIC"),
            text("COSINE"),
        ],
    }
}

/// The command that finds the one stored request nearest to `query`, and
/// returns its embedding, request and response.
pub open spec fn knn_search_spec(query: Seq<u32>) -> CommandView {
    CommandView {
        name: "FT.SEARCH"@,
        args: seq![
            text("idx:cache"),
            text("*=>[KNN 1 @prompt_vec $query_vec]"),
            text("RETURN"),
            text("3"),
            text("prompt_vec"),
            text("encoded_request"),
            text("encoded_response"),
            text("PARAMS"),
            text("2"),
            text("query_vec"),
            ArgView::Bytes(bytes_of_words(query)),
            text("DIALECT"),
            text("2"),
        ],
    }
}

/// The command that sets `field` of the hash at `key` to `value`.
pub open spec fn hset_spec(key: Seq<char>, field: Seq<char>, value: ArgView) -> CommandView {
    CommandView { name: "HSET"@, args: seq![ArgView::Text(key), ArgView::Text(field), value] }
}

/// The commands that store a request: its embedding, its JSON text and its
/// response's JSON text, as three fields of the hash at `key`.
pub open spec fn store_spec(
    key: Seq<char>,
    embedding: Seq<u32>,
    request_json: Seq<char>,
    response_json: Seq<char>,
) -> Seq<CommandView> {
    seq![
        hset_spec(key, "prompt_vec"@, ArgView::Bytes(bytes_of_words(embedding))),
        hset_spec(key, "encoded_request"@, ArgView::Text(request_json)),
        hset_spec(key, "encoded_response"@, ArgView::Text(response_json)),
    ]
}

/// Whether `c` has the Unicode White_Space property.
pub open spec fn is_white_space(c: char) -> bool {
    let u: u32 = c as u32;
    ||| 0x9 <= u <= 0xD
    ||| u == 0x20
    ||| u == 0x85
    ||| u == 0xA0
    ||| u == 0x1680
    ||| 0x2000 <= u <= 0x200A
    ||| u == 0x2028
    ||| u == 0x2029
    ||| u == 0x202F
    ||| u == 0x205F
    ||| u == 0x3000
}

/// The characters of `s` that are not whitespace, in order.
pub open spec fn without_white_space(s: Seq<char>) -> Seq<char>
    decreases s.len(),
{
    if s.len() == 0 {
        s
    } else if is_white_space(s.last()) {
        without_white_space(s.drop_last())
    } else {
        without_white_space(s.drop_last()).push(s.last())
    }
}

/// Calls `char::is_whitespace`: whether `c` has the Unicode White_Space
/// property.
#[verifier::external_body]
fn char_is_whitespace(c: char) -> (r: bool)
    ensures
        r == is_white_space(c),
{
    c.is_whitespace()
}

/// The identifier under which a prompt's request is stored: the prompt with
/// all whitespace removed.
pub fn request_id(prompt: &str) -> (r: String)
    ensures
        r@ == without_white_space(prompt@),
{
    let mut out = String::new();
    let ghost chars = prompt@;
    for c in it: prompt.chars()
        invariant
            it.seq() == chars,
            out@ == without_white_space(chars.take(it.index() as int)),
    {
        assert(chars.take(it.index() + 1).drop_last() =~= chars.take(it.index() as int));
        if !char_is_whitespace(c) {
            crate::resp::push_char(&mut out, c);
        }
    }
    assert(chars.take(chars.len() as int) =~= chars);
    out
}

/// The key of the hash that stores the request with identifier `id`.
pub fn request_key(id: &str) -> (r: String)
    ensures
        r@ == key_prefix() + id@,
{
    let mut key = String::from_str("request:");
    key.append(id);
    key
}

/// A text argument.
fn text_arg(s: &str) -> (r: CommandArg)
    ensures
        r@ == ArgView::Text(s@),
{
    CommandArg::Text(String::from_str(s))
}

/// A command with the given name and arguments.
fn command(name: &str, args: Vec<CommandArg>) -> (r: Command)
    ensures
        r@ == (CommandView { name: name@, args: args@.map_values(|a: CommandArg| a@) }),
{
    Command { name: String::from_str(name), args }
}

/// The command that asks whether the cache's index exists.
pub fn index_info_command() -> (r: Command)
    ensures
        r@ == index_info_spec(),
{
    let args = vec![text_arg("idx:cache")];
    let r = command("FT.INFO", args);
    assert(r@.args =~= index_info_spec().args);
    r
}

/// The command that creates the cache's vector index.
pub fn index_create_command() -> (r: Command)
    ensures
        r@ == index_create_spec(),
{
    let args = vec![
        text_arg("idx:cache"),
        text_arg("ON"),
        text_arg("HASH"),
        text_arg("PREFIX"),
        text_arg("1"),
        text_arg("request:"),
        text_arg("SCHEMA"),
        text_arg("prompt_vec"),
        text_arg("VECTOR"),
        text_arg("HNSW"),
        text_arg("6"),
        text_arg("TYPE"),
        text_arg("FLOAT32"),
        text_arg("DIM"),
        text_arg("384"),
        text_arg("DISTANCE_METRIC"),
        text_arg("COSINE"),
    ];
    let r = command("FT.CREATE", args);
    assert(r@.args =~= index_create_spec().args);
    r
}

/// What index setup still has to send once the index probe has answered:
/// nothing where the probe succeeded (the index exists), else the command
/// that creates the index.
pub fn index_setup_command(probe_succeeded: bool) -> (r: Option<Command>)
    ensures
        match r {
            Some(c) => !probe_succeeded && c@ == index_create_spec(),
            None => probe_succeeded,
        },
{
    if probe_succeeded {
        None
    } else {
        Some(index_create_command())
    }
}

/// The command that finds the stored request nearest to `query`.
pub fn knn_search_command(query: &[u32]) -> (r: Command)
    requires
        query@.len() * 4 <= usize::MAX,
    ensures
        r@ == knn_search_spec(query@),
{
    let args = vec![
        text_arg("idx:cache"),
        text_arg("*=>[KNN 1 @prompt_vec $query_vec]"),
        text_arg("RETURN"),
        text_arg("3"),
        text_arg("prompt_vec"),
        text_arg("encoded_request"),
        text_arg("encoded_response"),
        text_arg("PARAMS"),
        text_arg("2"),
        text_arg("query_vec"),
        CommandArg::Bytes(encode_words(query)),
        text_arg("DIALECT"),
        text_arg("2"),
    ];
    let r = command("FT.SEARCH", args);
    assert(r@.args =~= knn_search_spec(query@).args);
    r
}

/// The command that sets `field` of the hash at `key` to `value`.
fn hset_command(key: &String, field: &str, value: CommandArg) -> (r: Command)
    ensures
        r@ == hset_spec(key@, field@, value@),
{
    let args = vec![CommandArg::Text(key.clone()), text_arg(field), value];
    let r = command("HSET", args);
    assert(r@.args =~= hset_spec(key@, field@, value@).args);
    r
}

/// The commands that store a request under `key`: its embedding, its JSON
/// text and its response's JSON text.
pub fn store_commands(key: &String, embedding: &[u32], request_json: &str, response_json: &str) -> (r:
    Vec<Command>)
    requires
        embedding@.len() * 4 <= usize::MAX,
    ensures
        r@.map_values(|c: Command| c@) == store_spec(
            key@,
            embedding@,
            request_json@,
            response_json@,
        ),
{
    let vector = hset_command(key, "prompt_vec", CommandArg::Bytes(encode_words(embedding)));
    let request = hset_command(key, "encoded_request", text_arg(request_json));
    let response = hset_command(key, "encoded_response", text_arg(response_json));
    let r = vec![vector, request, response];
    assert(r@.map_values(|c: Command| c@) =~= store_spec(
        key@,
        embedding@,
        request_json@,
        response_json@,
    ));
    r
}

/// Every hash the cache stores is covered by the index it creates: its key
/// starts with the prefix the index is declared over, its embedding lies in
/// the field the index reads, and the cache's searches query that index.
pub proof fn law_stored_requests_are_indexed(
    id: Seq<char>,
    embedding: Seq<u32>,
    request_json: Seq<char>,
    response_json: Seq<char>,
    query: Seq<u32>,
)
    ensures
        ({
            let key = key_prefix() + id;
            let writes = store_spec(key, embedding, request_json, response_json);
            let create = index_create_spec();
            &&& create.args[0] == ArgView::Text(index_name())
            &&& create.args[5] == ArgView::Text(key_prefix())
            &&& key_prefix().is_prefix_of(key)
            &&& forall|i: int| 0 <= i < writes.len() ==> #[trigger] writes[i].args[0] == ArgView::Text(key)
            &&& create.args[7] == writes[0].args[1]
            &&& knn_search_spec(query).args[0] == ArgView::Text(index_name())
            &&& knn_search_spec(query).args[4] == create.args[7]
        }),
{
    let key = key_prefix() + id;
    assert(key.take(key_prefix().len() as int) =~= key_prefix());
}

/// The nearest-neighbour search asks for exactly one neighbour of the query
/// and returns every field the store writes, in the order it writes them: the
/// embedding, the request and the response. The query it sends is the query's
/// stored form, which decodes back to the query.
pub proof fn law_search_returns_stored_fields(
    query: Seq<u32>,
    key: Seq<char>,
    embedding: Seq<u32>,
    request_json: Seq<char>,
    response_json: Seq<char>,
)
    ensures
        ({
            let search = knn_search_spec(query);
            let writes = store_spec(key, embedding, request_json, response_json);
            &&& search.name == "FT.SEARCH"@
            &&& search.args.len() == 13
            &&& search.args[2] == ArgView::Text("RETURN"@)
            &&& search.args[3] == ArgView::Text("3"@)
            &&& forall|i: int| 0 <= i < 3 ==> #[trigger] search.args[4 + i] == writes[i].args[1]
            &&& search.args[4] == ArgView::Text("prompt_vec"@)
            &&& search.args[5] == ArgView::Text("encoded_request"@)
            &&& search.args[6] == ArgView::Text("encoded_response"@)
            &&& search.args[9] == ArgView::Text("query_vec"@)
            &&& search.args[10] matches ArgView::Bytes(b) && words_of_bytes(b) == query
        }),
{
    law_words_bytes_roundtrip(query);
}

/// The identifier of a prompt keeps every character that is not whitespace,
/// in order, and drops every whitespace character.
pub proof fn law_request_id_drops_only_whitespace(s: Seq<char>)
    ensures
        without_white_space(s) == s.filter(|c: char| !is_white_space(c)),
        forall|i: int|
            0 <= i < without_white_space(s).len() ==> !is_white_space(
                #[trigger] without_white_space(s)[i],
            ),
    decreases s.len(),
{
    reveal(Seq::filter);
    if s.len() > 0 {
        law_request_id_drops_only_whitespace(s.drop_last());
    }
}

/// Appending a character that is not whitespace to a prompt appends it to the
/// prompt's identifier; appending whitespace leaves the identifier as it was.
pub proof fn law_request_id_extends(s: Seq<char>, c: char)
    ensures
        is_white_space(c) ==> without_white_space(s.push(c)) == without_white_space(s),
        !is_white_space(c) ==> without_white_space(s.push(c)) == without_white_space(s).push(c),
{
    law_request_id_drops_only_whitespace(s);
    law_request_id_drops_only_whitespace(s.push(c));
    reveal(Seq::filter);
    assert(s.push(c).drop_last() =~= s);
}

} // verus!
