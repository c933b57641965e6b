//! A plain model of the values a Valkey server sends back over RESP3, and the
//! two readings of a single value that the search decoder relies on: its text
//! and its value as a count.
use vstd::prelude::*;
use vstd::utf8::*;

verus! {

/// An error the server reported in place of one element of an array reply.
#[derive(Debug, PartialEq, Eq)]
pub struct ServerError {
    pub detail: String,
}

/// One reply value of the RESP3 protocol.
///
/// A double is held by what stands for it: its decimal rendering and, when it
/// is finite, its value truncated toward zero. A big number is held by its
/// decimal digits.
#[allow(inconsistent_fields)]
#[derive(Debug, PartialEq, Eq)]
pub enum RespValue {
    Nil,
    Int(i64),
    BulkString(Vec<u8>),
    Array(Vec<Result<RespValue, ServerError>>),
    SimpleString(String),
    Okay,
    Dict(Vec<(RespValue, RespValue)>),
    Collection(Vec<RespValue>),
    Double { text: String, integral: Option<i128> },
    Boolean(bool),
    VerbatimString { format: String, text: String },
    BigNumber(String),
    Push { kind: String, data: Vec<RespValue> },
    Attribute { data: Box<RespValue>, attributes: Vec<(RespValue, RespValue)> },
}

/// The character of a decimal digit `d` (0 to 9).
pub open spec fn digit_char(d: nat) -> char {
    ((d + 48) as u32) as char
}

/// The decimal digits of `n`, most significant first, without leading zeros.
pub open spec fn decimal_digits(n: nat) -> Seq<char>
    decreases n,
{
    if n < 10 {
        seq![digit_char(n)]
    } else {
        decimal_digits(n / 10).push(digit_char(n % 10))
    }
}

/// The decimal rendering of an integer, with a leading `-` when negative.
pub open spec fn decimal_text(i: int) -> Seq<char> {
    if i < 0 {
        seq!['-'] + decimal_digits((-i) as nat)
    } else {
        decimal_digits(i as nat)
    }
}

/// Whether `c` is an ASCII decimal digit.
pub open spec fn is_digit(c: char) -> bool {
    '0' <= c <= '9'
}

/// The number that a sequence of decimal digits denotes.
pub open spec fn digits_value(s: Seq<char>) -> nat
    decreases s.len(),
{
    if s.len() == 0 {
        0
    } else {
        digits_value(s.drop_last()) * 10 + ((s.last() as u32) - 48) as nat
    }
}

/// What parsing `s` as an unsigned machine word gives: an optional `+` sign
/// followed by one or more decimal digits whose value fits in `usize`.
pub open spec fn usize_text(s: Seq<char>) -> Option<usize> {
    let body = if s.len() > 0 && s[0] == '+' {
        s.drop_first()
    } else {
        s
    };
    if body.len() > 0 && (forall|i: int| 0 <= i < body.len() ==> is_digit(#[trigger] body[i]))
        && digits_value(body) <= usize::MAX {
        Some(digits_value(body) as usize)
    } else {
        None
    }
}

/// The characters `O`, `K`.
pub open spec fn okay_text() -> Seq<char> {
    seq!['O', 'K']
}

/// The value an attribute wrapper carries, or the value itself where it is
/// not wrapped. Only one layer is taken off.
pub open spec fn inner_value(v: RespValue) -> RespValue {
    match v {
        RespValue::Attribute { data, attributes: _ } => *data,
        _ => v,
    }
}

/// The text of a value, looking through one attribute wrapper.
pub open spec fn value_text(v: RespValue) -> Option<Seq<char>> {
    plain_text(inner_value(v))
}

/// The value of a reply read as a count, looking through one attribute
/// wrapper.
pub open spec fn value_count(v: RespValue) -> Option<usize> {
    plain_count(inner_value(v))
}

/// The text of an unwrapped value, where it has one: the characters of a
/// string-like value, the UTF-8 decoding of a binary string, the decimal
/// rendering of a number. Containers, nil, booleans, big numbers and attribute
/// wrappers have no text.
pub open spec fn plain_text(v: RespValue) -> Option<Seq<char>> {
    match v {
        RespValue::BulkString(bytes) => if valid_utf8(bytes@) {
            Some(decode_utf8(bytes@))
        } else {
            None
        },
        RespValue::Okay => Some(okay_text()),
        RespValue::SimpleString(s) => Some(s@),
        RespValue::VerbatimString { format: _, text } => Some(text@),
        RespValue::Double { text, integral: _ } => Some(text@),
        RespValue::Int(i) => Some(decimal_text(i as int)),
        _ => None,
    }
}

/// An unwrapped value read as a count: a non-negative integer that fits in
/// `usize`, given as an integer, as decimal text, or as a finite double whose
/// truncation fits.
pub open spec fn plain_count(v: RespValue) -> Option<usize> {
    match v {
        RespValue::Int(i) => if 0 <= i <= usize::MAX {
            Some(i as usize)
        } else {
            None
        },
        RespValue::SimpleString(s) => usize_text(s@),
        RespValue::BulkString(bytes) => if valid_utf8(bytes@) {
            usize_text(decode_utf8(bytes@))
        } else {
            None
        },
        RespValue::Double { text: _, integral } => match integral {
            Some(t) => if 0 <= t <= usize::MAX {
                Some(t as usize)
            } else {
                None
            },
            None => None,
        },
        _ => None,
    }
}

/// Whether `c` is whitespace in JSON text.
pub open spec fn is_json_whitespace(c: char) -> bool {
    c == ' ' || c == '\t' || c == '\n' || c == '\r'
}

/// What decoding `text` as one JSON string literal gives (the unescaped
/// characters), or `None` where `text` is not a JSON string.
pub uninterp spec fn json_string_value(text: Seq<char>) -> Option<Seq<char>>;

/// Calls `String::from_utf8` on a copy of `bytes`: the bytes decoded as
/// UTF-8, or `None` where they are not valid UTF-8.
#[verifier::external_body]
fn utf8_string(bytes: &Vec<u8>) -> (r: Option<String>)
    ensures
        r is Some <==> valid_utf8(bytes@),
        r matches Some(s) ==> s@ == decode_utf8(bytes@),
{
    match String::from_utf8(bytes.clone()) {
        Ok(s) => Some(s),
        Err(_) => None,
    }
}

/// Calls `i64::to_string`: the decimal rendering of `i`.
#[verifier::external_body]
fn int_string(i: i64) -> (r: String)
    ensures
        r@ == decimal_text(i as int),
{
    i.to_string()
}

/// Calls `str::parse::<usize>`: an optional `+` and one or more decimal
/// digits, whose value must fit in `usize`.
#[verifier::external_body]
fn parse_usize(s: &String) -> (r: Option<usize>)
    ensures
        r == usize_text(s@),
{
    s.parse::<usize>().ok()
}

/// Calls `serde_json::from_str::<String>`: the JSON string literal that
/// `text` holds, unescaped. Such a literal starts, after JSON whitespace, with
/// a double quote, so a text that starts with any other character holds none.
#[verifier::external_body]
fn json_string(text: &String) -> (r: Option<String>)
    ensures
        match r {
            Some(s) => json_string_value(text@) == Some(s@),
            None => json_string_value(text@) is None,
        },
        text@.len() > 0 && text@[0] != '"' && !is_json_whitespace(text@[0]) ==> r is None,
{
    serde_json::from_str::<String>(text).ok()
}

/// Takes the result of decoding `raw` as a JSON string literal: the decoded
/// characters where `raw` was one, else `raw` unchanged.
pub fn unquoted_or_raw(raw: String, decoded: Option<String>) -> (r: String)
    ensures
        r@ == match decoded {
            Some(s) => s@,
            None => raw@,
        },
{
    match decoded {
        Some(s) => s,
        None => raw,
    }
}

/// The text of a field value: its text as a reply value, with one layer of
/// JSON string quoting removed where the text is a JSON string literal.
///
/// A text whose first character is neither a double quote nor JSON
/// whitespace cannot be a JSON string literal, so it is kept as it is.
pub open spec fn field_text(v: RespValue) -> Option<Seq<char>> {
    match value_text(v) {
        Some(raw) => Some(
            if starts_plain(raw) {
                raw
            } else {
                match json_string_value(raw) {
                    Some(s) => s,
                    None => raw,
                }
            },
        ),
        None => None,
    }
}

/// Whether a text starts with a character that no JSON string literal can
/// start with: neither a double quote nor JSON whitespace.
pub open spec fn starts_plain(t: Seq<char>) -> bool {
    t.len() > 0 && t[0] != '"' && !is_json_whitespace(t[0])
}

impl RespValue {
    /// The value an attribute wrapper carries, or this value itself.
    pub fn inner(&self) -> (r: &RespValue)
        ensures
            *r == inner_value(*self),
    {
        match self {
            RespValue::Attribute { data, attributes: _ } => data,
            _ => self,
        }
    }

    /// The text of this value, as `value_text` gives it.
    pub fn text(&self) -> (r: Option<String>)
        ensures
            match r {
                Some(s) => value_text(*self) == Some(s@),
                None => value_text(*self) is None,
            },
    {
        match self.inner() {
            RespValue::BulkString(bytes) => utf8_string(bytes),
            RespValue::Okay => {
                let mut s = String::new();
                push_char(&mut s, 'O');
                push_char(&mut s, 'K');
                assert(s@ =~= okay_text());
                Some(s)
            },
            RespValue::SimpleString(s) => Some(s.clone()),
            RespValue::VerbatimString { format: _, text } => Some(text.clone()),
            RespValue::Double { text, integral: _ } => Some(text.clone()),
            RespValue::Int(i) => Some(int_string(*i)),
            _ => None,
        }
    }

    /// This value read as a count, as `value_count` gives it.
    pub fn count(&self) -> (r: Option<usize>)
        ensures
            r == value_count(*self),
    {
        match self.inner() {
            RespValue::Int(i) => {
                if 0 <= *i && (*i as u64) <= (usize::MAX as u64) {
                    Some(*i as usize)
                } else {
                    None
                }
            },
            RespValue::SimpleString(s) => parse_usize(s),
            RespValue::BulkString(bytes) => match utf8_string(bytes) {
                Some(s) => parse_usize(&s),
                None => None,
            },
            RespValue::Double { text: _, integral } => match integral {
                Some(t) => {
                    if 0 <= *t && *t <= (usize::MAX as i128) {
                        Some(*t as usize)
                    } else {
                        None
                    }
                },
                None => None,
            },
            _ => None,
        }
    }

    /// The text of this value as a field: see `field_text`.
    pub fn field_text(&self) -> (r: Option<String>)
        ensures
            match r {
                Some(s) => field_text(*self) == Some(s@),
                None => field_text(*self) is None,
            },
    {
        match self.text() {
            Some(raw) => {
                let decoded = json_string(&raw);
                Some(unquoted_or_raw(raw, decoded))
            },
            None => None,
        }
    }
}

/// Calls `String::push`: appends `c` to `s`.
#[verifier::external_body]
pub(crate) fn push_char(s: &mut String, c: char)
    ensures
        final(s)@ == old(s)@.push(c),
{
    s.push(c);
}

proof fn lemma_decimal_digits(n: nat)
    ensures
        decimal_digits(n).len() > 0,
        forall|i: int| 0 <= i < decimal_digits(n).len() ==> is_digit(#[trigger] decimal_digits(n)[i]),
        digits_value(decimal_digits(n)) == n,
    decreases n,
{
    let d: nat = n % 10;
    let c = digit_char(d);
    assert(c as u32 == d + 48);
    let s = decimal_digits(n);
    if n >= 10 {
        lemma_decimal_digits(n / 10);
        assert(s == decimal_digits(n / 10).push(c));
        assert(s.drop_last() =~= decimal_digits(n / 10));
        assert(s.last() == c);
        assert(digits_value(s) == digits_value(s.drop_last()) * 10 + ((c as u32) - 48) as nat);
        assert(n == (n / 10) * 10 + n % 10);
    } else {
        assert(s == seq![c]);
        assert(s.drop_last() =~= Seq::<char>::empty());
        assert(s.last() == c);
        assert(digits_value(s) == digits_value(s.drop_last()) * 10 + ((c as u32) - 48) as nat);
    }
}

/// An integer reply reads as a count exactly when it is non-negative and fits
/// in `usize`, and then the count is the integer itself; zero included.
pub proof fn law_count_of_integer(i: i64)
    ensures
        (0 <= i <= usize::MAX) ==> value_count(RespValue::Int(i)) == Some(i as usize),
        i < 0 ==> value_count(RespValue::Int(i)) is None,
{
}

/// A count written in decimal, as a simple string, reads back as that count.
pub proof fn law_count_of_decimal_text(s: String, n: nat)
    requires
        s@ == decimal_digits(n),
        n <= usize::MAX,
    ensures
        value_count(RespValue::SimpleString(s)) == Some(n as usize),
{
    lemma_decimal_digits(n);
}

/// The text of a non-negative integer reply reads back, as a count, as the
/// integer.
pub proof fn law_integer_text_reads_back(i: i64)
    requires
        0 <= i <= usize::MAX,
    ensures
        value_text(RespValue::Int(i)) matches Some(t) && usize_text(t) == Some(i as usize),
{
    lemma_decimal_digits(i as nat);
}

/// A simple string's text is its characters; a binary string holding the
/// UTF-8 encoding of some characters has those characters as its text.
pub proof fn law_text_of_strings(s: String, b: Vec<u8>)
    ensures
        value_text(RespValue::SimpleString(s)) == Some(s@),
        b@ == encode_utf8(s@) ==> value_text(RespValue::BulkString(b)) == Some(s@),
{
    encode_utf8_valid_utf8(s@);
    encode_utf8_decode_utf8(s@);
}

/// A field whose text starts with neither a double quote nor whitespace is
/// read verbatim: no JSON unquoting applies to it.
pub proof fn law_plain_field_text_is_verbatim(s: String)
    requires
        s@.len() > 0,
        s@[0] != '"',
        s@[0] != ' ' && s@[0] != '\t' && s@[0] != '\n' && s@[0] != '\r',
    ensures
        field_text(RespValue::SimpleString(s)) == Some(s@),
{
}

} // verus!
