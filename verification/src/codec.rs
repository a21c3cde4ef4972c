//! Encodings and decodings that the library takes from elsewhere.

use vstd::prelude::*;
use base64::Engine;
use sha2::Digest;

verus! {

/// The error of `serde_urlencoded`, of which the library sees nothing.
#[verifier::external_type_specification]
#[verifier::external_body]
pub struct ExUrlencodedError(serde_urlencoded::de::Error);

/// `serde_json::Value`, a JSON value, of which the library sees nothing.
#[verifier::external_type_specification]
#[verifier::external_body]
pub struct ExJsonValue(serde_json::Value);

/// The compact JSON text of a value.
pub uninterp spec fn json_value_text(value: serde_json::Value) -> Seq<char>;

/// Writes a JSON value. Trusted: the result is what the value's
/// `to_string` yields, its compact JSON text, which depends on the value
/// alone.
#[verifier::external_body]
pub(crate) fn json_text(value: &serde_json::Value) -> (text: String)
    ensures
        text@ == json_value_text(*value),
{
    value.to_string()
}

/// What `serde_json` reads from a text: the value that the text states,
/// or nothing where the text is not JSON.
pub uninterp spec fn parsed_json(text: Seq<char>) -> Option<serde_json::Value>;

/// Reads JSON. Trusted: the result is what `serde_json::from_str` yields
/// for a value, which depends on the text alone.
#[verifier::external_body]
pub(crate) fn parse_json(text: &str) -> (r: Option<serde_json::Value>)
    ensures
        r == parsed_json(text@),
{
    serde_json::from_str::<serde_json::Value>(text).ok()
}

/// Of the member of a value under `key`: nothing where the value has no
/// such member, else whether the member is a number.
pub uninterp spec fn member_number_of(value: serde_json::Value, key: Seq<char>) -> Option<bool>;

/// Tells whether a member is a number. Trusted: `Value::get` finds the
/// member of an object under the key, and `Value::is_number` tells
/// whether it is a number.
#[verifier::external_body]
pub(crate) fn member_number(value: &serde_json::Value, key: &str) -> (r: Option<bool>)
    ensures
        r == member_number_of(*value, key@),
{
    value.get(key).map(|member| member.is_number())
}

/// The member of a value under `key`, where it is a number that an
/// unsigned 64-bit integer holds.
pub uninterp spec fn member_unsigned_of(value: serde_json::Value, key: Seq<char>) -> Option<u64>;

/// Reads an unsigned member. Trusted: `Value::get` finds the member and
/// `Value::as_u64` yields it where it is such a number.
#[verifier::external_body]
pub(crate) fn member_unsigned(value: &serde_json::Value, key: &str) -> (r: Option<u64>)
    ensures
        r == member_unsigned_of(*value, key@),
{
    value.get(key).and_then(|member| member.as_u64())
}

/// The member of a value under `key`, where it is a string.
pub uninterp spec fn member_text_of(value: serde_json::Value, key: Seq<char>) -> Option<
    Seq<char>,
>;

/// Reads a string member. Trusted: `Value::get` finds the member and
/// `Value::as_str` yields its text where it is a string.
#[verifier::external_body]
pub(crate) fn member_text(value: &serde_json::Value, key: &str) -> (r: Option<String>)
    ensures
        crate::text::optional_text(r) == member_text_of(*value, key@),
{
    value.get(key).and_then(|member| member.as_str()).map(String::from)
}

/// The model of a member of an object: its name, and its value where
/// that is a string.
pub open spec fn entry_view(entry: (String, Option<String>)) -> (Seq<char>, Option<Seq<char>>) {
    (entry.0@, crate::text::optional_text(entry.1))
}

/// The models of the members of an object.
pub open spec fn entry_views(entries: Seq<(String, Option<String>)>) -> Seq<
    (Seq<char>, Option<Seq<char>>),
> {
    Seq::new(entries.len(), |i: int| entry_view(entries[i]))
}

/// The member of a value under `key`, where it is an object: its members
/// in the order in which the object holds them, each with its value where
/// that is a string.
pub uninterp spec fn member_entries_of(value: serde_json::Value, key: Seq<char>) -> Option<
    Seq<(Seq<char>, Option<Seq<char>>)>,
>;

/// Reads an object member. Trusted: `Value::get` finds the member,
/// `Value::as_object` yields its members where it is an object, and
/// `Value::as_str` the text of each member that is a string.
#[verifier::external_body]
pub(crate) fn member_entries(value: &serde_json::Value, key: &str) -> (r: Option<
    Vec<(String, Option<String>)>,
>)
    ensures
        match r {
            Some(entries) => member_entries_of(*value, key@) == Some(entry_views(entries@)),
            None => member_entries_of(*value, key@) is None,
        },
{
    value.get(key).and_then(|member| member.as_object()).map(|members| {
        members.iter().map(|(name, v)| (name.clone(), v.as_str().map(String::from))).collect()
    })
}

/// The views of name-value pairs.
pub open spec fn pair_views(pairs: Seq<(String, String)>) -> Seq<(Seq<char>, Seq<char>)> {
    Seq::new(pairs.len(), |i: int| (pairs[i].0@, pairs[i].1@))
}

/// What `serde_urlencoded` reads from a text in the form
/// `application/x-www-form-urlencoded`: the name-value pairs in order, or
/// nothing where the text is not in that form.
pub uninterp spec fn urlencoded_pairs(text: Seq<char>) -> Option<Seq<(Seq<char>, Seq<char>)>>;

/// Reads name-value pairs. Trusted: the result is what
/// `serde_urlencoded::from_str` yields for a sequence of pairs of strings,
/// which depends on the text alone.
#[verifier::external_body]
pub(crate) fn parse_urlencoded(text: &str) -> (r: Result<
    Vec<(String, String)>,
    serde_urlencoded::de::Error,
>)
    ensures
        match r {
            Ok(pairs) => urlencoded_pairs(text@) == Some(pair_views(pairs@)),
            Err(_) => urlencoded_pairs(text@) is None,
        },
{
    serde_urlencoded::from_str::<Vec<(String, String)>>(text)
}

/// The text that bytes encode in UTF-8, or nothing where they encode
/// none.
pub uninterp spec fn utf8_decoded(bytes: Seq<u8>) -> Option<Seq<char>>;

/// Decodes UTF-8. Trusted: the result is what `std::str::from_utf8`
/// yields, which depends on the bytes alone.
#[verifier::external_body]
pub(crate) fn decode_utf8(bytes: &[u8]) -> (r: Option<String>)
    ensures
        match r {
            Some(text) => utf8_decoded(bytes@) == Some(text@),
            None => utf8_decoded(bytes@) is None,
        },
{
    std::str::from_utf8(bytes).ok().map(String::from)
}

/// The text that `String::from_utf8_lossy` reads from bytes: what they
/// encode in UTF-8, with a replacement character for what encodes
/// nothing.
pub uninterp spec fn utf8_lossy(bytes: Seq<u8>) -> Seq<char>;

/// Decodes UTF-8 without failing. Trusted: the result is what
/// `String::from_utf8_lossy` yields, which depends on the bytes alone.
#[verifier::external_body]
pub(crate) fn decode_utf8_lossy(bytes: &[u8]) -> (text: String)
    ensures
        text@ == utf8_lossy(bytes@),
{
    String::from_utf8_lossy(bytes).into_owned()
}

/// The standard base64 text of bytes.
pub uninterp spec fn base64_text(bytes: Seq<u8>) -> Seq<char>;

/// Encodes bytes in base64. Trusted: the result is what the standard
/// engine's `encode` yields, which depends on the bytes alone.
#[verifier::external_body]
pub(crate) fn base64_encode(bytes: &[u8]) -> (text: String)
    ensures
        text@ == base64_text(bytes@),
{
    base64::engine::general_purpose::STANDARD.encode(bytes)
}

/// The bytes that a standard base64 text stands for, or nothing where
/// the text is no such text.
pub uninterp spec fn base64_bytes(text: Seq<char>) -> Option<Seq<u8>>;

/// Decodes base64. Trusted: the result is what the standard engine's
/// `decode` yields, which depends on the text alone.
#[verifier::external_body]
pub(crate) fn base64_decode(text: &str) -> (r: Option<Vec<u8>>)
    ensures
        match r {
            Some(bytes) => base64_bytes(text@) == Some(bytes@),
            None => base64_bytes(text@) is None,
        },
{
    base64::engine::general_purpose::STANDARD.decode(text).ok()
}

/// The SHA-256 digest of bytes.
pub uninterp spec fn sha256_digest(bytes: Seq<u8>) -> Seq<u8>;

/// Computes the SHA-256 digest. Trusted: the result is what
/// `Sha256::digest` yields, 32 bytes that depend on the input alone.
#[verifier::external_body]
pub(crate) fn sha256(bytes: &[u8]) -> (digest: Vec<u8>)
    ensures
        digest@ == sha256_digest(bytes@),
        digest@.len() == 32,
{
    sha2::Sha256::digest(bytes).to_vec()
}

/// The lowercase hexadecimal digit of a value below 16.
pub open spec fn hex_digit(value: int) -> char {
    if value == 0 {
        '0'
    } else if value == 1 {
        '1'
    } else if value == 2 {
        '2'
    } else if value == 3 {
        '3'
    } else if value == 4 {
        '4'
    } else if value == 5 {
        '5'
    } else if value == 6 {
        '6'
    } else if value == 7 {
        '7'
    } else if value == 8 {
        '8'
    } else if value == 9 {
        '9'
    } else if value == 10 {
        'a'
    } else if value == 11 {
        'b'
    } else if value == 12 {
        'c'
    } else if value == 13 {
        'd'
    } else if value == 14 {
        'e'
    } else {
        'f'
    }
}

/// The lowercase hexadecimal text of bytes: two digits for each byte.
pub open spec fn hex_text(bytes: Seq<u8>) -> Seq<char>
    decreases bytes.len(),
{
    if bytes.len() == 0 {
        Seq::empty()
    } else {
        hex_text(bytes.drop_last()).push(hex_digit(bytes.last() as int / 16)).push(
            hex_digit(bytes.last() as int % 16),
        )
    }
}

/// Encodes bytes in hexadecimal. Trusted: `hex::encode` writes each byte
/// as two lowercase hexadecimal digits, in order.
#[verifier::external_body]
pub(crate) fn hex_encode(bytes: &[u8]) -> (text: String)
    ensures
        text@ == hex_text(bytes@),
{
    hex::encode(bytes)
}

/// Whether a number is a status code. Trusted: `StatusCode::from_u16`
/// accepts the numbers from 100 to 999 and no others.
#[verifier::external_body]
pub(crate) fn is_status_code(code: u16) -> (r: bool)
    ensures
        r == (100 <= code <= 999),
{
    axum::http::StatusCode::from_u16(code).is_ok()
}

/// Whether a character may stand in the name of a method: a letter or a
/// digit of ASCII, or one of ``!#$%&'*+-.^_`|~``.
pub open spec fn is_method_char(c: char) -> bool {
    ('0' <= c <= '9') || ('A' <= c <= 'Z') || ('a' <= c <= 'z') || c == '!' || c == '#' || c
        == '$' || c == '%' || c == '&' || c == '\'' || c == '*' || c == '+' || c == '-' || c == '.'
        || c == '^' || c == '_' || c == '`' || c == '|' || c == '~'
}

/// Whether a text is the name of a method: it is not empty, and each of
/// its characters may stand in such a name.
pub open spec fn is_method_name(text: Seq<char>) -> bool {
    text.len() > 0 && forall|i: int| 0 <= i < text.len() ==> is_method_char(#[trigger] text[i])
}

/// Whether a text is the name of a method. Trusted: `Method::from_bytes`
/// refuses the empty text and every text with a byte outside its table of
/// method characters, and accepts every other; the table holds the
/// characters of `is_method_char` and no byte above ASCII.
#[verifier::external_body]
pub(crate) fn method_name_ok(text: &str) -> (r: bool)
    ensures
        r == is_method_name(text@),
{
    axum::http::Method::from_bytes(text.as_bytes()).is_ok()
}

/// The views of the routes of each method.
pub open spec fn book_views(book: Seq<(String, Vec<(String, String)>)>) -> Seq<
    (Seq<char>, Seq<(Seq<char>, Seq<char>)>),
> {
    Seq::new(book.len(), |i: int| (book[i].0@, pair_views(book[i].1@)))
}

/// What `serde_json` reads from a text as a map from method names to maps
/// from paths to bodies, each map in the order of its keys; nothing where
/// the text is no such JSON.
pub uninterp spec fn route_book_of(text: Seq<char>) -> Option<
    Seq<(Seq<char>, Seq<(Seq<char>, Seq<char>)>)>,
>;

/// Reads the routes of each method. Trusted: the result is what
/// `serde_json::from_str` yields for ordered maps of strings, which depends
/// on the text alone.
#[verifier::external_body]
pub(crate) fn read_route_book(text: &str) -> (r: Option<Vec<(String, Vec<(String, String)>)>>)
    ensures
        match r {
            Some(book) => route_book_of(text@) == Some(book_views(book@)),
            None => route_book_of(text@) is None,
        },
{
    serde_json::from_str::<
        std::collections::BTreeMap<String, std::collections::BTreeMap<String, String>>,
    >(text).ok().map(|methods| {
        methods.into_iter().map(|(method, routes)| (method, routes.into_iter().collect())).collect()
    })
}

/// The text without the whitespace at its ends, as `str::trim` yields it.
pub uninterp spec fn trimmed_whitespace(text: Seq<char>) -> Seq<char>;

/// Trims whitespace. Trusted: the result is what `str::trim` yields,
/// which depends on the text alone.
#[verifier::external_body]
pub(crate) fn trim_whitespace(text: &str) -> (out: String)
    ensures
        out@ == trimmed_whitespace(text@),
{
    text.trim().to_string()
}

} // verus!
