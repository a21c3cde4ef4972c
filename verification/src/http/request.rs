//! Requests and what can be read from them.

use vstd::prelude::*;
use vstd::slice::slice_subrange;
use crate::codec::{
    base64_bytes, base64_decode, decode_utf8, pair_views, parse_urlencoded, trim_whitespace,
    trimmed_whitespace, urlencoded_pairs, utf8_decoded,
};
use crate::string_map::{lookup, with_entry, Pairs, StringMap};
use crate::text::{
    chars_of, contains_text, find_char, first_position, lowercase, lowercased, split_chars,
    split_on, starts_with, string_of, text_contains, text_eq, text_starts_with, texts_of,
};

verus! {

/// The current time in milliseconds since the start of 1970.
/// `SystemTime::now` reads the system clock, and `DateTime::timestamp_millis`
/// counts from the start of 1970; nothing is promised of what is read.
#[verifier::external_body]
fn utc_now_millis() -> i64 {
    chrono::DateTime::<chrono::Utc>::from(std::time::SystemTime::now()).timestamp_millis()
}

/// A request with what the server knows of it.
pub struct HttpRequest {
    pub method: String,
    pub path: String,
    pub headers: StringMap,
    pub body: String,
    pub query_string: String,
    pub query_params: StringMap,
    pub path_params: StringMap,
    pub content_type: String,
    pub content_length: usize,
    pub user_agent: String,
    pub remote_addr: String,
    pub request_id: u64,
    /// When the request was made, in milliseconds since the start of 1970.
    pub timestamp: i64,
}

/// Why a form could not be read.
#[derive(Debug, Clone, Copy, PartialEq, Eq, Structural)]
pub enum FormError {
    /// The body is not in the form `application/x-www-form-urlencoded`.
    Malformed,
}

/// The mapping that holds the pairs, a later pair overwriting an earlier
/// one of the same name.
pub open spec fn collected(pairs: Seq<(Seq<char>, Seq<char>)>) -> Pairs
    decreases pairs.len(),
{
    if pairs.len() == 0 {
        Pairs::empty()
    } else {
        with_entry(collected(pairs.drop_last()), pairs.last().0, pairs.last().1)
    }
}

/// Collects pairs into a mapping.
pub fn collect_pairs(pairs: Vec<(String, String)>) -> (map: StringMap)
    ensures
        map@ == collected(pair_views(pairs@)),
{
    let ghost views = pair_views(pairs@);
    let mut map = StringMap::new();
    let mut i: usize = 0;
    while i < pairs.len()
        invariant
            i <= pairs.len(),
            views == pair_views(pairs@),
            map@ == collected(views.take(i as int)),
        decreases pairs.len() - i,
    {
        assert(views.take(i + 1).drop_last() =~= views.take(i as int));
        map.insert(pairs[i].0.clone(), pairs[i].1.clone());
        i += 1;
    }
    assert(views.take(pairs.len() as int) =~= views);
    map
}

/// The parameters of a query string or a form: the pairs that it holds,
/// collected; none where it is malformed.
pub open spec fn form_fields(text: Seq<char>) -> Option<Pairs> {
    match urlencoded_pairs(text) {
        Some(pairs) => Some(collected(pairs)),
        None => None,
    }
}

/// Reads the parameters of a query string or a form.
pub fn parse_form_text(text: &str) -> (r: Result<StringMap, FormError>)
    ensures
        match r {
            Ok(fields) => form_fields(text@) == Some(fields@),
            Err(_) => form_fields(text@) is None,
        },
{
    match parse_urlencoded(text) {
        Ok(pairs) => Ok(collect_pairs(pairs)),
        Err(_) => Err(FormError::Malformed),
    }
}

/// The cookie that a piece of a `cookie` header states, if it states one:
/// the piece is trimmed, and what stands before its first `=` names what
/// stands after.
pub open spec fn cookie_of(piece: Seq<char>) -> Option<(Seq<char>, Seq<char>)> {
    let text = trimmed_whitespace(piece);
    let at = first_position(text, '=');
    if at < text.len() {
        Some((text.take(at as int), text.skip(at as int + 1)))
    } else {
        None
    }
}

/// The cookies that the pieces state, a later one overwriting an earlier
/// one of the same name.
pub open spec fn cookies_of(pieces: Seq<Seq<char>>) -> Pairs
    decreases pieces.len(),
{
    if pieces.len() == 0 {
        Pairs::empty()
    } else {
        match cookie_of(pieces.last()) {
            Some(cookie) => with_entry(cookies_of(pieces.drop_last()), cookie.0, cookie.1),
            None => cookies_of(pieces.drop_last()),
        }
    }
}

/// The cookies of a `cookie` header: those that its pieces between `;`
/// state.
pub open spec fn header_cookies(header: Option<Seq<char>>) -> Pairs {
    match header {
        Some(text) => cookies_of(split_on(text, ';')),
        None => Pairs::empty(),
    }
}

/// The token of an `authorization` header that begins with `Bearer `.
pub open spec fn bearer_of(authorization: Option<Seq<char>>) -> Option<Seq<char>> {
    match authorization {
        Some(text) => if starts_with(text, "Bearer "@) {
            Some(text.skip(7))
        } else {
            None
        },
        None => None,
    }
}

/// The user and password of an `authorization` header that begins with
/// `Basic `: what follows is base64 for UTF-8 text, in which the first
/// `:` parts the two.
pub open spec fn basic_of(authorization: Option<Seq<char>>) -> Option<(Seq<char>, Seq<char>)> {
    match authorization {
        Some(text) => if starts_with(text, "Basic "@) {
            match base64_bytes(text.skip(6)) {
                Some(bytes) => match utf8_decoded(bytes) {
                    Some(credentials) => {
                        let at = first_position(credentials, ':');
                        if at < credentials.len() {
                            Some((credentials.take(at as int), credentials.skip(at as int + 1)))
                        } else {
                            None
                        }
                    },
                    None => None,
                },
                None => None,
            }
        } else {
            None
        },
        None => None,
    }
}

/// The content type that a request declares: its content type where that
/// is set, else its `content-type` header, else none.
pub open spec fn declared_type(content_type: Seq<char>, headers: Pairs) -> Seq<char> {
    if content_type.len() > 0 {
        content_type
    } else {
        match lookup(headers, lowercased("content-type"@)) {
            Some(value) => value,
            None => Seq::empty(),
        }
    }
}

/// Parts a text at the first `c`.
fn split_once_at(text: &[char], c: char) -> (r: Option<(String, String)>)
    ensures
        match r {
            Some((left, right)) => first_position(text@, c) < text@.len() && left@ == text@.take(
                first_position(text@, c) as int,
            ) && right@ == text@.skip(first_position(text@, c) as int + 1),
            None => first_position(text@, c) >= text@.len(),
        },
{
    let at = find_char(text, c);
    if at < text.len() {
        let left = slice_subrange(text, 0, at);
        let right = slice_subrange(text, at + 1, text.len());
        Some((string_of(left), string_of(right)))
    } else {
        None
    }
}

impl HttpRequest {
    /// An empty request, stamped with the current time.
    pub fn new() -> (request: HttpRequest)
        ensures
            request.method@.len() == 0,
            request.path@.len() == 0,
            request.headers@ == Pairs::empty(),
            request.body@.len() == 0,
            request.query_string@.len() == 0,
            request.query_params@ == Pairs::empty(),
            request.path_params@ == Pairs::empty(),
            request.content_type@.len() == 0,
            request.content_length == 0,
            request.user_agent@.len() == 0,
            request.remote_addr@.len() == 0,
            request.request_id == 0,
    {
        HttpRequest {
            method: String::new(),
            path: String::new(),
            headers: StringMap::new(),
            body: String::new(),
            query_string: String::new(),
            query_params: StringMap::new(),
            path_params: StringMap::new(),
            content_type: String::new(),
            content_length: 0,
            user_agent: String::new(),
            remote_addr: String::new(),
            request_id: 0,
            timestamp: utc_now_millis(),
        }
    }

    /// The header stored under the lowercase form of `name`.
    pub fn get_header(&self, name: &str) -> (value: Option<&String>)
        ensures
            crate::text::optional_text_ref(value) == lookup(self.headers@, lowercased(name@)),
    {
        self.headers.get(lowercase(name).as_str())
    }

    /// Whether a header is stored under the lowercase form of `name`.
    pub fn has_header(&self, name: &str) -> (r: bool)
        ensures
            r == lookup(self.headers@, lowercased(name@)) is Some,
    {
        self.headers.get(lowercase(name).as_str()).is_some()
    }

    /// The query parameter of the given name.
    pub fn get_query_param(&self, name: &str) -> (value: Option<&String>)
        ensures
            crate::text::optional_text_ref(value) == lookup(self.query_params@, name@),
    {
        self.query_params.get(name)
    }

    /// The path parameter of the given name.
    pub fn get_path_param(&self, name: &str) -> (value: Option<&String>)
        ensures
            crate::text::optional_text_ref(value) == lookup(self.path_params@, name@),
    {
        self.path_params.get(name)
    }

    /// The content type that the request declares.
    pub fn declared_content_type(&self) -> (declared: String)
        ensures
            declared@ == declared_type(self.content_type@, self.headers@),
    {
        if !self.content_type.as_str().is_empty() {
            return self.content_type.clone();
        }
        match self.get_header("content-type") {
            Some(value) => value.clone(),
            None => String::new(),
        }
    }

    /// Whether the content type names JSON.
    pub fn is_json(&self) -> (r: bool)
        ensures
            r == contains_text(
                declared_type(self.content_type@, self.headers@),
                "application/json"@,
            ),
    {
        text_contains(self.declared_content_type().as_str(), "application/json")
    }

    /// Whether the content type names a URL-encoded form.
    pub fn is_form(&self) -> (r: bool)
        ensures
            r == contains_text(
                declared_type(self.content_type@, self.headers@),
                "application/x-www-form-urlencoded"@,
            ),
    {
        text_contains(self.declared_content_type().as_str(), "application/x-www-form-urlencoded")
    }

    /// Whether the content type names a multipart form.
    pub fn is_multipart(&self) -> (r: bool)
        ensures
            r == contains_text(
                declared_type(self.content_type@, self.headers@),
                "multipart/form-data"@,
            ),
    {
        text_contains(self.declared_content_type().as_str(), "multipart/form-data")
    }

    /// Whether a proxy says that the request came over a secure channel.
    pub fn is_secure(&self) -> (r: bool)
        ensures
            r == (lookup(self.headers@, lowercased("x-forwarded-proto"@)) == Some("https"@)
                || lookup(self.headers@, lowercased("x-forwarded-ssl"@)) == Some("on"@)),
    {
        let by_proto = match self.get_header("x-forwarded-proto") {
            Some(value) => text_eq(value.as_str(), "https"),
            None => false,
        };
        let by_ssl = match self.get_header("x-forwarded-ssl") {
            Some(value) => text_eq(value.as_str(), "on"),
            None => false,
        };
        by_proto || by_ssl
    }

    /// The fields of the body read as a URL-encoded form.
    pub fn parse_form(&self) -> (r: Result<StringMap, FormError>)
        ensures
            match r {
                Ok(fields) => form_fields(self.body@) == Some(fields@),
                Err(_) => form_fields(self.body@) is None,
            },
    {
        parse_form_text(self.body.as_str())
    }

    /// The cookies of the `cookie` header.
    pub fn get_cookies(&self) -> (cookies: StringMap)
        ensures
            cookies@ == header_cookies(lookup(self.headers@, lowercased("cookie"@))),
    {
        let mut cookies = StringMap::new();
        if let Some(header) = self.get_header("cookie") {
            let text = chars_of(header.as_str());
            let pieces = split_chars(text.as_slice(), ';');
            let ghost views = texts_of(pieces@);
            let mut i: usize = 0;
            while i < pieces.len()
                invariant
                    i <= pieces.len(),
                    views == texts_of(pieces@),
                    cookies@ == cookies_of(views.take(i as int)),
                decreases pieces.len() - i,
            {
                assert(views.take(i + 1).drop_last() =~= views.take(i as int));
                let piece = trim_whitespace(string_of(pieces[i].as_slice()).as_str());
                let chars = chars_of(piece.as_str());
                match split_once_at(chars.as_slice(), '=') {
                    Some((name, value)) => {
                        cookies.insert(name, value);
                    },
                    None => {},
                }
                i += 1;
            }
            assert(views.take(pieces.len() as int) =~= views);
        }
        cookies
    }

    /// The `authorization` header.
    pub fn get_authorization(&self) -> (value: Option<String>)
        ensures
            crate::text::optional_text(value) == lookup(
                self.headers@,
                lowercased("authorization"@),
            ),
    {
        match self.get_header("authorization") {
            Some(value) => Some(value.clone()),
            None => None,
        }
    }

    /// The token of a bearer authorization.
    pub fn get_bearer_token(&self) -> (token: Option<String>)
        ensures
            crate::text::optional_text(token) == bearer_of(
                lookup(self.headers@, lowercased("authorization"@)),
            ),
    {
        if let Some(auth) = self.get_authorization() {
            if text_starts_with(auth.as_str(), "Bearer ") {
                proof {
                    reveal_strlit("Bearer ");
                }
                let chars = chars_of(auth.as_str());
                let rest = slice_subrange(chars.as_slice(), 7, chars.len());
                return Some(string_of(rest));
            }
        }
        None
    }

    /// The user and the password of a basic authorization.
    pub fn get_basic_auth(&self) -> (credentials: Option<(String, String)>)
        ensures
            match credentials {
                Some((user, password)) => basic_of(
                    lookup(self.headers@, lowercased("authorization"@)),
                ) == Some((user@, password@)),
                None => basic_of(lookup(self.headers@, lowercased("authorization"@))) is None,
            },
    {
        if let Some(auth) = self.get_authorization() {
            if text_starts_with(auth.as_str(), "Basic ") {
                proof {
                    reveal_strlit("Basic ");
                }
                let chars = chars_of(auth.as_str());
                let rest = slice_subrange(chars.as_slice(), 6, chars.len());
                if let Some(decoded) = base64_decode(string_of(rest).as_str()) {
                    if let Some(text) = decode_utf8(decoded.as_slice()) {
                        let credentials = chars_of(text.as_str());
                        return split_once_at(credentials.as_slice(), ':');
                    }
                }
            }
        }
        None
    }
}

} // verus!
