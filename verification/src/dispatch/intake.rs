//! Shaping what the listener read into a request for the dispatcher.

use vstd::prelude::*;
use vstd::string::StringExecFns;
use crate::codec::{decode_utf8, decode_utf8_lossy, utf8_decoded, utf8_lossy};
use crate::dispatch::entries::{SufastRequest, SufastRequestView};
use crate::http::request::{form_fields, parse_form_text};
use crate::string_map::{with_entry, Pairs, StringMap};
use crate::text::{lowercase, lowercased};

verus! {

/// The models of raw headers: each name with the bytes of its value.
pub open spec fn raw_header_views(headers: Seq<(String, Vec<u8>)>) -> Seq<(Seq<char>, Seq<u8>)> {
    Seq::new(headers.len(), |i: int| (headers[i].0@, headers[i].1@))
}

/// The value of a header as text: what its bytes encode in UTF-8, or the
/// empty text where they encode none.
pub open spec fn header_text(value: Seq<u8>) -> Seq<char> {
    match utf8_decoded(value) {
        Some(text) => text,
        None => Seq::empty(),
    }
}

/// The headers of a request: each raw header under the lowercase form of
/// its name, a later one overwriting an earlier one of the same name.
pub open spec fn request_headers(headers: Seq<(Seq<char>, Seq<u8>)>) -> Pairs
    decreases headers.len(),
{
    if headers.len() == 0 {
        Pairs::empty()
    } else {
        with_entry(
            request_headers(headers.drop_last()),
            lowercased(headers.last().0),
            header_text(headers.last().1),
        )
    }
}

/// The query parameters of a query string: those that it states, or none
/// where it is malformed.
pub open spec fn query_parameters(query: Seq<char>) -> Pairs {
    match form_fields(query) {
        Some(fields) => fields,
        None => Pairs::empty(),
    }
}

/// The request that the dispatcher sees: the method and the path as they
/// are, the parameters of the query string, the headers under lowercase
/// names, and the body read as UTF-8 with replacement characters for what
/// is none.
pub open spec fn request_of(
    method: Seq<char>,
    path: Seq<char>,
    query: Seq<char>,
    headers: Seq<(Seq<char>, Seq<u8>)>,
    body: Seq<u8>,
) -> SufastRequestView {
    SufastRequestView {
        method,
        path,
        query: query_parameters(query),
        headers: request_headers(headers),
        body: utf8_lossy(body),
    }
}

impl SufastRequest {
    /// Shapes what the listener read into a request.
    pub fn from_parts(
        method: &str,
        path: &str,
        query: &str,
        headers: &Vec<(String, Vec<u8>)>,
        body: &[u8],
    ) -> (request: SufastRequest)
        ensures
            request@ == request_of(method@, path@, query@, raw_header_views(headers@), body@),
    {
        let query_map = match parse_form_text(query) {
            Ok(fields) => fields,
            Err(_) => StringMap::new(),
        };
        let ghost views = raw_header_views(headers@);
        let mut header_map = StringMap::new();
        let mut i: usize = 0;
        while i < headers.len()
            invariant
                i <= headers.len(),
                views == raw_header_views(headers@),
                header_map@ == request_headers(views.take(i as int)),
            decreases headers.len() - i,
        {
            assert(views.take(i + 1).drop_last() =~= views.take(i as int));
            let value = match decode_utf8(headers[i].1.as_slice()) {
                Some(text) => text,
                None => String::new(),
            };
            header_map.insert(lowercase(headers[i].0.as_str()), value);
            i += 1;
        }
        assert(views.take(headers.len() as int) =~= views);
        SufastRequest {
            method: String::from_str(method),
            path: String::from_str(path),
            query: query_map,
            headers: header_map,
            body: decode_utf8_lossy(body),
        }
    }
}

} // verus!
