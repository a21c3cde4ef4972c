//! The envelopes exchanged with the foreign handler: the request envelope
//! that goes out and the response envelope that comes back, both JSON.

use vstd::prelude::*;
use vstd::string::StringExecFns;
use crate::codec::{
    entry_views, hex_digit, member_entries, member_entries_of, member_number, member_number_of,
    member_text, member_text_of, member_unsigned, member_unsigned_of, parse_json, parsed_json,
};
use crate::dispatch::entries::{SufastRequest, SufastRequestView};
use crate::string_map::{with_entry, Pairs, StringMap};
use crate::text::optional_text;

verus! {

/// What a character is written as inside a JSON string literal: `"` and
/// `\` with a backslash before them; backspace, tab, line feed, form feed
/// and carriage return as `\b`, `\t`, `\n`, `\f` and `\r`; any other
/// character below U+0020 as `\u00` and its two hexadecimal digits in
/// lowercase; and every other character as itself.
pub open spec fn json_escaped_char(c: char) -> Seq<char> {
    if c == '"' {
        Seq::empty().push('\\').push('"')
    } else if c == '\\' {
        Seq::empty().push('\\').push('\\')
    } else if c == '\u{8}' {
        Seq::empty().push('\\').push('b')
    } else if c == '\t' {
        Seq::empty().push('\\').push('t')
    } else if c == '\n' {
        Seq::empty().push('\\').push('n')
    } else if c == '\u{c}' {
        Seq::empty().push('\\').push('f')
    } else if c == '\r' {
        Seq::empty().push('\\').push('r')
    } else if (c as int) < 0x20 {
        Seq::empty().push('\\').push('u').push('0').push('0').push(
            hex_digit(c as int / 16),
        ).push(hex_digit(c as int % 16))
    } else {
        Seq::empty().push(c)
    }
}

/// The characters of a text as they are written inside a JSON string
/// literal.
pub open spec fn json_escaped(text: Seq<char>) -> Seq<char>
    decreases text.len(),
{
    if text.len() == 0 {
        Seq::empty()
    } else {
        json_escaped(text.drop_last()) + json_escaped_char(text.last())
    }
}

/// The JSON string literal of a text: the escaped text between double
/// quotes.
pub open spec fn json_string(text: Seq<char>) -> Seq<char> {
    Seq::empty().push('"') + json_escaped(text) + Seq::empty().push('"')
}

/// Writes `text` as a JSON string literal. Trusted: `serde_json::to_string`
/// writes a string slice between double quotes and escapes, by its table,
/// `"`, `\` and the characters below U+0020 as `json_escaped_char` says,
/// and nothing else; serializing a string slice does not fail.
#[verifier::external_body]
pub(crate) fn json_quote(text: &str) -> (out: String)
    ensures
        out@ == json_string(text@),
{
    serde_json::to_string(text).unwrap_or_default()
}

/// One member of a JSON object: the name, a colon, the value.
pub open spec fn json_member(pair: (Seq<char>, Seq<char>)) -> Seq<char> {
    json_string(pair.0) + ":"@ + json_string(pair.1)
}

/// The members of a JSON object, separated by commas.
pub open spec fn json_members(pairs: Pairs) -> Seq<char>
    decreases pairs.len(),
{
    if pairs.len() == 0 {
        Seq::empty()
    } else if pairs.len() == 1 {
        json_member(pairs[0])
    } else {
        json_members(pairs.drop_last()) + ","@ + json_member(pairs.last())
    }
}

/// The JSON object whose members are the pairs, in order, all values
/// strings.
pub open spec fn json_object(pairs: Pairs) -> Seq<char> {
    "{"@ + json_members(pairs) + "}"@
}

/// Writes a mapping as a JSON object of strings.
pub fn json_object_text(map: &StringMap) -> (out: String)
    ensures
        out@ == json_object(map@),
{
    let mut out = String::from_str("{");
    let mut i: usize = 0;
    while i < map.len()
        invariant
            i <= map@.len(),
            out@ == "{"@ + json_members(map@.take(i as int)),
        decreases map@.len() - i,
    {
        let ghost upto = map@.take(i + 1);
        assert(upto.drop_last() =~= map@.take(i as int));
        if i > 0 {
            out.append(",");
        }
        out.append(json_quote(map.name_at(i).as_str()).as_str());
        out.append(":");
        out.append(json_quote(map.value_at(i).as_str()).as_str());
        i += 1;
    }
    assert(map@.take(map@.len() as int) =~= map@);
    out.append("}");
    out
}

/// The request envelope: a JSON object with the method, the path, the
/// path parameters, the query parameters, the headers and the body.
pub open spec fn request_envelope(request: SufastRequestView, path_params: Pairs) -> Seq<char> {
    "{\"method\":"@ + json_string(request.method) + ",\"path\":"@ + json_string(request.path)
        + ",\"path_params\":"@ + json_object(path_params) + ",\"query_params\":"@ + json_object(
        request.query,
    ) + ",\"headers\":"@ + json_object(request.headers) + ",\"body\":"@ + json_string(
        request.body,
    ) + "}"@
}

/// Writes the request envelope for a request and its path parameters.
pub fn request_envelope_text(request: &SufastRequest, path_params: &StringMap) -> (out: String)
    ensures
        out@ == request_envelope(request@, path_params@),
{
    let mut out = String::from_str("{\"method\":");
    out.append(json_quote(request.method.as_str()).as_str());
    out.append(",\"path\":");
    out.append(json_quote(request.path.as_str()).as_str());
    out.append(",\"path_params\":");
    out.append(json_object_text(path_params).as_str());
    out.append(",\"query_params\":");
    out.append(json_object_text(&request.query).as_str());
    out.append(",\"headers\":");
    out.append(json_object_text(&request.headers).as_str());
    out.append(",\"body\":");
    out.append(json_quote(request.body.as_str()).as_str());
    out.append("}");
    out
}

/// The model of what was read from a response envelope.
pub struct RawEnvelopeView {
    pub status_number: Option<bool>,
    pub status_unsigned: Option<u64>,
    pub body: Option<Seq<char>>,
    pub headers: Option<Seq<(Seq<char>, Option<Seq<char>>)>>,
}

/// What was read from a response envelope, member by member. Of `status`:
/// nothing where the envelope has none, else whether it is a number; and
/// the number, where an unsigned integer holds it. The `body`, where it is
/// a string. The members of `headers`, where it is an object, each with
/// its value where that is a string.
pub struct RawEnvelope {
    pub status_number: Option<bool>,
    pub status_unsigned: Option<u64>,
    pub body: Option<String>,
    pub headers: Option<Vec<(String, Option<String>)>>,
}

impl View for RawEnvelope {
    type V = RawEnvelopeView;

    open spec fn view(&self) -> RawEnvelopeView {
        RawEnvelopeView {
            status_number: self.status_number,
            status_unsigned: self.status_unsigned,
            body: optional_text(self.body),
            headers: match self.headers {
                Some(members) => Some(entry_views(members@)),
                None => None,
            },
        }
    }
}

/// What is read from a reply text: nothing where the text is not JSON,
/// else the members `status`, `body` and `headers` of the value that it
/// states.
pub open spec fn envelope_of(text: Seq<char>) -> Option<RawEnvelopeView> {
    match parsed_json(text) {
        None => None,
        Some(value) => Some(
            RawEnvelopeView {
                status_number: member_number_of(value, "status"@),
                status_unsigned: member_unsigned_of(value, "status"@),
                body: member_text_of(value, "body"@),
                headers: member_entries_of(value, "headers"@),
            },
        ),
    }
}

/// Reads a response envelope.
pub fn read_envelope(text: &str) -> (raw: Option<RawEnvelope>)
    ensures
        match raw {
            Some(envelope) => envelope_of(text@) == Some(envelope@),
            None => envelope_of(text@) is None,
        },
{
    match parse_json(text) {
        None => None,
        Some(value) => Some(
            RawEnvelope {
                status_number: member_number(&value, "status"),
                status_unsigned: member_unsigned(&value, "status"),
                body: member_text(&value, "body"),
                headers: member_entries(&value, "headers"),
            },
        ),
    }
}

/// The model of a handler's reply.
pub enum HandlerReplyView {
    Failed,
    Reply { status: u16, body: Seq<char>, headers: Pairs },
}

/// What the foreign handler answered: a response, or nothing usable.
pub enum HandlerReply {
    Failed,
    Reply { status: u16, body: String, headers: StringMap },
}

impl View for HandlerReply {
    type V = HandlerReplyView;

    open spec fn view(&self) -> HandlerReplyView {
        match self {
            HandlerReply::Failed => HandlerReplyView::Failed,
            HandlerReply::Reply { status, body, headers } => HandlerReplyView::Reply {
                status: *status,
                body: body@,
                headers: headers@,
            },
        }
    }
}

/// The status that an envelope gives: 200 where it has none or one that
/// is no number; its own where that is an integer in 100..=599; none for
/// any other number.
pub open spec fn envelope_status(raw: RawEnvelopeView) -> Option<u16> {
    match raw.status_number {
        None => Some(200u16),
        Some(false) => Some(200u16),
        Some(true) => match raw.status_unsigned {
            Some(n) => if 100 <= n <= 599 {
                Some(n as u16)
            } else {
                None
            },
            None => None,
        },
    }
}

/// The headers that every reply starts from.
pub open spec fn default_reply_headers() -> Pairs {
    seq![
        ("content-type"@, "application/json"@),
        ("x-sufast-engine"@, "rust-python-ffi"@),
    ]
}

/// The headers after laying the string-valued members over `base`, in
/// order.
pub open spec fn overlay(
    base: Pairs,
    members: Seq<(Seq<char>, Option<Seq<char>>)>,
) -> Pairs
    decreases members.len(),
{
    if members.len() == 0 {
        base
    } else {
        let before = overlay(base, members.drop_last());
        match members.last().1 {
            Some(value) => with_entry(before, members.last().0, value),
            None => before,
        }
    }
}

/// What an envelope means: a failure where its status lies outside
/// 100..=599; else a reply with that status, the envelope's body or `{}`
/// where it has none, and the default headers overlaid with the
/// envelope's.
pub open spec fn interpreted(raw: RawEnvelopeView) -> HandlerReplyView {
    match envelope_status(raw) {
        None => HandlerReplyView::Failed,
        Some(status) => HandlerReplyView::Reply {
            status,
            body: match raw.body {
                Some(body) => body,
                None => "{}"@,
            },
            headers: match raw.headers {
                Some(members) => overlay(default_reply_headers(), members),
                None => default_reply_headers(),
            },
        },
    }
}

/// The status that an envelope gives.
fn status_of(raw: &RawEnvelope) -> (status: Option<u16>)
    ensures
        status == envelope_status(raw@),
{
    match raw.status_number {
        None => Some(200),
        Some(false) => Some(200),
        Some(true) => match raw.status_unsigned {
            Some(n) => {
                if 100 <= n && n <= 599 {
                    Some(n as u16)
                } else {
                    None
                }
            },
            None => None,
        },
    }
}

/// Interprets what was read from a response envelope.
pub fn interpret_envelope(raw: RawEnvelope) -> (reply: HandlerReply)
    ensures
        reply@ == interpreted(raw@),
{
    let status = match status_of(&raw) {
        Some(status) => status,
        None => {
            return HandlerReply::Failed;
        },
    };
    let mut headers = StringMap::new();
    headers.insert(String::from_str("content-type"), String::from_str("application/json"));
    headers.insert(String::from_str("x-sufast-engine"), String::from_str("rust-python-ffi"));
    proof {
        lemma_default_headers();
    }
    let RawEnvelope { body, headers: members, .. } = raw;
    if let Some(members) = members {
        let ghost views = entry_views(members@);
        let mut i: usize = 0;
        while i < members.len()
            invariant
                i <= members.len(),
                views == entry_views(members@),
                headers@ == overlay(default_reply_headers(), views.take(i as int)),
            decreases members.len() - i,
        {
            assert(views.take(i + 1).drop_last() =~= views.take(i as int));
            if let Some(value) = &members[i].1 {
                headers.insert(members[i].0.clone(), value.clone());
            }
            i += 1;
        }
        assert(views.take(members.len() as int) =~= views);
    }
    let body = match body {
        Some(body) => body,
        None => String::from_str("{}"),
    };
    HandlerReply::Reply { status, body, headers }
}

/// Storing the two default headers one after the other yields the default
/// headers.
proof fn lemma_default_headers()
    ensures
        with_entry(
            with_entry(Pairs::empty(), "content-type"@, "application/json"@),
            "x-sufast-engine"@,
            "rust-python-ffi"@,
        ) =~= default_reply_headers(),
{
    reveal_strlit("content-type");
    reveal_strlit("x-sufast-engine");
    assert("content-type"@.len() != "x-sufast-engine"@.len());
}

/// What a reply text means: a failure where it is not JSON, else what the
/// envelope read from it means.
pub open spec fn reply_of(text: Seq<char>) -> HandlerReplyView {
    match envelope_of(text) {
        Some(raw) => interpreted(raw),
        None => HandlerReplyView::Failed,
    }
}

/// Reads and interprets the text that the foreign handler returned.
pub fn parse_handler_reply(text: &str) -> (reply: HandlerReply)
    ensures
        reply@ == reply_of(text@),
{
    match read_envelope(text) {
        Some(raw) => interpret_envelope(raw),
        None => HandlerReply::Failed,
    }
}

} // verus!
