//! Matching a request path against a pattern segment by segment.

use vstd::prelude::*;
use vstd::slice::slice_to_vec;
use vstd::string::StringExecFns;
use crate::codec::{
    book_views, decode_utf8, is_method_name, is_status_code, method_name_ok, pair_views,
    read_route_book, route_book_of, utf8_decoded,
};
use crate::http::request::{collect_pairs, collected};
use crate::http::response::{HttpResponse, HttpResponseView};
use crate::string_map::{lookup, with_entry, Pairs, StringMap};
use crate::text::{
    chars_eq, chars_of, first_position, lemma_first_position, slice_starts_with, split_chars,
    split_on, starts_with, string_of, text_eq, texts_of, trim_chars, trimmed,
};

verus! {

/// Whether a segment of a pattern is a placeholder: it begins with `{` and
/// ends with `}`.
pub open spec fn is_placeholder_segment(segment: Seq<char>) -> bool {
    segment.len() > 0 && segment[0] == '{' && segment.last() == '}'
}

/// The parameters that the segments of a path give to the segments of a
/// pattern of the same length: a placeholder takes the segment that stands
/// where it does, under its text without braces at either end, and a later
/// placeholder of the same name overwrites an earlier one; any other
/// segment has to be the path's segment.
pub open spec fn bindings(pattern: Seq<Seq<char>>, path: Seq<Seq<char>>) -> Option<Pairs>
    decreases pattern.len(),
{
    if pattern.len() == 0 {
        Some(Pairs::empty())
    } else {
        match bindings(pattern.drop_last(), path.drop_last()) {
            None => None,
            Some(before) => if is_placeholder_segment(pattern.last()) {
                Some(with_entry(before, trimmed(pattern.last(), '{', '}'), path.last()))
            } else if pattern.last() == path.last() {
                Some(before)
            } else {
                None
            },
        }
    }
}

/// What matching `path` against `pattern` yields. Both are split at `/`
/// as they stand, so that a slash at either end makes a segment of its
/// own; they match where they have the same number of segments and
/// `bindings` gives parameters.
pub open spec fn path_match(pattern: Seq<char>, path: Seq<char>) -> Option<Pairs> {
    let pattern_parts = split_on(pattern, '/');
    let path_parts = split_on(path, '/');
    if pattern_parts.len() != path_parts.len() {
        None
    } else {
        bindings(pattern_parts, path_parts)
    }
}

/// Whether a segment of a pattern is a placeholder.
fn placeholder_segment(segment: &Vec<char>) -> (r: bool)
    ensures
        r == is_placeholder_segment(segment@),
{
    segment.len() > 0 && segment[0] == '{' && segment[segment.len() - 1] == '}'
}

/// Matches a request path like `/user/Bob` against a pattern like
/// `/user/{name}` and returns the parameters, here `name` with `Bob`.
pub fn match_path(pattern: &str, path: &str) -> (r: Option<StringMap>)
    ensures
        match r {
            Some(params) => path_match(pattern@, path@) == Some(params@),
            None => path_match(pattern@, path@) is None,
        },
{
    let pattern_chars = chars_of(pattern);
    let path_chars = chars_of(path);
    let pattern_parts = split_chars(pattern_chars.as_slice(), '/');
    let path_parts = split_chars(path_chars.as_slice(), '/');
    if pattern_parts.len() != path_parts.len() {
        return None;
    }
    let ghost pats = texts_of(pattern_parts@);
    let ghost acts = texts_of(path_parts@);
    let mut params = StringMap::new();
    let mut i: usize = 0;
    while i < pattern_parts.len()
        invariant
            i <= pattern_parts.len(),
            pattern_parts.len() == path_parts.len(),
            pats == texts_of(pattern_parts@),
            acts == texts_of(path_parts@),
            pats == split_on(pattern@, '/'),
            acts == split_on(path@, '/'),
            bindings(pats.take(i as int), acts.take(i as int)) == Some(params@),
        decreases pattern_parts.len() - i,
    {
        assert(pats.take(i + 1).drop_last() =~= pats.take(i as int));
        assert(acts.take(i + 1).drop_last() =~= acts.take(i as int));
        if placeholder_segment(&pattern_parts[i]) {
            let key = trim_chars(pattern_parts[i].as_slice(), '{', '}');
            params.insert(string_of(key), string_of(path_parts[i].as_slice()));
        } else if !chars_eq(&pattern_parts[i], &path_parts[i]) {
            proof {
                lemma_bindings_fail(pats, acts, i as int + 1);
            }
            assert(pats.take(pats.len() as int) =~= pats);
            assert(acts.take(pats.len() as int) =~= acts);
            return None;
        }
        i += 1;
    }
    assert(pats.take(pats.len() as int) =~= pats);
    assert(acts.take(pats.len() as int) =~= acts);
    Some(params)
}

/// Once a prefix gives no parameters, no longer prefix does.
proof fn lemma_bindings_fail(pattern: Seq<Seq<char>>, path: Seq<Seq<char>>, i: int)
    requires
        pattern.len() == path.len(),
        0 <= i <= pattern.len(),
        bindings(pattern.take(i), path.take(i)) is None,
    ensures
        bindings(pattern.take(pattern.len() as int), path.take(pattern.len() as int)) is None,
    decreases pattern.len() - i,
{
    if i < pattern.len() {
        assert(pattern.take(i + 1).drop_last() =~= pattern.take(i));
        assert(path.take(i + 1).drop_last() =~= path.take(i));
        lemma_bindings_fail(pattern, path, i + 1);
    }
}

/// A text with one more `c` at its end has one more piece.
proof fn lemma_split_push(s: Seq<char>, c: char)
    ensures
        split_on(s.push(c), c).len() == split_on(s, c).len() + 1,
    decreases s.len(),
{
    let longer = s.push(c);
    let k = first_position(s, c) as int;
    lemma_first_position(s, c);
    lemma_first_position(longer, c);
    if k >= s.len() {
        assert(first_position(longer, c) == s.len()) by {
            assert(longer[s.len() as int] == c);
            assert(longer.contains(c));
            if first_position(longer, c) < s.len() {
                assert(s[first_position(longer, c) as int] == longer[first_position(
                    longer,
                    c,
                ) as int]);
            }
        }
        assert(longer.skip(s.len() as int + 1) =~= Seq::<char>::empty());
        assert(split_on(Seq::<char>::empty(), c).len() == 1);
    } else {
        assert(first_position(longer, c) == k) by {
            assert(longer[k] == s[k]);
            assert forall|i: int| 0 <= i < k implies longer[i] != c by {
                assert(longer[i] == s[i]);
            }
        }
        assert(longer.skip(k + 1) =~= s.skip(k + 1).push(c));
        assert(longer.take(k) =~= s.take(k));
        lemma_split_push(s.skip(k + 1), c);
    }
}

/// A slash at the end of a path counts: of a path and the path with one
/// more `/` at its end, a pattern matches at most one.
pub proof fn law_path_match_trailing_slash(pattern: Seq<char>, path: Seq<char>)
    ensures
        path_match(pattern, path) is Some ==> path_match(pattern, path.push('/')) is None,
        path_match(pattern, path) is Some ==> path_match(pattern.push('/'), path) is None,
{
    lemma_split_push(path, '/');
    lemma_split_push(pattern, '/');
}

/// The text with each occurrence of `pattern` replaced by `with`, the
/// occurrences taken from left to right and without overlap. With an
/// empty pattern the text stays as it is.
pub open spec fn replaced_all(text: Seq<char>, pattern: Seq<char>, with: Seq<char>) -> Seq<char>
    decreases text.len(),
{
    if pattern.len() == 0 || text.len() < pattern.len() {
        text
    } else if starts_with(text, pattern) {
        with + replaced_all(text.skip(pattern.len() as int), pattern, with)
    } else {
        Seq::empty().push(text[0]) + replaced_all(text.skip(1), pattern, with)
    }
}

/// Replaces each occurrence of `pattern` in `text` by `with`.
pub fn replace_all(text: &[char], pattern: &[char], with: &[char]) -> (out: Vec<char>)
    ensures
        out@ == replaced_all(text@, pattern@, with@),
{
    if pattern.len() == 0 {
        return slice_to_vec(text);
    }
    let mut out: Vec<char> = Vec::new();
    let mut pos: usize = 0;
    assert(text@.skip(0) =~= text@);
    while pos < text.len()
        invariant
            pos <= text.len(),
            pattern.len() > 0,
            out@ + replaced_all(text@.skip(pos as int), pattern@, with@) == replaced_all(
                text@,
                pattern@,
                with@,
            ),
        decreases text.len() - pos,
    {
        let ghost before = out@;
        let ghost rest = text@.skip(pos as int);
        if slice_starts_with(text, pos, pattern) {
            let mut i: usize = 0;
            while i < with.len()
                invariant
                    i <= with.len(),
                    out@ == before + with@.take(i as int),
                decreases with.len() - i,
            {
                out.push(with[i]);
                i += 1;
            }
            assert(rest.skip(pattern@.len() as int) =~= text@.skip(pos + pattern@.len()));
            pos = pos + pattern.len();
        } else {
            out.push(text[pos]);
            assert(rest.skip(1) =~= text@.skip(pos + 1));
            proof {
                if rest.len() < pattern@.len() {
                    lemma_short_text(rest.skip(1), pattern@, with@);
                }
            }
            pos = pos + 1;
        }
    }
    out
}

/// A text shorter than the pattern holds no occurrence of it.
proof fn lemma_short_text(text: Seq<char>, pattern: Seq<char>, with: Seq<char>)
    requires
        text.len() < pattern.len(),
    ensures
        replaced_all(text, pattern, with) == text,
{
}

/// The body in which each parameter's placeholder, its name in braces, is
/// replaced by its value, parameter by parameter in order.
pub open spec fn filled_template(template: Seq<char>, params: Pairs) -> Seq<char>
    decreases params.len(),
{
    if params.len() == 0 {
        template
    } else {
        replaced_all(
            filled_template(template, params.drop_last()),
            "{"@ + params.last().0 + "}"@,
            params.last().1,
        )
    }
}

/// Fills the placeholders of a body with the values of the parameters.
pub fn fill_template(template: &str, params: &StringMap) -> (out: String)
    ensures
        out@ == filled_template(template@, params@),
{
    let mut text = chars_of(template);
    let mut i: usize = 0;
    while i < params.len()
        invariant
            i <= params@.len(),
            text@ == filled_template(template@, params@.take(i as int)),
        decreases params@.len() - i,
    {
        assert(params@.take(i + 1).drop_last() =~= params@.take(i as int));
        let mut placeholder: Vec<char> = Vec::new();
        placeholder.push('{');
        let name = chars_of(params.name_at(i).as_str());
        let mut k: usize = 0;
        while k < name.len()
            invariant
                k <= name.len(),
                placeholder@ == Seq::<char>::empty().push('{') + name@.take(k as int),
            decreases name.len() - k,
        {
            placeholder.push(name[k]);
            k += 1;
        }
        placeholder.push('}');
        proof {
            reveal_strlit("{");
            reveal_strlit("}");
            assert(placeholder@ =~= "{"@ + name@ + "}"@);
        }
        let value = chars_of(params.value_at(i).as_str());
        text = replace_all(text.as_slice(), placeholder.as_slice(), value.as_slice());
        i += 1;
    }
    assert(params@.take(params@.len() as int) =~= params@);
    string_of(text.as_slice())
}

/// The model of a route book: for each method, in order, its routes, each
/// a path or pattern with a body.
pub type RouteBookView = Seq<(Seq<char>, Pairs)>;

/// The routes of each method.
pub struct RouteBook {
    pub methods: Vec<(String, StringMap)>,
}

impl View for RouteBook {
    type V = RouteBookView;

    open spec fn view(&self) -> RouteBookView {
        Seq::new(self.methods@.len(), |i: int| (self.methods@[i].0@, self.methods@[i].1@))
    }
}

/// The position of the first entry for `method`, or the number of entries
/// where there is none.
pub open spec fn method_position(book: RouteBookView, method: Seq<char>) -> nat
    decreases book.len(),
{
    if book.len() == 0 || book[0].0 == method {
        0
    } else {
        1 + method_position(book.skip(1), method)
    }
}

/// The position of the first route whose pattern the path matches, or
/// the number of routes where it matches none.
pub open spec fn first_matching(routes: Pairs, path: Seq<char>) -> nat
    decreases routes.len(),
{
    if routes.len() == 0 || path_match(routes[0].0, path) is Some {
        0
    } else {
        1 + first_matching(routes.skip(1), path)
    }
}

/// The body of the response for a request that no route answers.
pub open spec fn unrouted_body(method: Seq<char>, path: Seq<char>) -> Seq<char> {
    "{\"error\":\"Route not found\",\"method\":\""@ + method + "\",\"path\":\""@ + path
        + "\"}"@
}

/// What a request is answered with: the status and the body. The routes
/// of its method answer it: the one under the very path, else the first
/// whose pattern the path matches, with its body's placeholders filled;
/// otherwise the answer is 404.
pub open spec fn resolution(book: RouteBookView, method: Seq<char>, path: Seq<char>) -> (
    u16,
    Seq<char>,
) {
    let at = method_position(book, method);
    if at == book.len() {
        (404, unrouted_body(method, path))
    } else {
        let routes = book[at as int].1;
        match lookup(routes, path) {
            Some(body) => (200, body),
            None => {
                let i = first_matching(routes, path);
                if i < routes.len() {
                    (
                        200,
                        filled_template(routes[i as int].1, path_match(routes[i as int].0, path)->0),
                    )
                } else {
                    (404, unrouted_body(method, path))
                }
            },
        }
    }
}

/// The routes that a book read from JSON states: those of each name that
/// names a method, the routes of a later entry of the same name
/// overwriting those of an earlier one.
pub open spec fn stated_routes(
    entries: Seq<(Seq<char>, Seq<(Seq<char>, Seq<char>)>)>,
) -> RouteBookView
    decreases entries.len(),
{
    if entries.len() == 0 {
        Seq::empty()
    } else {
        let before = stated_routes(entries.drop_last());
        if is_method_name(entries.last().0) {
            let at = method_position(before, entries.last().0);
            let routes = collected(entries.last().1);
            if at < before.len() {
                before.update(at as int, (entries.last().0, routes))
            } else {
                before.push((entries.last().0, routes))
            }
        } else {
            before
        }
    }
}

/// The route book that bytes state: none where there are no bytes, where
/// they are no UTF-8, and where the text is no JSON of the right shape.
pub open spec fn parsed_routes(bytes: Seq<u8>) -> Option<RouteBookView> {
    if bytes.len() == 0 {
        None
    } else {
        match utf8_decoded(bytes) {
            None => None,
            Some(text) => match route_book_of(text) {
                None => None,
                Some(entries) => Some(stated_routes(entries)),
            },
        }
    }
}

impl RouteBook {
    /// The book without routes.
    pub fn new() -> (book: RouteBook)
        ensures
            book@ == RouteBookView::empty(),
    {
        RouteBook { methods: Vec::new() }
    }

    /// The position of the first entry for `method`, or the number of
    /// entries.
    fn position(&self, method: &str) -> (at: usize)
        ensures
            at == method_position(self@, method@),
            at <= self.methods@.len(),
    {
        let ghost book = self@;
        let mut i: usize = 0;
        assert(book.skip(0) =~= book);
        while i < self.methods.len() && !text_eq(self.methods[i].0.as_str(), method)
            invariant
                i <= self.methods.len(),
                book == self@,
                method_position(book, method@) == i + method_position(
                    book.skip(i as int),
                    method@,
                ),
            decreases self.methods.len() - i,
        {
            assert(book.skip(i as int).skip(1) =~= book.skip(i + 1));
            i += 1;
        }
        i
    }

    /// Reads a route book from JSON: an object that gives, for each
    /// method, an object from paths to bodies.
    pub fn parse(json: &[u8]) -> (r: Option<RouteBook>)
        ensures
            match r {
                Some(book) => parsed_routes(json@) == Some(book@),
                None => parsed_routes(json@) is None,
            },
    {
        if json.len() == 0 {
            return None;
        }
        let text = match decode_utf8(json) {
            Some(text) => text,
            None => {
                return None;
            },
        };
        let entries = match read_route_book(text.as_str()) {
            Some(entries) => entries,
            None => {
                return None;
            },
        };
        let ghost views = book_views(entries@);
        let mut book = RouteBook::new();
        let mut i: usize = 0;
        while i < entries.len()
            invariant
                i <= entries.len(),
                views == book_views(entries@),
                book@ == stated_routes(views.take(i as int)),
            decreases entries.len() - i,
        {
            assert(views.take(i + 1).drop_last() =~= views.take(i as int));
            if method_name_ok(entries[i].0.as_str()) {
                let at = book.position(entries[i].0.as_str());
                let routes = collect_pairs(copy_pairs(&entries[i].1));
                if at < book.methods.len() {
                    book.methods.set(at, (entries[i].0.clone(), routes));
                } else {
                    book.methods.push((entries[i].0.clone(), routes));
                }
            }
            i += 1;
        }
        assert(views.take(entries.len() as int) =~= views);
        Some(book)
    }

    /// Answers a request with a status and a body.
    pub fn resolve(&self, method: &str, path: &str) -> (answer: (u16, String))
        ensures
            (answer.0, answer.1@) == resolution(self@, method@, path@),
    {
        let at = self.position(method);
        if at < self.methods.len() {
            let routes = &self.methods[at].1;
            if let Some(body) = routes.get(path) {
                return (200, body.clone());
            }
            let ghost pairs = routes@;
            let mut i: usize = 0;
            assert(pairs.skip(0) =~= pairs);
            while i < routes.len()
                invariant
                    i <= routes@.len(),
                    pairs == routes@,
                    at == method_position(self@, method@),
                    at < self@.len(),
                    self@[at as int].1 == pairs,
                    lookup(pairs, path@) is None,
                    first_matching(pairs, path@) == i + first_matching(
                        pairs.skip(i as int),
                        path@,
                    ),
                decreases routes@.len() - i,
            {
                assert(pairs.skip(i as int).skip(1) =~= pairs.skip(i + 1));
                if let Some(params) = match_path(routes.name_at(i).as_str(), path) {
                    return (200, fill_template(routes.value_at(i).as_str(), &params));
                }
                i += 1;
            }
        }
        let mut body = String::from_str("{\"error\":\"Route not found\",\"method\":\"");
        body.append(method);
        body.append("\",\"path\":\"");
        body.append(path);
        body.append("\"}");
        (404, body)
    }
}

/// A copy of the pairs.
fn copy_pairs(pairs: &Vec<(String, String)>) -> (out: Vec<(String, String)>)
    ensures
        pair_views(out@) == pair_views(pairs@),
{
    let mut out: Vec<(String, String)> = Vec::new();
    let mut i: usize = 0;
    while i < pairs.len()
        invariant
            i <= pairs.len(),
            out@.len() == i,
            forall|j: int|
                0 <= j < i ==> out@[j].0@ == pairs@[j].0@ && out@[j].1@ == pairs@[j].1@,
        decreases pairs.len() - i,
    {
        out.push((pairs[i].0.clone(), pairs[i].1.clone()));
        i += 1;
    }
    out
}

/// The status that a response is sent with: the code given where it is a
/// status code, else 200.
pub open spec fn response_status(code: u16) -> u16 {
    if 100 <= code <= 999 {
        code
    } else {
        200u16
    }
}

/// A JSON response with the given status code and body.
pub fn json_response(status_code: u16, body: String) -> (response: HttpResponse)
    ensures
        response@ == (HttpResponseView {
            status: response_status(status_code),
            headers: with_entry(Pairs::empty(), "content-type"@, "application/json"@),
            body: body@,
        }),
{
    let status = if is_status_code(status_code) {
        status_code
    } else {
        200
    };
    let mut response = HttpResponse::new();
    response.status = status;
    response.headers.insert(String::from_str("content-type"), String::from_str("application/json"));
    response.body = body;
    response
}

} // verus!
