//! Matching without types: every placeholder stands for one or more
//! characters other than `/`. Also the textual matcher form, in which
//! `[^/]+` stands for a placeholder and a backslash escapes the character
//! after it.

use vstd::prelude::*;
use vstd::slice::{slice_subrange, slice_to_vec};
use crate::routing::matcher::{capture, matches_elements};
use crate::routing::param::ParamType;
use crate::routing::pattern::{
    element_views, prepend, read_elements, scan, scan_elements, Element, ElementView,
};
use crate::routing::simple_laws::law_matcher_form_agrees;
use crate::text::{chars_of, slice_starts_with, starts_with, string_of};

verus! {

/// Whether `path` matches `pattern` from end to end, each placeholder
/// standing for one or more characters other than `/`.
pub open spec fn matches_untyped(pattern: Seq<char>, path: Seq<char>) -> bool {
    capture(read_elements(scan(pattern, 0), false), path) is Some
}

/// Whether `path` matches `pattern`, whose placeholders `{...}` each stand
/// for one or more characters other than `/`. The pattern is written in
/// its matcher form and the path is matched against that.
pub fn pattern_matches(pattern: &str, path: &str) -> (r: bool)
    ensures
        r == matches_untyped(pattern@, path@),
{
    proof {
        law_matcher_form_agrees(pattern@, path@);
    }
    let source = matcher_source(pattern);
    pattern_matches_simple(source.as_str(), path)
}

/// Whether a character has a meaning of its own in the matcher form.
pub open spec fn is_special(c: char) -> bool {
    c == '.' || c == '+' || c == '*' || c == '?' || c == '^' || c == '$' || c == '(' || c == ')'
        || c == '[' || c == ']' || c == '\\' || c == '|'
}

/// The matcher form of a character: the character, with a backslash
/// before it where it is special.
pub open spec fn escaped_char(c: char) -> Seq<char> {
    if is_special(c) {
        Seq::empty().push('\\').push(c)
    } else {
        Seq::empty().push(c)
    }
}

/// The matcher form of literal text: each special character with a
/// backslash before it.
pub open spec fn escaped_literal(text: Seq<char>) -> Seq<char>
    decreases text.len(),
{
    if text.len() == 0 {
        Seq::empty()
    } else {
        escaped_char(text[0]) + escaped_literal(text.skip(1))
    }
}

/// The matcher form of an element: `[^/]+` for a parameter, the escaped
/// text for a literal.
pub open spec fn element_source(element: ElementView) -> Seq<char> {
    match element {
        ElementView::Literal(text) => escaped_literal(text),
        ElementView::Param { .. } => "[^/]+"@,
    }
}

/// The matcher form of elements, one after the other.
pub open spec fn source_of(elements: Seq<ElementView>) -> Seq<char>
    decreases elements.len(),
{
    if elements.len() == 0 {
        Seq::empty()
    } else {
        element_source(elements[0]) + source_of(elements.skip(1))
    }
}

/// The matcher form of a pattern, anchored at both ends.
pub open spec fn anchored_source(pattern: Seq<char>) -> Seq<char> {
    "^"@ + source_of(read_elements(scan(pattern, 0), false)) + "$"@
}

/// Whether a character has a meaning of its own in the matcher form.
fn special(c: char) -> (r: bool)
    ensures
        r == is_special(c),
{
    c == '.' || c == '+' || c == '*' || c == '?' || c == '^' || c == '$' || c == '(' || c == ')'
        || c == '[' || c == ']' || c == '\\' || c == '|'
}

/// Appends the matcher form of literal text.
fn escape_literal(text: &Vec<char>, out: &mut Vec<char>)
    ensures
        final(out)@ == old(out)@ + escaped_literal(text@),
{
    let ghost before = out@;
    let mut i: usize = 0;
    assert(text@.skip(0) =~= text@);
    while i < text.len()
        invariant
            i <= text.len(),
            out@ + escaped_literal(text@.skip(i as int)) == before + escaped_literal(text@),
        decreases text.len() - i,
    {
        let c = text[i];
        let ghost rest = text@.skip(i as int);
        assert(rest.skip(1) =~= text@.skip(i + 1));
        if special(c) {
            out.push('\\');
            out.push(c);
        } else {
            out.push(c);
        }
        i += 1;
    }
}

/// Writes the matcher form of a pattern, anchored at both ends.
pub fn matcher_source(pattern: &str) -> (source: String)
    ensures
        source@ == anchored_source(pattern@),
{
    let p = chars_of(pattern);
    let (elements, _) = scan_elements(p.as_slice(), false);
    let ghost views = element_views(elements@);
    let mut out: Vec<char> = Vec::new();
    out.push('^');
    proof {
        reveal_strlit("^");
        reveal_strlit("$");
    }
    let mut i: usize = 0;
    assert(views.skip(0) =~= views);
    while i < elements.len()
        invariant
            i <= elements.len(),
            views == element_views(elements@),
            out@ + source_of(views.skip(i as int)) == "^"@ + source_of(views),
        decreases elements.len() - i,
    {
        let ghost rest = views.skip(i as int);
        assert(rest.skip(1) =~= views.skip(i + 1));
        match &elements[i] {
            Element::Literal(text) => {
                escape_literal(text, &mut out);
            },
            Element::Param { .. } => {
                out.push('[');
                out.push('^');
                out.push('/');
                out.push(']');
                out.push('+');
                proof {
                    reveal_strlit("[^/]+");
                }
            },
        }
        i += 1;
    }
    out.push('$');
    string_of(out.as_slice())
}

/// The elements that a text in matcher form denotes, from position `pos`
/// on: `[^/]+` is a parameter, a backslash with a character after it is
/// that character, and every other character is itself.
pub open spec fn source_elements(source: Seq<char>, pos: int) -> Seq<ElementView>
    decreases
            if pos < source.len() {
                source.len() - pos
            } else {
                0
            },
{
    if pos < 0 || pos >= source.len() {
        Seq::empty()
    } else if starts_with(source.skip(pos), "[^/]+"@) {
        prepend(
            ElementView::Param { name: Seq::empty(), kind: ParamType::String },
            source_elements(source, pos + 5),
        )
    } else if source[pos] == '\\' && pos + 1 < source.len() {
        prepend(
            ElementView::Literal(source.subrange(pos + 1, pos + 2)),
            source_elements(source, pos + 2),
        )
    } else {
        prepend(
            ElementView::Literal(source.subrange(pos, pos + 1)),
            source_elements(source, pos + 1),
        )
    }
}

/// Reads the elements that a text in matcher form denotes.
fn read_source(source: &[char]) -> (elements: Vec<Element>)
    ensures
        element_views(elements@) == source_elements(source@, 0),
{
    let token = chars_of("[^/]+");
    proof {
        reveal_strlit("[^/]+");
    }
    let mut elements: Vec<Element> = Vec::new();
    let mut pos: usize = 0;
    while pos < source.len()
        invariant
            pos <= source.len(),
            token@ == "[^/]+"@,
            token@.len() == 5,
            element_views(elements@) + source_elements(source@, pos as int) == source_elements(
                source@,
                0,
            ),
        decreases source.len() - pos,
    {
        if slice_starts_with(source, pos, token.as_slice()) {
            let element = Element::Param { name: String::new(), kind: ParamType::String };
            elements.push(element);
            pos += 5;
        } else if source[pos] == '\\' && pos + 1 < source.len() {
            let run = slice_to_vec(slice_subrange(source, pos + 1, pos + 2));
            elements.push(Element::Literal(run));
            pos += 2;
        } else {
            let run = slice_to_vec(slice_subrange(source, pos, pos + 1));
            elements.push(Element::Literal(run));
            pos += 1;
        }
    }
    elements
}

/// Whether `path` matches a text in matcher form from end to end.
pub fn match_segments(pattern: &str, path: &str) -> (r: bool)
    ensures
        r == capture(source_elements(pattern@, 0), path@) is Some,
{
    let source = chars_of(pattern);
    let x = chars_of(path);
    let elements = read_source(source.as_slice());
    matches_elements(&elements, x.as_slice())
}

/// The text without a leading `^` and, after that, without a trailing `$`.
pub open spec fn without_anchors(source: Seq<char>) -> Seq<char> {
    let tail = if source.len() > 0 && source[0] == '^' {
        source.skip(1)
    } else {
        source
    };
    if tail.len() > 0 && tail.last() == '$' {
        tail.drop_last()
    } else {
        tail
    }
}

/// Whether `path` matches a text in matcher form, which may be anchored
/// with `^` and `$`.
pub fn pattern_matches_simple(pattern: &str, path: &str) -> (r: bool)
    ensures
        r == capture(source_elements(without_anchors(pattern@), 0), path@) is Some,
{
    let source = chars_of(pattern);
    let x = chars_of(path);
    let all = source.as_slice();
    let tail = if all.len() > 0 && all[0] == '^' {
        slice_subrange(all, 1, all.len())
    } else {
        all
    };
    let body = if tail.len() > 0 && tail[tail.len() - 1] == '$' {
        slice_subrange(tail, 0, tail.len() - 1)
    } else {
        tail
    };
    let elements = read_source(body);
    matches_elements(&elements, x.as_slice())
}

} // verus!
