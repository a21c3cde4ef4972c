//! What holds of the textual matcher form.

use vstd::prelude::*;
use crate::routing::matcher::{capture, capture_longest};
use crate::routing::param::ParamType;
use crate::routing::pattern::{prepend, read_elements, scan, ElementView, RawElement};
use crate::routing::simple::{
    anchored_source, escaped_char, escaped_literal, is_special,
    matches_untyped, source_elements, source_of, without_anchors,
};
use crate::text::starts_with;

verus! {

/// Every parameter is of kind `String`.
pub open spec fn all_untyped(elements: Seq<ElementView>) -> bool {
    forall|i: int|
        0 <= i < elements.len() ==> match #[trigger] elements[i] {
            ElementView::Param { kind, .. } => kind == ParamType::String,
            ElementView::Literal(_) => true,
        }
}

/// The characters of a text, each as a literal of its own.
pub open spec fn singles(text: Seq<char>) -> Seq<ElementView>
    decreases text.len(),
{
    if text.len() == 0 {
        Seq::empty()
    } else {
        prepend(ElementView::Literal(text.take(1)), singles(text.skip(1)))
    }
}

/// What a matcher form denotes from some position on depends on its text
/// from that position on alone.
proof fn lemma_source_shift(head: Seq<char>, tail: Seq<char>, pos: int)
    requires
        0 <= pos,
    ensures
        source_elements(head + tail, head.len() + pos) == source_elements(tail, pos),
    decreases tail.len() - pos,
{
    let whole = head + tail;
    let at = head.len() + pos;
    if pos < tail.len() {
        assert(whole.skip(at) =~= tail.skip(pos));
        if starts_with(tail.skip(pos), "[^/]+"@) {
            reveal_strlit("[^/]+");
            lemma_source_shift(head, tail, pos + 5);
        } else if tail[pos] == '\\' && pos + 1 < tail.len() {
            assert(whole.subrange(at + 1, at + 2) =~= tail.subrange(pos + 1, pos + 2));
            lemma_source_shift(head, tail, pos + 2);
        } else {
            assert(whole.subrange(at, at + 1) =~= tail.subrange(pos, pos + 1));
            lemma_source_shift(head, tail, pos + 1);
        }
    }
}

/// The matcher form of a literal denotes its characters, one by one.
proof fn lemma_literal_source(text: Seq<char>, tail: Seq<char>)
    ensures
        source_elements(escaped_literal(text) + tail, 0) == singles(text) + source_elements(
            tail,
            0,
        ),
    decreases text.len(),
{
    if text.len() > 0 {
        let c = text[0];
        let rest = escaped_literal(text.skip(1)) + tail;
        let whole = escaped_literal(text) + tail;
        assert(whole =~= escaped_char(c) + rest);
        reveal_strlit("[^/]+");
        assert("[^/]+"@[0] == '[');
        lemma_literal_source(text.skip(1), tail);
        lemma_source_shift(escaped_char(c), rest, 0);
        if is_special(c) {
            assert(whole.subrange(1, 2) =~= text.take(1));
        } else {
            assert(whole.subrange(0, 1) =~= text.take(1));
        }
    }
}

/// Literals of one character each match what the text that they spell
/// matches as one literal.
proof fn lemma_singles_match(text: Seq<char>, rest: Seq<ElementView>, path: Seq<char>)
    ensures
        capture(singles(text) + rest, path) == if starts_with(path, text) {
            capture(rest, path.skip(text.len() as int))
        } else {
            None
        },
    decreases text.len(),
{
    if text.len() == 0 {
        assert(path.take(0) =~= text);
        assert(path.skip(0) =~= path);
    } else {
        let elements = singles(text) + rest;
        let after = singles(text.skip(1)) + rest;
        assert(elements.skip(1) =~= after);
        lemma_singles_match(text.skip(1), rest, path.skip(1));
        if starts_with(path, text.take(1)) {
            assert(path.take(1)[0] == text.take(1)[0]);
            if starts_with(path.skip(1), text.skip(1)) {
                assert(path.take(text.len() as int) =~= text) by {
                    assert forall|i: int| 0 <= i < text.len() implies path[i] == text[i] by {
                        if i > 0 {
                            assert(path.skip(1).take(text.len() - 1)[i - 1] == text.skip(1)[i - 1]);
                        }
                    }
                }
                assert(path.skip(1).skip(text.len() - 1) =~= path.skip(text.len() as int));
            } else if starts_with(path, text) {
                assert(path.skip(1).take(text.len() - 1) =~= text.skip(1)) by {
                    assert forall|i: int| 0 <= i < text.len() - 1 implies path.skip(1)[i]
                        == text.skip(1)[i] by {}
                }
            }
        } else if starts_with(path, text) {
            assert(path.take(1) =~= text.take(1));
        }
    }
}

/// Patterns that match the same paths do so after a parameter too.
proof fn lemma_longest_agrees(
    kind: ParamType,
    a: Seq<ElementView>,
    b: Seq<ElementView>,
    path: Seq<char>,
    n: nat,
)
    requires
        forall|rest: Seq<char>| #[trigger] capture(a, rest) == capture(b, rest),
    ensures
        capture_longest(kind, a, path, n) == capture_longest(kind, b, path, n),
    decreases n,
{
    if n > 0 {
        assert(capture(a, path.skip(n as int)) == capture(b, path.skip(n as int)));
        lemma_longest_agrees(kind, a, b, path, (n - 1) as nat);
    }
}

/// The matcher form of untyped elements denotes elements that capture
/// just what they capture.
pub proof fn lemma_source_round_trip(elements: Seq<ElementView>, path: Seq<char>)
    requires
        all_untyped(elements),
    ensures
        capture(source_elements(source_of(elements), 0), path) == capture(elements, path),
    decreases elements.len(),
{
    if elements.len() > 0 {
        let rest = elements.skip(1);
        let tail = source_of(rest);
        let read_tail = source_elements(tail, 0);
        assert(all_untyped(rest)) by {
            assert forall|i: int| 0 <= i < rest.len() implies match #[trigger] rest[i] {
                ElementView::Param { kind, .. } => kind == ParamType::String,
                ElementView::Literal(_) => true,
            } by {}
        }
        assert forall|other: Seq<char>| #[trigger]
            capture(read_tail, other) == capture(rest, other) by {
            lemma_source_round_trip(rest, other);
        }
        match elements[0] {
            ElementView::Literal(text) => {
                lemma_literal_source(text, tail);
                lemma_singles_match(text, read_tail, path);
            },
            ElementView::Param { name, kind } => {
                let whole = "[^/]+"@ + tail;
                reveal_strlit("[^/]+");
                lemma_source_shift("[^/]+"@, tail, 0);
                assert(whole.skip(0) =~= whole);
                assert(whole.take(5) =~= "[^/]+"@);
                let read = source_elements(whole, 0);
                assert(read.skip(1) =~= read_tail);
                lemma_longest_agrees(ParamType::String, read_tail, rest, path, path.len());
            },
        }
    }
}

/// The elements of a pattern read without types are untyped.
proof fn lemma_read_untyped(raws: Seq<RawElement>)
    ensures
        all_untyped(read_elements(raws, false)),
{
}

/// Matching through the matcher form agrees with matching the pattern: a
/// path matches the anchored matcher form of a pattern exactly where it
/// matches the pattern read without types.
pub proof fn law_matcher_form_agrees(pattern: Seq<char>, path: Seq<char>)
    ensures
        without_anchors(anchored_source(pattern)) == source_of(
            read_elements(scan(pattern, 0), false),
        ),
        capture(source_elements(without_anchors(anchored_source(pattern)), 0), path) is Some
            <==> matches_untyped(pattern, path),
{
    let elements = read_elements(scan(pattern, 0), false);
    let source = source_of(elements);
    reveal_strlit("^");
    reveal_strlit("$");
    let anchored = "^"@ + source + "$"@;
    assert(anchored[0] == '^');
    lemma_read_untyped(scan(pattern, 0));
    lemma_source_round_trip(elements, path);
}

} // verus!
