//! What holds of compiling and matching, for every pattern and path.

use vstd::prelude::*;
use crate::routing::matcher::{
    bind, capture, capture_longest, descriptors, extraction,
    lemma_capture_len, lemma_descriptors_distinct, lemma_descriptors_front,
    lemma_descriptors_prefix, lemma_descriptors_step,
};
use crate::routing::param::{accepts, validates, ParamType};
use crate::routing::pattern::{
    compiled, distinct_params, interpret_all, literal_run, opens_placeholder,
    prepend, scan, ElementView, PatternError, RawElement,
};
use crate::string_map::{distinct_names, lemma_index_of, lookup, Pairs};
use crate::text::starts_with;

verus! {

/// The pattern's text with the k-th parameter replaced by the k-th value.
pub open spec fn fill(elements: Seq<ElementView>, values: Seq<Seq<char>>) -> Seq<char>
    decreases elements.len(),
{
    if elements.len() == 0 {
        Seq::empty()
    } else {
        match elements[0] {
            ElementView::Literal(text) => text + fill(elements.skip(1), values),
            ElementView::Param { .. } => if values.len() > 0 {
                values[0] + fill(elements.skip(1), values.skip(1))
            } else {
                fill(elements.skip(1), values)
            },
        }
    }
}

/// The pattern's text with each parameter replaced by the value that
/// `params` holds under the parameter's name.
pub open spec fn substitute(elements: Seq<ElementView>, params: Pairs) -> Seq<char>
    decreases elements.len(),
{
    if elements.len() == 0 {
        Seq::empty()
    } else {
        match elements[0] {
            ElementView::Literal(text) => text + substitute(elements.skip(1), params),
            ElementView::Param { name, .. } => match lookup(params, name) {
                Some(value) => value + substitute(elements.skip(1), params),
                None => substitute(elements.skip(1), params),
            },
        }
    }
}

/// Every value is one that its descriptor's kind captures.
pub open spec fn all_accepted(
    descs: Seq<(Seq<char>, ParamType)>,
    values: Seq<Seq<char>>,
) -> bool {
    forall|k: int| 0 <= k < descs.len() ==> accepts(#[trigger] descs[k].1, values[k])
}

/// A match captures one value per parameter, each of its parameter's
/// kind, and the pattern filled with them is the path.
pub proof fn lemma_capture_sound(elements: Seq<ElementView>, path: Seq<char>)
    requires
        capture(elements, path) is Some,
    ensures
        capture(elements, path)->0.len() == descriptors(elements).len(),
        all_accepted(descriptors(elements), capture(elements, path)->0),
        fill(elements, capture(elements, path)->0) == path,
    decreases elements.len(), 0nat, 0nat,
{
    lemma_capture_len(elements, path);
    if elements.len() > 0 {
        lemma_descriptors_front(elements);
        let rest = elements.skip(1);
        match elements[0] {
            ElementView::Literal(text) => {
                lemma_capture_sound(rest, path.skip(text.len() as int));
            },
            ElementView::Param { name, kind } => {
                lemma_capture_longest_sound(kind, rest, path, path.len());
                let values = capture(elements, path)->0;
                let descs = descriptors(elements);
                assert forall|k: int| 0 <= k < descs.len() implies accepts(
                    #[trigger] descs[k].1,
                    values[k],
                ) by {}
            },
        }
    }
}

/// What the longest-first search captures: a first value of the parameter's
/// kind, and values for the rest, which together fill the pattern to the
/// path.
proof fn lemma_capture_longest_sound(
    kind: ParamType,
    rest: Seq<ElementView>,
    path: Seq<char>,
    n: nat,
)
    requires
        capture_longest(kind, rest, path, n) is Some,
    ensures
        ({
            let values = capture_longest(kind, rest, path, n)->0;
            &&& values.len() == descriptors(rest).len() + 1
            &&& accepts(kind, values[0])
            &&& all_accepted(descriptors(rest), values.skip(1))
            &&& values[0] + fill(rest, values.skip(1)) == path
        }),
    decreases rest.len(), 1nat, n,
{
    if n > 0 {
        if n <= path.len() && accepts(kind, path.take(n as int)) && capture(
            rest,
            path.skip(n as int),
        ) is Some {
            lemma_capture_sound(rest, path.skip(n as int));
            let inner = capture(rest, path.skip(n as int))->0;
            let values = prepend(path.take(n as int), inner);
            assert(values.skip(1) =~= inner);
        } else {
            lemma_capture_longest_sound(kind, rest, path, (n - 1) as nat);
        }
    }
}

/// Filling by position and substituting by name agree from any element on,
/// where the names are distinct and the values stand under them.
proof fn lemma_substitute_is_fill(
    elements: Seq<ElementView>,
    values: Seq<Seq<char>>,
    i: int,
)
    requires
        distinct_params(elements),
        values.len() == descriptors(elements).len(),
        0 <= i <= elements.len(),
    ensures
        substitute(elements.skip(i), bind(descriptors(elements), values)) == fill(
            elements.skip(i),
            values.skip(descriptors(elements.take(i)).len() as int),
        ),
    decreases elements.len() - i,
{
    let descs = descriptors(elements);
    let params = bind(descs, values);
    let here = elements.skip(i);
    let done = descriptors(elements.take(i)).len() as int;
    if i < elements.len() {
        lemma_substitute_is_fill(elements, values, i + 1);
        lemma_descriptors_step(elements, i);
        lemma_descriptors_prefix(elements, i);
        lemma_descriptors_prefix(elements, i + 1);
        lemma_descriptors_distinct(elements);
        assert(here.skip(1) =~= elements.skip(i + 1));
        match elements[i] {
            ElementView::Literal(_) => {},
            ElementView::Param { name, kind } => {
                let longer = descriptors(elements.take(i + 1));
                assert(longer[done] == (name, kind));
                assert(distinct_names(params)) by {
                    assert forall|a: int, b: int|
                        0 <= a < params.len() && 0 <= b < params.len() && a != b implies params[a].0
                        != params[b].0 by {}
                }
                lemma_index_of(params, done);
                assert(values.skip(done).skip(1) =~= values.skip(done + 1));
            },
        }
    }
}

/// Where extraction succeeds, the pattern with every placeholder replaced
/// by the value extracted under its name is the path, and each value is
/// one that its parameter's type accepts.
pub proof fn law_extraction_round_trip(elements: Seq<ElementView>, path: Seq<char>)
    requires
        distinct_params(elements),
        extraction(elements, path) is Some,
    ensures
        substitute(elements, extraction(elements, path)->0) == path,
        extraction(elements, path)->0.len() == descriptors(elements).len(),
        forall|k: int|
            0 <= k < descriptors(elements).len() ==> {
                &&& (#[trigger] extraction(elements, path)->0[k]).0 == descriptors(elements)[k].0
                &&& validates(descriptors(elements)[k].1, extraction(elements, path)->0[k].1)
            },
{
    let values = capture(elements, path)->0;
    lemma_capture_sound(elements, path);
    lemma_substitute_is_fill(elements, values, 0);
    assert(elements.skip(0) =~= elements);
    assert(values.skip(0) =~= values);
}

/// Whether the values fit the pattern: there is one for each parameter,
/// and each is one that its parameter's kind captures.
pub open spec fn fits(elements: Seq<ElementView>, values: Seq<Seq<char>>) -> bool {
    values.len() == descriptors(elements).len() && all_accepted(descriptors(elements), values)
}

/// A value that a kind captures is not empty.
proof fn lemma_accepted_is_not_empty(kind: ParamType, value: Seq<char>)
    requires
        accepts(kind, value),
    ensures
        value.len() >= 1,
{
    match kind {
        ParamType::Float => {
            crate::text::lemma_first_position(crate::routing::param::unsigned_part(value), '.');
        },
        _ => {},
    }
}

/// Where some length up to `n` suits the parameter and lets the rest
/// match, the longest-first search succeeds.
proof fn lemma_capture_longest_finds(
    kind: ParamType,
    rest: Seq<ElementView>,
    path: Seq<char>,
    n: nat,
    m: nat,
)
    requires
        1 <= m <= n,
        m <= path.len(),
        accepts(kind, path.take(m as int)),
        capture(rest, path.skip(m as int)) is Some,
    ensures
        capture_longest(kind, rest, path, n) is Some,
    decreases n,
{
    if n > m {
        if !(n <= path.len() && accepts(kind, path.take(n as int)) && capture(
            rest,
            path.skip(n as int),
        ) is Some) {
            lemma_capture_longest_finds(kind, rest, path, (n - 1) as nat, m);
        }
    }
}

/// A path that is the pattern filled with fitting values matches.
pub proof fn lemma_capture_complete(
    elements: Seq<ElementView>,
    values: Seq<Seq<char>>,
    path: Seq<char>,
)
    requires
        fits(elements, values),
        fill(elements, values) == path,
    ensures
        capture(elements, path) is Some,
    decreases elements.len(),
{
    if elements.len() > 0 {
        lemma_descriptors_front(elements);
        let rest = elements.skip(1);
        match elements[0] {
            ElementView::Literal(text) => {
                let tail = fill(rest, values);
                assert(path.take(text.len() as int) =~= text);
                assert(path.skip(text.len() as int) =~= tail);
                lemma_capture_complete(rest, values, tail);
            },
            ElementView::Param { name, kind } => {
                let descs = descriptors(elements);
                let first = values[0];
                let tail = fill(rest, values.skip(1));
                assert(accepts(descs[0].1, values[0]));
                lemma_accepted_is_not_empty(kind, first);
                assert forall|k: int| 0 <= k < descriptors(rest).len() implies accepts(
                    #[trigger] descriptors(rest)[k].1,
                    values.skip(1)[k],
                ) by {
                    assert(descriptors(rest)[k] == descs[k + 1]);
                }
                lemma_capture_complete(rest, values.skip(1), tail);
                assert(path.take(first.len() as int) =~= first);
                assert(path.skip(first.len() as int) =~= tail);
                lemma_capture_longest_finds(kind, rest, path, path.len(), first.len());
            },
        }
    }
}

/// A path matches a pattern exactly where it is the pattern filled with
/// some values that fit: one for each parameter, each of its parameter's
/// kind.
pub proof fn law_matching_is_filling(elements: Seq<ElementView>, path: Seq<char>)
    ensures
        capture(elements, path) is Some <==> exists|values: Seq<Seq<char>>|
            fits(elements, values) && #[trigger] fill(elements, values) == path,
{
    if capture(elements, path) is Some {
        lemma_capture_sound(elements, path);
    }
    if exists|values: Seq<Seq<char>>|
        fits(elements, values) && #[trigger] fill(elements, values) == path {
        let values = choose|values: Seq<Seq<char>>|
            fits(elements, values) && #[trigger] fill(elements, values) == path;
        lemma_capture_complete(elements, values, path);
    }
}

/// The number of `/` in a text.
pub open spec fn slashes(text: Seq<char>) -> nat
    decreases text.len(),
{
    if text.len() == 0 {
        0
    } else {
        slashes(text.drop_last()) + if text.last() == '/' {
            1nat
        } else {
            0nat
        }
    }
}

/// The number of `/` in the literal text of a pattern.
pub open spec fn literal_slashes(elements: Seq<ElementView>) -> nat
    decreases elements.len(),
{
    if elements.len() == 0 {
        0
    } else {
        (match elements[0] {
            ElementView::Literal(text) => slashes(text),
            ElementView::Param { .. } => 0,
        }) + literal_slashes(elements.skip(1))
    }
}

/// The slashes of two texts, one after the other, are those of both.
proof fn lemma_slashes_add(a: Seq<char>, b: Seq<char>)
    ensures
        slashes(a + b) == slashes(a) + slashes(b),
    decreases b.len(),
{
    if b.len() > 0 {
        lemma_slashes_add(a, b.drop_last());
        assert((a + b).drop_last() =~= a + b.drop_last());
    }
}

/// A text without `/` holds none.
proof fn lemma_no_slash(text: Seq<char>)
    requires
        forall|i: int| 0 <= i < text.len() ==> #[trigger] text[i] != '/',
    ensures
        slashes(text) == 0,
    decreases text.len(),
{
    if text.len() > 0 {
        lemma_no_slash(text.drop_last());
    }
}

/// No kind captures a text that holds a `/`.
proof fn lemma_accepted_has_no_slash(kind: ParamType, value: Seq<char>)
    requires
        accepts(kind, value),
    ensures
        slashes(value) == 0,
{
    let body = crate::routing::param::unsigned_part(value);
    assert forall|i: int| 0 <= i < value.len() implies #[trigger] value[i] != '/' by {
        match kind {
            ParamType::String => {},
            ParamType::Integer => {
                if value.len() > 0 && value[0] == '-' {
                    if i > 0 {
                        assert(body[i - 1] == value[i]);
                    }
                }
            },
            ParamType::Float => {
                crate::text::lemma_first_position(body, '.');
                let dot = crate::text::first_position(body, '.') as int;
                let j = if value.len() > 0 && value[0] == '-' {
                    i - 1
                } else {
                    i
                };
                if j >= 0 {
                    if j < dot {
                        assert(body.take(dot)[j] == body[j]);
                    } else if j > dot {
                        assert(body.skip(dot + 1)[j - dot - 1] == body[j]);
                    }
                }
            },
            ParamType::Uuid => {},
            ParamType::Slug => {},
        }
    }
    lemma_no_slash(value);
}

/// A pattern filled with fitting values holds as many `/` as its literal
/// text.
proof fn lemma_fill_slashes(elements: Seq<ElementView>, values: Seq<Seq<char>>)
    requires
        fits(elements, values),
    ensures
        slashes(fill(elements, values)) == literal_slashes(elements),
    decreases elements.len(),
{
    if elements.len() > 0 {
        lemma_descriptors_front(elements);
        let rest = elements.skip(1);
        match elements[0] {
            ElementView::Literal(text) => {
                lemma_fill_slashes(rest, values);
                lemma_slashes_add(text, fill(rest, values));
            },
            ElementView::Param { name, kind } => {
                let descs = descriptors(elements);
                assert(accepts(descs[0].1, values[0]));
                assert forall|k: int| 0 <= k < descriptors(rest).len() implies accepts(
                    #[trigger] descriptors(rest)[k].1,
                    values.skip(1)[k],
                ) by {
                    assert(descriptors(rest)[k] == descs[k + 1]);
                }
                lemma_fill_slashes(rest, values.skip(1));
                lemma_accepted_has_no_slash(kind, values[0]);
                lemma_slashes_add(values[0], fill(rest, values.skip(1)));
            },
        }
    }
}

/// Every path that matches a pattern holds as many `/` as the pattern's
/// literal text. So a slash at the end counts: of a path and the path
/// with one more `/` at its end, a pattern matches at most one.
pub proof fn law_trailing_slash_is_significant(elements: Seq<ElementView>, path: Seq<char>)
    requires
        capture(elements, path) is Some,
    ensures
        slashes(path) == literal_slashes(elements),
        capture(elements, path.push('/')) is None,
{
    lemma_capture_sound(elements, path);
    lemma_fill_slashes(elements, capture(elements, path)->0);
    let longer = path.push('/');
    assert(longer.drop_last() =~= path);
    if capture(elements, longer) is Some {
        lemma_capture_sound(elements, longer);
        lemma_fill_slashes(elements, capture(elements, longer)->0);
    }
}

/// The text that raw elements spell: literal text as it is, and the text
/// of each placeholder between braces.
pub open spec fn spelled(raws: Seq<RawElement>) -> Seq<char>
    decreases raws.len(),
{
    if raws.len() == 0 {
        Seq::empty()
    } else {
        (match raws[0] {
            RawElement::Literal(text) => text,
            RawElement::Placeholder(text) => "{"@ + text + "}"@,
        }) + spelled(raws.skip(1))
    }
}

/// A literal run ends within the pattern.
proof fn lemma_literal_run_bound(p: Seq<char>, pos: int)
    requires
        0 <= pos <= p.len(),
    ensures
        pos + literal_run(p, pos) <= p.len(),
    decreases p.len() - pos,
{
    if pos < p.len() && !opens_placeholder(p, pos) {
        lemma_literal_run_bound(p, pos + 1);
    }
}

/// The elements found from a position on spell the pattern from that
/// position on.
proof fn lemma_scan_spells(p: Seq<char>, pos: int)
    requires
        0 <= pos <= p.len(),
    ensures
        spelled(scan(p, pos)) == p.skip(pos),
    decreases p.len() - pos,
{
    if pos < p.len() && opens_placeholder(p, pos) {
        let len = crate::routing::pattern::placeholder_len(p, pos) as int;
        let text = crate::routing::pattern::placeholder_text(p, pos);
        let next = pos + len + 2;
        crate::text::lemma_first_position(p.skip(pos + 1), '}');
        lemma_scan_spells(p, next);
        let raws = scan(p, pos);
        assert(raws.skip(1) =~= scan(p, next));
        reveal_strlit("{");
        reveal_strlit("}");
    } else if pos < p.len() {
        let run = 1 + literal_run(p, pos + 1);
        lemma_literal_run_bound(p, pos + 1);
        lemma_scan_spells(p, pos + run);
        let raws = scan(p, pos);
        assert(raws.skip(1) =~= scan(p, pos + run));
    }
}

/// The elements of a pattern spell the pattern: its literal text and its
/// placeholders, in order, are the pattern's text. So filling a compiled
/// pattern replaces, in the pattern's text, each placeholder by a value
/// and leaves everything else as it is.
pub proof fn law_elements_spell_pattern(p: Seq<char>)
    ensures
        spelled(scan(p, 0)) == p,
{
    lemma_scan_spells(p, 0);
}

/// In a pattern without `{` every character is literal.
proof fn lemma_literal_run_all(p: Seq<char>, pos: int)
    requires
        !p.contains('{'),
        0 <= pos <= p.len(),
    ensures
        literal_run(p, pos) == p.len() - pos,
    decreases p.len() - pos,
{
    if pos < p.len() {
        lemma_literal_run_all(p, pos + 1);
    }
}

/// What a pattern without `{` compiles to: its own text as one literal.
pub open spec fn literal_elements(p: Seq<char>) -> Seq<ElementView> {
    if p.len() == 0 {
        Seq::empty()
    } else {
        seq![ElementView::Literal(p)]
    }
}

/// A pattern without `{` compiles, matches its own text and nothing else,
/// and extraction against its own text yields no parameters.
pub proof fn law_literal_pattern(p: Seq<char>, path: Seq<char>)
    requires
        !p.contains('{'),
    ensures
        compiled(p) == Ok::<Seq<ElementView>, PatternError>(literal_elements(p)),
        extraction(literal_elements(p), p) == Some(Pairs::empty()),
        extraction(literal_elements(p), path) is Some <==> path == p,
{
    let raws = scan(p, 0);
    let elements = literal_elements(p);
    reveal_with_fuel(descriptors, 3);
    reveal_with_fuel(capture, 3);
    if p.len() > 0 {
        lemma_literal_run_all(p, 1);
        assert(p.subrange(0, p.len() as int) =~= p);
        assert(scan(p, p.len() as int) =~= Seq::<RawElement>::empty());
        assert(interpret_all(raws) =~= elements);
        if starts_with(path, p) && path.skip(p.len() as int).len() == 0 {
            assert(path =~= path.take(p.len() as int));
        }
    } else {
        assert(interpret_all(raws) =~= elements);
        if path.len() == 0 {
            assert(path =~= p);
        }
    }
}

/// Compiling the same pattern twice yields matchers that treat every path
/// alike.
pub proof fn law_compile_deterministic(
    p: Seq<char>,
    first: Seq<ElementView>,
    second: Seq<ElementView>,
    path: Seq<char>,
)
    requires
        compiled(p) == Ok::<Seq<ElementView>, PatternError>(first),
        compiled(p) == Ok::<Seq<ElementView>, PatternError>(second),
    ensures
        first == second,
        extraction(first, path) == extraction(second, path),
{
}

} // verus!
