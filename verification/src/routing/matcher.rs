//! Matching a path against a compiled pattern, and extracting the values
//! of its parameters.

use vstd::prelude::*;
use vstd::slice::slice_subrange;
use crate::routing::param::{accepts, accepts_chars, validates, validates_chars, ParamType};
use crate::routing::pattern::{
    distinct_params, element_views, prepend, Element, ElementView, RoutePattern,
};
use crate::string_map::{Pairs, StringMap};
use crate::text::{chars_of, slice_starts_with, starts_with, string_of};

verus! {

/// The parameter descriptors of a pattern, name and kind, in order.
pub open spec fn descriptors(elements: Seq<ElementView>) -> Seq<(Seq<char>, ParamType)>
    decreases elements.len(),
{
    if elements.len() == 0 {
        Seq::empty()
    } else {
        let before = descriptors(elements.drop_last());
        match elements.last() {
            ElementView::Literal(_) => before,
            ElementView::Param { name, kind } => before.push((name, kind)),
        }
    }
}

/// The values that the parameters capture when `path` is matched against
/// `elements` from end to end, or `None` where it does not match. Each
/// parameter takes the longest text of its kind that lets the rest of the
/// pattern match the rest of the path.
pub open spec fn capture(elements: Seq<ElementView>, path: Seq<char>) -> Option<Seq<Seq<char>>>
    decreases elements.len(), 0nat, 0nat,
{
    if elements.len() == 0 {
        if path.len() == 0 {
            Some(Seq::empty())
        } else {
            None
        }
    } else {
        match elements[0] {
            ElementView::Literal(text) => if starts_with(path, text) {
                capture(elements.skip(1), path.skip(text.len() as int))
            } else {
                None
            },
            ElementView::Param { kind, .. } => capture_longest(
                kind,
                elements.skip(1),
                path,
                path.len(),
            ),
        }
    }
}

/// The capture in which a parameter of the given kind takes at most `n`
/// characters from the front of `path`, preferring more to fewer, and
/// `rest` matches what is left.
pub open spec fn capture_longest(
    kind: ParamType,
    rest: Seq<ElementView>,
    path: Seq<char>,
    n: nat,
) -> Option<Seq<Seq<char>>>
    decreases rest.len(), 1nat, n,
{
    if n == 0 {
        None
    } else if n <= path.len() && accepts(kind, path.take(n as int)) && capture(
        rest,
        path.skip(n as int),
    ) is Some {
        Some(prepend(path.take(n as int), capture(rest, path.skip(n as int))->0))
    } else {
        capture_longest(kind, rest, path, (n - 1) as nat)
    }
}

/// Every value passes the type predicate of its descriptor.
pub open spec fn all_validate(
    descs: Seq<(Seq<char>, ParamType)>,
    values: Seq<Seq<char>>,
) -> bool {
    forall|k: int| 0 <= k < descs.len() ==> validates(#[trigger] descs[k].1, values[k])
}

/// The values under their parameters' names, in the pattern's order.
pub open spec fn bind(descs: Seq<(Seq<char>, ParamType)>, values: Seq<Seq<char>>) -> Pairs {
    Seq::new(descs.len(), |k: int| (descs[k].0, values[k]))
}

/// What extraction yields: the captured values under their names where the
/// path matches and every value passes its type predicate, else `None`.
pub open spec fn extraction(elements: Seq<ElementView>, path: Seq<char>) -> Option<Pairs> {
    match capture(elements, path) {
        Some(values) => if all_validate(descriptors(elements), values) {
            Some(bind(descriptors(elements), values))
        } else {
            None
        },
        None => None,
    }
}

/// The texts of `path` that the spans delimit.
pub open spec fn span_texts(path: Seq<char>, spans: Seq<(usize, usize)>) -> Seq<Seq<char>> {
    Seq::new(spans.len(), |k: int| path.subrange(spans[k].0 as int, spans[k].1 as int))
}

/// Every span lies within a text of length `len`.
pub open spec fn spans_within(spans: Seq<(usize, usize)>, len: int) -> bool {
    forall|k: int| 0 <= k < spans.len() ==> (#[trigger] spans[k]).0 <= spans[k].1 <= len
}

/// Matches the elements from `at` on against the path from `from` on.
fn capture_from(elements: &Vec<Element>, at: usize, path: &[char], from: usize) -> (r: Option<
    Vec<(usize, usize)>,
>)
    requires
        at <= elements.len(),
        from <= path.len(),
    ensures
        match r {
            Some(spans) => capture(element_views(elements@).skip(at as int), path@.skip(from as int))
                == Some(span_texts(path@, spans@)) && spans_within(spans@, path@.len() as int),
            None => capture(element_views(elements@).skip(at as int), path@.skip(from as int))
                is None,
        },
    decreases elements.len() - at,
{
    let ghost views = element_views(elements@).skip(at as int);
    let ghost tail = path@.skip(from as int);
    if at == elements.len() {
        if from == path.len() {
            let spans: Vec<(usize, usize)> = Vec::new();
            return Some(spans);
        } else {
            return None;
        }
    }
    assert(views.skip(1) =~= element_views(elements@).skip(at + 1));
    match &elements[at] {
        Element::Literal(text) => {
            if slice_starts_with(path, from, text.as_slice()) {
                assert(tail.skip(text@.len() as int) =~= path@.skip(from + text@.len()));
                capture_from(elements, at + 1, path, from + text.len())
            } else {
                None
            }
        },
        Element::Param { kind, .. } => {
            let max = path.len() - from;
            let mut n = max;
            while n > 0
                invariant
                    n <= max,
                    max == path.len() - from,
                    at < elements.len(),
                    tail == path@.skip(from as int),
                    views == element_views(elements@).skip(at as int),
                    views.skip(1) == element_views(elements@).skip(at + 1),
                    views.len() > 0,
                    views[0] matches ElementView::Param { kind: k, .. } && k == *kind,
                    capture(views, tail) == capture_longest(
                        *kind,
                        views.skip(1),
                        tail,
                        max as nat,
                    ),
                    capture_longest(*kind, views.skip(1), tail, max as nat) == capture_longest(
                        *kind,
                        views.skip(1),
                        tail,
                        n as nat,
                    ),
                decreases n,
            {
                assert(tail.take(n as int) =~= path@.subrange(from as int, from + n));
                assert(tail.skip(n as int) =~= path@.skip(from + n));
                if accepts_chars(*kind, slice_subrange(path, from, from + n)) {
                    match capture_from(elements, at + 1, path, from + n) {
                        Some(mut spans) => {
                            spans.insert(0, (from, from + n));
                            assert forall|k: int| 0 <= k < spans@.len() implies (
                            #[trigger] spans@[k]).0 <= spans@[k].1 <= path@.len() by {}
                            return Some(spans);
                        },
                        None => {},
                    }
                }
                n -= 1;
            }
            None
        },
    }
}

/// Whether `path` matches the elements from end to end.
pub(crate) fn matches_elements(elements: &Vec<Element>, path: &[char]) -> (r: bool)
    ensures
        r == capture(element_views(elements@), path@) is Some,
{
    assert(element_views(elements@).skip(0) =~= element_views(elements@));
    assert(path@.skip(0) =~= path@);
    capture_from(elements, 0, path, 0).is_some()
}

/// The descriptors of a pattern, seen from its first element.
pub proof fn lemma_descriptors_front(elements: Seq<ElementView>)
    requires
        elements.len() > 0,
    ensures
        descriptors(elements) == match elements[0] {
            ElementView::Literal(_) => descriptors(elements.skip(1)),
            ElementView::Param { name, kind } => prepend(
                (name, kind),
                descriptors(elements.skip(1)),
            ),
        },
    decreases elements.len(),
{
    if elements.len() == 1 {
        assert(elements.drop_last() =~= Seq::<ElementView>::empty());
        assert(elements.skip(1) =~= Seq::<ElementView>::empty());
    } else {
        let shorter = elements.drop_last();
        lemma_descriptors_front(shorter);
        assert(shorter.skip(1) =~= elements.skip(1).drop_last());
    }
}

/// The descriptors of a prefix that is one element longer.
pub proof fn lemma_descriptors_step(elements: Seq<ElementView>, i: int)
    requires
        0 <= i < elements.len(),
    ensures
        descriptors(elements.take(i + 1)) == match elements[i] {
            ElementView::Literal(_) => descriptors(elements.take(i)),
            ElementView::Param { name, kind } => descriptors(elements.take(i)).push((name, kind)),
        },
{
    assert(elements.take(i + 1).drop_last() =~= elements.take(i));
}

/// A match yields one value for each descriptor.
pub proof fn lemma_capture_len(elements: Seq<ElementView>, path: Seq<char>)
    requires
        capture(elements, path) is Some,
    ensures
        capture(elements, path)->0.len() == descriptors(elements).len(),
    decreases elements.len(), 0nat, 0nat,
{
    if elements.len() > 0 {
        lemma_descriptors_front(elements);
        match elements[0] {
            ElementView::Literal(text) => {
                lemma_capture_len(elements.skip(1), path.skip(text.len() as int));
            },
            ElementView::Param { kind, .. } => {
                lemma_capture_longest_len(kind, elements.skip(1), path, path.len());
            },
        }
    }
}

/// The longest-first search yields one value for the parameter and one for
/// each descriptor of the rest.
proof fn lemma_capture_longest_len(
    kind: ParamType,
    rest: Seq<ElementView>,
    path: Seq<char>,
    n: nat,
)
    requires
        capture_longest(kind, rest, path, n) is Some,
    ensures
        capture_longest(kind, rest, path, n)->0.len() == descriptors(rest).len() + 1,
    decreases rest.len(), 1nat, n,
{
    if n > 0 {
        if n <= path.len() && accepts(kind, path.take(n as int)) && capture(
            rest,
            path.skip(n as int),
        ) is Some {
            lemma_capture_len(rest, path.skip(n as int));
        } else {
            lemma_capture_longest_len(kind, rest, path, (n - 1) as nat);
        }
    }
}

/// Every descriptor comes from a parameter of the pattern, and later
/// descriptors come from later parameters.
pub open spec fn descriptor_origin(
    elements: Seq<ElementView>,
    descs: Seq<(Seq<char>, ParamType)>,
    origin: Seq<int>,
) -> bool {
    &&& origin.len() == descs.len()
    &&& forall|k: int|
        0 <= k < descs.len() ==> 0 <= #[trigger] origin[k] < elements.len() && elements[origin[k]]
            == (ElementView::Param { name: descs[k].0, kind: descs[k].1 })
    &&& forall|a: int, b: int| 0 <= a < b < descs.len() ==> origin[a] < origin[b]
}

/// For each descriptor, the position of the parameter that it comes from.
proof fn lemma_descriptor_origin(elements: Seq<ElementView>) -> (origin: Seq<int>)
    ensures
        descriptor_origin(elements, descriptors(elements), origin),
    decreases elements.len(),
{
    if elements.len() == 0 {
        Seq::empty()
    } else {
        let shorter = elements.drop_last();
        let before = lemma_descriptor_origin(shorter);
        assert forall|k: int| 0 <= k < before.len() implies elements[before[k]]
            == shorter[before[k]] by {}
        match elements.last() {
            ElementView::Literal(_) => before,
            ElementView::Param { name, kind } => before.push(elements.len() - 1),
        }
    }
}

/// Distinct parameter names give distinct descriptor names.
pub proof fn lemma_descriptors_distinct(elements: Seq<ElementView>)
    requires
        distinct_params(elements),
    ensures
        forall|a: int, b: int|
            0 <= a < b < descriptors(elements).len() ==> (#[trigger] descriptors(elements)[a]).0
                != (#[trigger] descriptors(elements)[b]).0,
{
    let descs = descriptors(elements);
    let origin = lemma_descriptor_origin(elements);
    assert forall|a: int, b: int| 0 <= a < b < descs.len() implies (#[trigger] descs[a]).0 != (
    #[trigger] descs[b]).0 by {
        let i = origin[a];
        let j = origin[b];
    }
}

/// The models of descriptors.
pub open spec fn descriptor_views(descs: Seq<(String, ParamType)>) -> Seq<(Seq<char>, ParamType)> {
    Seq::new(descs.len(), |i: int| (descs[i].0@, descs[i].1))
}

/// The parameter descriptors of a compiled pattern, name and kind, in
/// order.
pub fn param_descriptors(pattern: &RoutePattern) -> (descs: Vec<(String, ParamType)>)
    ensures
        descriptor_views(descs@) == descriptors(pattern@),
{
    let elements = pattern.elements();
    let ghost views = element_views(elements@);
    let mut descs: Vec<(String, ParamType)> = Vec::new();
    let mut i: usize = 0;
    while i < elements.len()
        invariant
            i <= elements.len(),
            views == element_views(elements@),
            descriptor_views(descs@) == descriptors(views.take(i as int)),
        decreases elements.len() - i,
    {
        proof {
            lemma_descriptors_step(views, i as int);
        }
        if let Element::Param { name, kind } = &elements[i] {
            descs.push((name.clone(), *kind));
        }
        i += 1;
    }
    assert(views.take(elements.len() as int) =~= views);
    descs
}

/// Matches `path` against `pattern` and extracts the parameters' values.
/// A match in which some value fails its type predicate counts as none.
pub fn extract_path_params(pattern: &RoutePattern, path: &str) -> (r: Option<StringMap>)
    ensures
        match r {
            Some(params) => extraction(pattern@, path@) == Some(params@),
            None => extraction(pattern@, path@) is None,
        },
{
    let elements = pattern.elements();
    let text = chars_of(path);
    let chars = text.as_slice();
    let ghost views = element_views(elements@);
    assert(views.skip(0) =~= views);
    assert(chars@.skip(0) =~= path@);
    let spans = match capture_from(elements, 0, chars, 0) {
        Some(spans) => spans,
        None => {
            return None;
        },
    };
    let ghost values = span_texts(chars@, spans@);
    let ghost descs = descriptors(views);
    proof {
        lemma_capture_len(views, path@);
        lemma_descriptors_distinct(views);
    }
    let mut params = StringMap::new();
    let mut k: usize = 0;
    let mut i: usize = 0;
    while i < elements.len()
        invariant
            i <= elements.len(),
            views == element_views(elements@),
            views == pattern@,
            descs == descriptors(views),
            values == span_texts(chars@, spans@),
            capture(views, path@) == Some(values),
            spans_within(spans@, chars@.len() as int),
            spans@.len() == descs.len(),
            k <= descs.len(),
            descriptors(views.take(i as int)) == descs.take(k as int),
            params@ == bind(descs.take(k as int), values),
            forall|t: int| 0 <= t < k ==> validates(#[trigger] descs[t].1, values[t]),
            forall|a: int, b: int|
                0 <= a < b < descs.len() ==> (#[trigger] descs[a]).0 != (#[trigger] descs[b]).0,
        decreases elements.len() - i,
    {
        proof {
            lemma_descriptors_step(views, i as int);
            lemma_descriptors_prefix(views, i as int + 1);
        }
        if let Element::Param { name, kind } = &elements[i] {
            assert(descriptors(views.take(i + 1))[k as int] == (name@, *kind));
            let (start, end) = spans[k];
            let value = slice_subrange(chars, start, end);
            if !validates_chars(*kind, value) {
                assert(!validates(descs[k as int].1, values[k as int]));
                return None;
            }
            params.insert(name.clone(), string_of(value));
            assert(k < spans.len());
            k += 1;
        }
        i += 1;
    }
    Some(params)
}

/// The descriptors of a prefix are a prefix of the descriptors.
pub proof fn lemma_descriptors_prefix(elements: Seq<ElementView>, i: int)
    requires
        0 <= i <= elements.len(),
    ensures
        descriptors(elements.take(i)).len() <= descriptors(elements).len(),
        descriptors(elements.take(i)) == descriptors(elements).take(
            descriptors(elements.take(i)).len() as int,
        ),
    decreases elements.len() - i,
{
    if i == elements.len() {
        assert(elements.take(i) =~= elements);
    } else {
        lemma_descriptors_prefix(elements, i + 1);
        lemma_descriptors_step(elements, i);
    }
}

} // verus!
