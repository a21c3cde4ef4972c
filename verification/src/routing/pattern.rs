//! Path patterns: literal text interspersed with placeholders `{name}` or
//! `{name:type}`, compiled to a sequence of elements.

use vstd::prelude::*;
use vstd::slice::{slice_subrange, slice_to_vec};
use crate::routing::param::{kind_of_chars, kind_of_suffix, ParamType};
use crate::text::{
    chars_of, find_char, first_position, lemma_first_position, string_of, text_eq,
};

verus! {

/// What a single pass over a pattern finds: runs of literal text, and the
/// text between a `{` and the next `}`.
pub enum RawElement {
    Literal(Seq<char>),
    Placeholder(Seq<char>),
}

/// The model of a compiled element.
pub enum ElementView {
    Literal(Seq<char>),
    Param { name: Seq<char>, kind: ParamType },
}

/// The sequence that starts with `first` and goes on with `rest`.
pub open spec fn prepend<T>(first: T, rest: Seq<T>) -> Seq<T> {
    seq![first] + rest
}

/// The number of characters between position `pos` and the first `}` after
/// it; reaches the end of the pattern where there is no such `}`.
pub open spec fn placeholder_len(p: Seq<char>, pos: int) -> nat {
    first_position(p.skip(pos + 1), '}')
}

/// Whether a placeholder opens at `pos`: a `{` with a `}` somewhere after.
pub open spec fn opens_placeholder(p: Seq<char>, pos: int) -> bool {
    0 <= pos < p.len() && p[pos] == '{' && pos + 1 + placeholder_len(p, pos) < p.len()
}

/// The text between the `{` at `pos` and the first `}` after it.
pub open spec fn placeholder_text(p: Seq<char>, pos: int) -> Seq<char> {
    p.subrange(pos + 1, pos + 1 + placeholder_len(p, pos))
}

/// The number of characters from `pos` on that are literal: up to the next
/// position where a placeholder opens, or to the end of the pattern.
pub open spec fn literal_run(p: Seq<char>, pos: int) -> nat
    decreases p.len() - pos,
{
    if pos < 0 || pos >= p.len() || opens_placeholder(p, pos) {
        0
    } else {
        1 + literal_run(p, pos + 1)
    }
}

/// The elements found from position `pos` on. A `{` with a `}` somewhere
/// after it opens a placeholder that runs to the first such `}`; every
/// other character, a `{` without a `}` after it included, is literal.
pub open spec fn scan(p: Seq<char>, pos: int) -> Seq<RawElement>
    decreases
            if pos < p.len() {
                p.len() - pos
            } else {
                0
            },
{
    if pos < 0 || pos >= p.len() {
        Seq::empty()
    } else if opens_placeholder(p, pos) {
        prepend(
            RawElement::Placeholder(placeholder_text(p, pos)),
            scan(p, pos + placeholder_len(p, pos) + 2),
        )
    } else {
        let run = 1 + literal_run(p, pos + 1);
        prepend(RawElement::Literal(p.subrange(pos, pos + run)), scan(p, pos + run))
    }
}

/// The parameter's name: the placeholder's text up to its first `:`.
pub open spec fn placeholder_name(raw: Seq<char>) -> Seq<char> {
    raw.take(first_position(raw, ':') as int)
}

/// The parameter's kind: named by what follows the first `:`; `String`
/// where there is no `:`.
pub open spec fn placeholder_kind(raw: Seq<char>) -> ParamType {
    let colon = first_position(raw, ':');
    if colon < raw.len() {
        kind_of_suffix(raw.skip(colon as int + 1))
    } else {
        ParamType::String
    }
}

/// An element read with its name and type.
pub open spec fn interpret(raw: RawElement) -> ElementView {
    match raw {
        RawElement::Literal(text) => ElementView::Literal(text),
        RawElement::Placeholder(text) => ElementView::Param {
            name: placeholder_name(text),
            kind: placeholder_kind(text),
        },
    }
}

/// The elements read with their names and types.
pub open spec fn interpret_all(raws: Seq<RawElement>) -> Seq<ElementView> {
    Seq::new(raws.len(), |i: int| interpret(raws[i]))
}

/// An element read without regard to names and types: a placeholder is a
/// parameter of kind `String` named by its whole text.
pub open spec fn interpret_untyped(raw: RawElement) -> ElementView {
    match raw {
        RawElement::Literal(text) => ElementView::Literal(text),
        RawElement::Placeholder(text) => ElementView::Param { name: text, kind: ParamType::String },
    }
}

/// The elements of a pattern, read typed or untyped.
pub open spec fn read_elements(raws: Seq<RawElement>, typed: bool) -> Seq<ElementView> {
    Seq::new(
        raws.len(),
        |i: int|
            if typed {
                interpret(raws[i])
            } else {
                interpret_untyped(raws[i])
            },
    )
}

/// Some placeholder holds a `{`.
pub open spec fn has_nested_brace(raws: Seq<RawElement>) -> bool {
    exists|i: int|
        0 <= i < raws.len() && (#[trigger] raws[i] matches RawElement::Placeholder(text)
            && text.contains('{'))
}

/// No two parameters share a name.
pub open spec fn distinct_params(elements: Seq<ElementView>) -> bool {
    forall|i: int, j: int|
        0 <= i < j < elements.len() ==> match (#[trigger] elements[i], #[trigger] elements[j]) {
            (ElementView::Param { name: a, .. }, ElementView::Param { name: b, .. }) => a != b,
            _ => true,
        }
}

/// Why a pattern does not compile.
#[derive(Debug, Clone, Copy, PartialEq, Eq, Structural)]
pub enum PatternError {
    /// A placeholder holds a `{`.
    UnbalancedBraces,
    /// Two parameters share a name.
    DuplicateParameter,
}

/// What compiling pattern `p` yields.
pub open spec fn compiled(p: Seq<char>) -> Result<Seq<ElementView>, PatternError> {
    let raws = scan(p, 0);
    if has_nested_brace(raws) {
        Err(PatternError::UnbalancedBraces)
    } else if !distinct_params(interpret_all(raws)) {
        Err(PatternError::DuplicateParameter)
    } else {
        Ok(interpret_all(raws))
    }
}

/// One element of a compiled pattern.
pub enum Element {
    Literal(Vec<char>),
    Param { name: String, kind: ParamType },
}

impl View for Element {
    type V = ElementView;

    open spec fn view(&self) -> ElementView {
        match self {
            Element::Literal(text) => ElementView::Literal(text@),
            Element::Param { name, kind } => ElementView::Param { name: name@, kind: *kind },
        }
    }
}

/// The models of elements.
pub open spec fn element_views(elements: Seq<Element>) -> Seq<ElementView> {
    Seq::new(elements.len(), |i: int| elements[i]@)
}

/// A compiled matcher: the pattern's elements in order. Its parameter
/// names are distinct.
pub struct RoutePattern {
    elements: Vec<Element>,
}

impl View for RoutePattern {
    type V = Seq<ElementView>;

    closed spec fn view(&self) -> Seq<ElementView> {
        element_views(self.elements@)
    }
}

/// One step of the scan, seen from what was scanned before.
proof fn lemma_scan_step(p: Seq<char>, pos: int, before: Seq<RawElement>)
    requires
        0 <= pos < p.len(),
    ensures
        opens_placeholder(p, pos) ==> before.push(
            RawElement::Placeholder(placeholder_text(p, pos)),
        ) + scan(p, pos + placeholder_len(p, pos) + 2) == before + scan(p, pos),
        !opens_placeholder(p, pos) ==> before.push(
            RawElement::Literal(p.subrange(pos, pos + literal_run(p, pos))),
        ) + scan(p, pos + literal_run(p, pos)) == before + scan(p, pos),
{
}

/// Reading one more element extends what was read by that element.
proof fn lemma_views_push(
    old_elements: Seq<Element>,
    last: Element,
    before: Seq<RawElement>,
    raw: RawElement,
    typed: bool,
)
    requires
        element_views(old_elements) == read_elements(before, typed),
        old_elements.len() == before.len(),
        last@ == if typed {
            interpret(raw)
        } else {
            interpret_untyped(raw)
        },
    ensures
        element_views(old_elements.push(last)) == read_elements(before.push(raw), typed),
{
    let elements = old_elements.push(last);
    let raws = before.push(raw);
    assert forall|i: int| 0 <= i < elements.len() implies element_views(elements)[i]
        == read_elements(raws, typed)[i] by {
        if i < old_elements.len() {
            assert(element_views(old_elements)[i] == old_elements[i]@);
        }
    }
}

/// One more element holds a nested brace exactly where it is a placeholder
/// that holds a `{`.
proof fn lemma_nested_push(before: Seq<RawElement>, last: RawElement)
    ensures
        has_nested_brace(before.push(last)) == (has_nested_brace(before) || (
        last matches RawElement::Placeholder(text) && text.contains('{'))),
{
    let after = before.push(last);
    if has_nested_brace(before) {
        let i = choose|i: int|
            0 <= i < before.len() && (#[trigger] before[i] matches RawElement::Placeholder(t)
                && t.contains('{'));
        assert(after[i] == before[i]);
    }
    if last matches RawElement::Placeholder(text) && text.contains('{') {
        assert(after[before.len() as int] == last);
    }
    if has_nested_brace(after) {
        let i = choose|i: int|
            0 <= i < after.len() && (#[trigger] after[i] matches RawElement::Placeholder(t)
                && t.contains('{'));
    }
}

/// Whether two parameters among `elements` share a name.
fn has_duplicate_names(elements: &Vec<Element>) -> (r: bool)
    ensures
        r == !distinct_params(element_views(elements@)),
{
    let ghost views = element_views(elements@);
    let mut j: usize = 0;
    while j < elements.len()
        invariant
            j <= elements.len(),
            views == element_views(elements@),
            forall|a: int, b: int|
                0 <= a < b < j ==> match (#[trigger] views[a], #[trigger] views[b]) {
                    (
                        ElementView::Param { name: x, .. },
                        ElementView::Param { name: y, .. },
                    ) => x != y,
                    _ => true,
                },
        decreases elements.len() - j,
    {
        if let Element::Param { name: later, .. } = &elements[j] {
            let mut i: usize = 0;
            while i < j
                invariant
                    i <= j < elements.len(),
                    views == element_views(elements@),
                    elements@[j as int] matches Element::Param { name, .. } && name@ == later@,
                    forall|a: int|
                        0 <= a < i ==> match #[trigger] views[a] {
                            ElementView::Param { name: x, .. } => x != later@,
                            _ => true,
                        },
                decreases j - i,
            {
                if let Element::Param { name: earlier, .. } = &elements[i] {
                    if text_eq(earlier.as_str(), later.as_str()) {
                        assert(views[i as int] matches ElementView::Param { name: x, .. } && x
                            == later@);
                        assert(views[j as int] matches ElementView::Param { name: y, .. } && y
                            == later@);
                        return true;
                    }
                }
                i += 1;
            }
        }
        j += 1;
    }
    false
}

/// Whether a placeholder opens at `pos`, and the length of its text.
fn placeholder_at(p: &[char], pos: usize) -> (r: (bool, usize))
    requires
        pos < p.len(),
    ensures
        r.0 == opens_placeholder(p@, pos as int),
        r.1 == placeholder_len(p@, pos as int),
        pos + 1 + r.1 <= p.len(),
{
    let inner = find_char(slice_subrange(p, pos + 1, p.len()), '}');
    (p[pos] == '{' && inner < p.len() - pos - 1, inner)
}

/// Reads the elements of a pattern, typed or untyped, and tells whether
/// one of its placeholders holds a `{`.
pub(crate) fn scan_elements(p: &[char], typed: bool) -> (r: (Vec<Element>, bool))
    ensures
        element_views(r.0@) == read_elements(scan(p@, 0), typed),
        r.1 == has_nested_brace(scan(p@, 0)),
{
    let mut elements: Vec<Element> = Vec::new();
    let mut nested = false;
    let mut pos: usize = 0;
    let ghost mut raws: Seq<RawElement> = Seq::empty();
    while pos < p.len()
        invariant
            pos <= p.len(),
            raws + scan(p@, pos as int) == scan(p@, 0),
            element_views(elements@) == read_elements(raws, typed),
            elements@.len() == raws.len(),
            nested == has_nested_brace(raws),
        decreases p.len() - pos,
    {
        let ghost before = raws;
        let (opens, inner) = placeholder_at(p, pos);
        proof {
            lemma_scan_step(p@, pos as int, before);
        }
        if opens {
            let raw = slice_subrange(p, pos + 1, pos + 1 + inner);
            let element = if typed {
                let colon = find_char(raw, ':');
                let name = string_of(slice_subrange(raw, 0, colon));
                let kind = if colon < raw.len() {
                    kind_of_chars(slice_subrange(raw, colon + 1, raw.len()))
                } else {
                    ParamType::String
                };
                Element::Param { name, kind }
            } else {
                Element::Param { name: string_of(raw), kind: ParamType::String }
            };
            let holds_brace = find_char(raw, '{') < raw.len();
            proof {
                lemma_first_position(raw@, '{');
                lemma_nested_push(before, RawElement::Placeholder(raw@));
                lemma_views_push(
                    elements@,
                    element,
                    before,
                    RawElement::Placeholder(raw@),
                    typed,
                );
                raws = before.push(RawElement::Placeholder(raw@));
            }
            nested = nested || holds_brace;
            elements.push(element);
            pos = pos + inner + 2;
        } else {
            let mut end: usize = pos + 1;
            while end < p.len() && !placeholder_at(p, end).0
                invariant
                    pos < end <= p.len(),
                    literal_run(p@, pos as int) == (end - pos) + literal_run(p@, end as int),
                decreases p.len() - end,
            {
                end += 1;
            }
            let run = slice_to_vec(slice_subrange(p, pos, end));
            let element = Element::Literal(run);
            proof {
                let raw = RawElement::Literal(p@.subrange(pos as int, end as int));
                lemma_nested_push(before, raw);
                lemma_views_push(elements@, element, before, raw, typed);
                raws = before.push(raw);
            }
            elements.push(element);
            pos = end;
        }
    }
    (elements, nested)
}

impl RoutePattern {
    #[verifier::type_invariant]
    spec fn inv(&self) -> bool {
        distinct_params(self@)
    }

    /// The elements, in order.
    pub(crate) fn elements(&self) -> (r: &Vec<Element>)
        ensures
            element_views(r@) == self@,
            distinct_params(self@),
    {
        proof {
            use_type_invariant(self);
        }
        &self.elements
    }

    /// Compiles a pattern. Fails where a placeholder holds a `{`, and
    /// where two parameters share a name.
    pub fn compile(path: &str) -> (r: Result<RoutePattern, PatternError>)
        ensures
            match r {
                Ok(pattern) => compiled(path@) == Ok::<Seq<ElementView>, PatternError>(pattern@),
                Err(e) => compiled(path@) == Err::<Seq<ElementView>, PatternError>(e),
            },
    {
        let text = chars_of(path);
        let (elements, nested) = scan_elements(text.as_slice(), true);
        assert(read_elements(scan(path@, 0), true) =~= interpret_all(scan(path@, 0)));
        if nested {
            return Err(PatternError::UnbalancedBraces);
        }
        if has_duplicate_names(&elements) {
            return Err(PatternError::DuplicateParameter);
        }
        Ok(RoutePattern { elements })
    }
}

} // verus!
