//! Typed path parameters: the kinds, the strings each kind accepts, and the
//! checks that decide membership.

use vstd::prelude::*;
use vstd::slice::slice_subrange;
use crate::text::{chars_of, find_char, first_position};

verus! {

/// The kind of a path parameter.
#[derive(Debug, Clone, Copy, PartialEq, Eq, Structural)]
pub enum ParamType {
    String,
    Integer,
    Float,
    Uuid,
    Slug,
}

/// A decimal digit.
pub open spec fn is_digit(c: char) -> bool {
    '0' <= c <= '9'
}

/// A hexadecimal digit, letters in lowercase.
pub open spec fn is_lower_hex(c: char) -> bool {
    is_digit(c) || 'a' <= c <= 'f'
}

/// An ASCII letter, a decimal digit or `-`.
pub open spec fn is_slug_char(c: char) -> bool {
    is_digit(c) || 'a' <= c <= 'z' || 'A' <= c <= 'Z' || c == '-'
}

/// Every character is a decimal digit.
pub open spec fn all_digits(s: Seq<char>) -> bool {
    forall|i: int| 0 <= i < s.len() ==> is_digit(#[trigger] s[i])
}

/// The text without one leading `-`, if it has one.
pub open spec fn unsigned_part(s: Seq<char>) -> Seq<char> {
    if s.len() > 0 && s[0] == '-' {
        s.skip(1)
    } else {
        s
    }
}

/// One or more characters, none of them `/`.
pub open spec fn is_segment_text(s: Seq<char>) -> bool {
    s.len() >= 1 && forall|i: int| 0 <= i < s.len() ==> #[trigger] s[i] != '/'
}

/// An optional `-`, then one or more decimal digits.
pub open spec fn is_integer_text(s: Seq<char>) -> bool {
    unsigned_part(s).len() >= 1 && all_digits(unsigned_part(s))
}

/// An optional `-`, one or more decimal digits, then optionally a `.`
/// followed by any number of decimal digits.
pub open spec fn is_float_text(s: Seq<char>) -> bool {
    let body = unsigned_part(s);
    let dot = first_position(body, '.') as int;
    &&& dot >= 1
    &&& all_digits(body.take(dot))
    &&& dot < body.len() ==> all_digits(body.skip(dot + 1))
}

/// The positions at which a UUID has its hyphens.
pub open spec fn is_uuid_hyphen_position(i: int) -> bool {
    i == 8 || i == 13 || i == 18 || i == 23
}

/// 36 characters: `-` at positions 8, 13, 18 and 23, lowercase hexadecimal
/// digits everywhere else.
pub open spec fn is_uuid_text(s: Seq<char>) -> bool {
    &&& s.len() == 36
    &&& forall|i: int|
        0 <= i < 36 ==> if is_uuid_hyphen_position(i) {
            #[trigger] s[i] == '-'
        } else {
            is_lower_hex(s[i])
        }
}

/// One or more characters, each an ASCII letter, a decimal digit or `-`.
pub open spec fn is_slug_text(s: Seq<char>) -> bool {
    s.len() >= 1 && forall|i: int| 0 <= i < s.len() ==> is_slug_char(#[trigger] s[i])
}

/// The strings that a parameter of the given kind captures.
pub open spec fn accepts(kind: ParamType, s: Seq<char>) -> bool {
    match kind {
        ParamType::String => is_segment_text(s),
        ParamType::Integer => is_integer_text(s),
        ParamType::Float => is_float_text(s),
        ParamType::Uuid => is_uuid_text(s),
        ParamType::Slug => is_slug_text(s),
    }
}

/// The number that a string of decimal digits denotes.
pub open spec fn digits_value(s: Seq<char>) -> nat
    decreases s.len(),
{
    if s.len() == 0 {
        0
    } else {
        digits_value(s.drop_last()) * 10 + (s.last() as nat - '0' as nat) as nat
    }
}

/// Whether integer text denotes a value of a signed 64-bit integer.
pub open spec fn fits_signed_64(s: Seq<char>) -> bool {
    if s.len() > 0 && s[0] == '-' {
        digits_value(s.skip(1)) <= 0x8000_0000_0000_0000
    } else {
        digits_value(s) <= 0x7fff_ffff_ffff_ffff
    }
}

/// The type predicate applied to a captured value: the value is one that
/// the kind captures, and an integer also fits in 64 signed bits.
pub open spec fn validates(kind: ParamType, s: Seq<char>) -> bool {
    accepts(kind, s) && (kind == ParamType::Integer ==> fits_signed_64(s))
}

/// The kind that a type suffix names; an unknown suffix names `String`.
pub open spec fn kind_of_suffix(suffix: Seq<char>) -> ParamType {
    if suffix == "int"@ {
        ParamType::Integer
    } else if suffix == "float"@ {
        ParamType::Float
    } else if suffix == "uuid"@ {
        ParamType::Uuid
    } else if suffix == "slug"@ {
        ParamType::Slug
    } else {
        ParamType::String
    }
}

/// The kind that a type suffix names; an unknown suffix names `String`.
pub fn parse_param_type(type_str: &str) -> (kind: ParamType)
    ensures
        kind == kind_of_suffix(type_str@),
{
    let text = chars_of(type_str);
    kind_of_chars(text.as_slice())
}

/// Whether the characters spell `word`.
fn slice_is(text: &[char], word: &str) -> (r: bool)
    ensures
        r == (text@ == word@),
{
    let w = chars_of(word);
    if text.len() != w.len() {
        return false;
    }
    let mut i: usize = 0;
    while i < text.len()
        invariant
            text.len() == w.len(),
            w@ == word@,
            i <= text.len(),
            forall|j: int| 0 <= j < i ==> text@[j] == w@[j],
        decreases text.len() - i,
    {
        if text[i] != w[i] {
            return false;
        }
        i += 1;
    }
    assert(text@ =~= w@);
    true
}

/// The kind that a type suffix names.
pub(crate) fn kind_of_chars(suffix: &[char]) -> (kind: ParamType)
    ensures
        kind == kind_of_suffix(suffix@),
{
    if slice_is(suffix, "int") {
        ParamType::Integer
    } else if slice_is(suffix, "float") {
        ParamType::Float
    } else if slice_is(suffix, "uuid") {
        ParamType::Uuid
    } else if slice_is(suffix, "slug") {
        ParamType::Slug
    } else {
        ParamType::String
    }
}

/// Whether a character is a decimal digit.
fn digit_char(c: char) -> (r: bool)
    ensures
        r == is_digit(c),
{
    '0' <= c && c <= '9'
}

/// Whether a character is a lowercase hexadecimal digit.
fn lower_hex_char(c: char) -> (r: bool)
    ensures
        r == is_lower_hex(c),
{
    digit_char(c) || ('a' <= c && c <= 'f')
}

/// Whether a character is an ASCII letter, a decimal digit or `-`.
fn slug_char(c: char) -> (r: bool)
    ensures
        r == is_slug_char(c),
{
    digit_char(c) || ('a' <= c && c <= 'z') || ('A' <= c && c <= 'Z') || c == '-'
}

/// Whether every character is a decimal digit.
fn digits_only(s: &[char]) -> (r: bool)
    ensures
        r == all_digits(s@),
{
    let mut i: usize = 0;
    while i < s.len()
        invariant
            i <= s.len(),
            forall|j: int| 0 <= j < i ==> is_digit(#[trigger] s@[j]),
        decreases s.len() - i,
    {
        if !digit_char(s[i]) {
            return false;
        }
        i += 1;
    }
    true
}

/// The slice without one leading `-`.
fn skip_sign(s: &[char]) -> (body: &[char])
    ensures
        body@ == unsigned_part(s@),
{
    if s.len() > 0 && s[0] == '-' {
        slice_subrange(s, 1, s.len())
    } else {
        s
    }
}

/// Whether a text is one or more characters other than `/`.
fn segment_text(s: &[char]) -> (r: bool)
    ensures
        r == is_segment_text(s@),
{
    if s.len() == 0 {
        return false;
    }
    let mut i: usize = 0;
    while i < s.len()
        invariant
            i <= s.len(),
            forall|j: int| 0 <= j < i ==> #[trigger] s@[j] != '/',
        decreases s.len() - i,
    {
        if s[i] == '/' {
            return false;
        }
        i += 1;
    }
    true
}

/// Whether a text is an optional `-` and one or more decimal digits.
fn integer_text(s: &[char]) -> (r: bool)
    ensures
        r == is_integer_text(s@),
{
    let body = skip_sign(s);
    body.len() >= 1 && digits_only(body)
}

/// Whether a text is an optional `-`, digits, and optionally `.` and digits.
fn float_text(s: &[char]) -> (r: bool)
    ensures
        r == is_float_text(s@),
{
    let body = skip_sign(s);
    let dot = find_char(body, '.');
    if dot < 1 {
        return false;
    }
    if !digits_only(slice_subrange(body, 0, dot)) {
        return false;
    }
    if dot < body.len() {
        digits_only(slice_subrange(body, dot + 1, body.len()))
    } else {
        true
    }
}

/// Whether a text is a UUID in lowercase.
fn uuid_text(s: &[char]) -> (r: bool)
    ensures
        r == is_uuid_text(s@),
{
    if s.len() != 36 {
        return false;
    }
    let mut i: usize = 0;
    while i < 36
        invariant
            s.len() == 36,
            i <= 36,
            forall|j: int|
                0 <= j < i ==> if is_uuid_hyphen_position(j) {
                    #[trigger] s@[j] == '-'
                } else {
                    is_lower_hex(s@[j])
                },
        decreases 36 - i,
    {
        let hyphen_here = i == 8 || i == 13 || i == 18 || i == 23;
        if hyphen_here {
            if s[i] != '-' {
                return false;
            }
        } else if !lower_hex_char(s[i]) {
            return false;
        }
        i += 1;
    }
    true
}

/// Whether a text is one or more slug characters.
fn slug_text(s: &[char]) -> (r: bool)
    ensures
        r == is_slug_text(s@),
{
    if s.len() == 0 {
        return false;
    }
    let mut i: usize = 0;
    while i < s.len()
        invariant
            i <= s.len(),
            forall|j: int| 0 <= j < i ==> is_slug_char(#[trigger] s@[j]),
        decreases s.len() - i,
    {
        if !slug_char(s[i]) {
            return false;
        }
        i += 1;
    }
    true
}

/// Whether a parameter of the given kind captures `s`.
pub(crate) fn accepts_chars(kind: ParamType, s: &[char]) -> (r: bool)
    ensures
        r == accepts(kind, s@),
{
    match kind {
        ParamType::String => segment_text(s),
        ParamType::Integer => integer_text(s),
        ParamType::Float => float_text(s),
        ParamType::Uuid => uuid_text(s),
        ParamType::Slug => slug_text(s),
    }
}

/// A prefix of digit text denotes no more than the whole.
proof fn lemma_digits_value_prefix(s: Seq<char>, k: int)
    requires
        0 <= k <= s.len(),
    ensures
        digits_value(s.take(k)) <= digits_value(s),
    decreases s.len() - k,
{
    if k < s.len() {
        lemma_digits_value_prefix(s.drop_last(), k);
        assert(s.drop_last().take(k) =~= s.take(k));
    } else {
        assert(s.take(k) =~= s);
    }
}

/// Whether integer text denotes a value of a signed 64-bit integer.
fn fits_in_signed_64(s: &[char]) -> (r: bool)
    requires
        is_integer_text(s@),
    ensures
        r == fits_signed_64(s@),
{
    let negative = s.len() > 0 && s[0] == '-';
    let body = skip_sign(s);
    let limit: u64 = if negative {
        0x8000_0000_0000_0000
    } else {
        0x7fff_ffff_ffff_ffff
    };
    let mut value: u64 = 0;
    let mut i: usize = 0;
    while i < body.len()
        invariant
            i <= body.len(),
            all_digits(body@),
            value == digits_value(body@.take(i as int)),
            value <= limit,
            body@ == unsigned_part(s@),
            negative == (s@.len() > 0 && s@[0] == '-'),
            limit == if negative {
                0x8000_0000_0000_0000u64
            } else {
                0x7fff_ffff_ffff_ffffu64
            },
        decreases body.len() - i,
    {
        let c = body[i];
        let digit: u64 = (c as u32 - '0' as u32) as u64;
        let next: u128 = value as u128 * 10 + digit as u128;
        proof {
            let upto = body@.take(i + 1);
            assert(upto.drop_last() =~= body@.take(i as int));
            lemma_digits_value_prefix(body@, i + 1);
        }
        if next > limit as u128 {
            return false;
        }
        value = next as u64;
        i += 1;
    }
    assert(body@.take(body.len() as int) =~= body@);
    true
}

/// Whether `s` passes the type predicate of the given kind.
pub(crate) fn validates_chars(kind: ParamType, s: &[char]) -> (r: bool)
    ensures
        r == validates(kind, s@),
{
    if !accepts_chars(kind, s) {
        return false;
    }
    match kind {
        ParamType::Integer => fits_in_signed_64(s),
        _ => true,
    }
}

/// Applies the type predicate of `param_type` to `value`.
pub fn validate_param_type(value: &str, param_type: &ParamType) -> (r: bool)
    ensures
        r == validates(*param_type, value@),
{
    let text = chars_of(value);
    validates_chars(*param_type, text.as_slice())
}

} // verus!
