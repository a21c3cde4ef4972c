//! Text helpers shared by the rest of the library: conversions between
//! strings and character vectors, comparison, and decimal rendering.

use vstd::prelude::*;
use vstd::slice::{slice_subrange, slice_to_vec};
use vstd::string::StringExecFns;

verus! {

/// The characters of `s`, in order.
pub fn chars_of(s: &str) -> (out: Vec<char>)
    ensures
        out@ == s@,
{
    let mut out: Vec<char> = Vec::new();
    for c in it: s.chars()
        invariant
            out@ == it.seq().take(it.index() as int),
            it.seq() == s@,
    {
        out.push(c);
    }
    out
}

/// Builds a string from characters. Trusted: `String::from_iter` over the
/// slice's characters yields a string whose characters are exactly those
/// of the slice, in order.
#[verifier::external_body]
pub(crate) fn string_of(chars: &[char]) -> (out: String)
    ensures
        out@ == chars@,
{
    chars.iter().collect()
}

/// Whether two character vectors hold the same text.
pub fn chars_eq(a: &Vec<char>, b: &Vec<char>) -> (r: bool)
    ensures
        r == (a@ == b@),
{
    if a.len() != b.len() {
        return false;
    }
    let mut i: usize = 0;
    while i < a.len()
        invariant
            a.len() == b.len(),
            i <= a.len(),
            a@.take(i as int) == b@.take(i as int),
        decreases a.len() - i,
    {
        if a[i] != b[i] {
            return false;
        }
        i += 1;
    }
    assert(a@ == a@.take(a.len() as int));
    assert(b@ == b@.take(b.len() as int));
    true
}

/// Whether two strings hold the same text.
pub fn text_eq(a: &str, b: &str) -> (r: bool)
    ensures
        r == (a@ == b@),
{
    let x = chars_of(a);
    let y = chars_of(b);
    chars_eq(&x, &y)
}

/// Whether `s` begins with `prefix`.
pub open spec fn starts_with(s: Seq<char>, prefix: Seq<char>) -> bool {
    prefix.len() <= s.len() && s.take(prefix.len() as int) == prefix
}

/// Whether the part of `s` from position `from` on begins with `prefix`.
pub fn slice_starts_with(s: &[char], from: usize, prefix: &[char]) -> (r: bool)
    requires
        from <= s.len(),
    ensures
        r == starts_with(s@.skip(from as int), prefix@),
{
    if prefix.len() > s.len() - from {
        return false;
    }
    let ghost tail = s@.skip(from as int);
    let mut i: usize = 0;
    while i < prefix.len()
        invariant
            i <= prefix.len(),
            from + prefix.len() <= s.len(),
            tail == s@.skip(from as int),
            forall|j: int| 0 <= j < i ==> tail[j] == prefix@[j],
        decreases prefix.len() - i,
    {
        if s[from + i] != prefix[i] {
            return false;
        }
        i += 1;
    }
    assert(tail.take(prefix.len() as int) =~= prefix@);
    true
}

/// Whether `part` occurs in `s`.
pub open spec fn contains_text(s: Seq<char>, part: Seq<char>) -> bool {
    exists|i: int| 0 <= i <= s.len() && #[trigger] starts_with(s.skip(i), part)
}

/// Whether `part` occurs in `s`.
pub fn text_contains(s: &str, part: &str) -> (r: bool)
    ensures
        r == contains_text(s@, part@),
{
    let text = chars_of(s);
    let wanted = chars_of(part);
    let mut i: usize = 0;
    while i < text.len()
        invariant
            i <= text.len(),
            text@ == s@,
            wanted@ == part@,
            forall|j: int| 0 <= j < i ==> !#[trigger] starts_with(s@.skip(j), part@),
        decreases text.len() - i,
    {
        if slice_starts_with(text.as_slice(), i, wanted.as_slice()) {
            return true;
        }
        i += 1;
    }
    slice_starts_with(text.as_slice(), i, wanted.as_slice())
}

/// Whether `s` begins with `prefix`.
pub fn text_starts_with(s: &str, prefix: &str) -> (r: bool)
    ensures
        r == starts_with(s@, prefix@),
{
    let text = chars_of(s);
    let wanted = chars_of(prefix);
    assert(text@.skip(0) =~= text@);
    slice_starts_with(text.as_slice(), 0, wanted.as_slice())
}

/// The position of the first `c` in `s`, or the length of `s` where it
/// holds none.
pub open spec fn first_position(s: Seq<char>, c: char) -> nat
    decreases s.len(),
{
    if s.len() == 0 || s[0] == c {
        0
    } else {
        1 + first_position(s.skip(1), c)
    }
}

/// `first_position` stays within the text, names an occurrence where it is
/// short of the end, and passes over none.
pub proof fn lemma_first_position(s: Seq<char>, c: char)
    ensures
        first_position(s, c) <= s.len(),
        first_position(s, c) < s.len() ==> s[first_position(s, c) as int] == c,
        forall|i: int| 0 <= i < first_position(s, c) ==> s[i] != c,
        first_position(s, c) == s.len() <==> !s.contains(c),
    decreases s.len(),
{
    if s.len() > 0 && s[0] != c {
        let rest = s.skip(1);
        lemma_first_position(rest, c);
        assert forall|i: int| 0 <= i < first_position(s, c) implies s[i] != c by {
            if i > 0 {
                assert(s[i] == rest[i - 1]);
            }
        }
    }
}

/// The position of the first `c` in `s`, or the length of `s`.
pub fn find_char(s: &[char], c: char) -> (at: usize)
    ensures
        at == first_position(s@, c),
        at <= s.len(),
{
    let mut i: usize = 0;
    assert(s@.skip(0) =~= s@);
    while i < s.len() && s[i] != c
        invariant
            i <= s.len(),
            first_position(s@, c) == i + first_position(s@.skip(i as int), c),
        decreases s.len() - i,
    {
        assert(s@.skip(i as int).skip(1) =~= s@.skip(i + 1));
        i += 1;
    }
    i
}

/// The number of characters at the front of `s` that are `a` or `b`.
pub open spec fn leading_count(s: Seq<char>, a: char, b: char) -> nat
    decreases s.len(),
{
    if s.len() == 0 || !(s[0] == a || s[0] == b) {
        0
    } else {
        1 + leading_count(s.skip(1), a, b)
    }
}

/// The number of characters at the back of `s` that are `a` or `b`.
pub open spec fn trailing_count(s: Seq<char>, a: char, b: char) -> nat
    decreases s.len(),
{
    if s.len() == 0 || !(s.last() == a || s.last() == b) {
        0
    } else {
        1 + trailing_count(s.drop_last(), a, b)
    }
}

/// The text without the characters `a` and `b` at its front and back.
pub open spec fn trimmed(s: Seq<char>, a: char, b: char) -> Seq<char> {
    let front = leading_count(s, a, b);
    if front >= s.len() {
        Seq::empty()
    } else {
        s.subrange(front as int, s.len() - trailing_count(s, a, b))
    }
}

/// The text without the characters `a` and `b` at its front and back.
pub fn trim_chars(s: &[char], a: char, b: char) -> (out: &[char])
    ensures
        out@ == trimmed(s@, a, b),
{
    let mut front: usize = 0;
    assert(s@.skip(0) =~= s@);
    while front < s.len() && (s[front] == a || s[front] == b)
        invariant
            front <= s.len(),
            leading_count(s@, a, b) == front + leading_count(s@.skip(front as int), a, b),
        decreases s.len() - front,
    {
        assert(s@.skip(front as int).skip(1) =~= s@.skip(front + 1));
        front += 1;
    }
    if front == s.len() {
        let out = slice_subrange(s, 0, 0);
        return out;
    }
    let mut back: usize = s.len();
    while s[back - 1] == a || s[back - 1] == b
        invariant
            front < back <= s.len(),
            !(s@[front as int] == a || s@[front as int] == b),
            trailing_count(s@, a, b) == (s.len() - back) + trailing_count(
                s@.take(back as int),
                a,
                b,
            ),
        decreases back,
    {
        assert(s@.take(back as int).drop_last() =~= s@.take(back - 1));
        back -= 1;
    }
    slice_subrange(s, front, back)
}

/// The pieces of `s` between occurrences of `c`: one more than there are
/// occurrences.
pub open spec fn split_on(s: Seq<char>, c: char) -> Seq<Seq<char>>
    decreases s.len(),
{
    let k = first_position(s, c);
    if k >= s.len() {
        Seq::empty().push(s)
    } else {
        Seq::empty().push(s.take(k as int)) + split_on(s.skip(k as int + 1), c)
    }
}

/// The texts of a vector of character vectors.
pub open spec fn texts_of(pieces: Seq<Vec<char>>) -> Seq<Seq<char>> {
    Seq::new(pieces.len(), |i: int| pieces[i]@)
}

/// The pieces of `s` between occurrences of `c`.
pub fn split_chars(s: &[char], c: char) -> (pieces: Vec<Vec<char>>)
    ensures
        texts_of(pieces@) == split_on(s@, c),
{
    let mut pieces: Vec<Vec<char>> = Vec::new();
    let mut start: usize = 0;
    let mut done = false;
    assert(s@.skip(0) =~= s@);
    while !done
        invariant
            start <= s.len(),
            !done ==> texts_of(pieces@) + split_on(s@.skip(start as int), c) == split_on(s@, c),
            done ==> texts_of(pieces@) == split_on(s@, c),
        decreases s.len() - start + if done { 0int } else { 1int },
    {
        let rest = slice_subrange(s, start, s.len());
        let k = find_char(rest, c);
        if k >= rest.len() {
            pieces.push(slice_to_vec(rest));
            done = true;
        } else {
            let piece = slice_subrange(rest, 0, k);
            pieces.push(slice_to_vec(piece));
            assert(rest@.skip(k + 1) =~= s@.skip(start + k + 1));
            start = start + k + 1;
        }
    }
    pieces
}

/// The character that writes a decimal digit.
pub open spec fn digit_of(d: int) -> char {
    if d == 0 {
        '0'
    } else if d == 1 {
        '1'
    } else if d == 2 {
        '2'
    } else if d == 3 {
        '3'
    } else if d == 4 {
        '4'
    } else if d == 5 {
        '5'
    } else if d == 6 {
        '6'
    } else if d == 7 {
        '7'
    } else if d == 8 {
        '8'
    } else {
        '9'
    }
}

/// The decimal numeral of `n`, without leading zeros.
pub open spec fn decimal(n: nat) -> Seq<char>
    decreases n,
{
    if n < 10 {
        Seq::empty().push(digit_of(n as int))
    } else {
        decimal(n / 10).push(digit_of((n % 10) as int))
    }
}

/// The character that writes a decimal digit.
fn digit_char(d: u8) -> (c: char)
    requires
        d < 10,
    ensures
        c == digit_of(d as int),
{
    if d == 0 {
        '0'
    } else if d == 1 {
        '1'
    } else if d == 2 {
        '2'
    } else if d == 3 {
        '3'
    } else if d == 4 {
        '4'
    } else if d == 5 {
        '5'
    } else if d == 6 {
        '6'
    } else if d == 7 {
        '7'
    } else if d == 8 {
        '8'
    } else {
        '9'
    }
}

/// The decimal digits of `n`, the least significant first.
spec fn digits_reversed(n: nat) -> Seq<char>
    decreases n,
{
    if n < 10 {
        Seq::empty().push(digit_of(n as int))
    } else {
        Seq::empty().push(digit_of((n % 10) as int)) + digits_reversed(n / 10)
    }
}

/// The digits from the least significant on, reversed, are the numeral.
proof fn lemma_digits_reversed(n: nat)
    ensures
        digits_reversed(n).reverse() == decimal(n),
    decreases n,
{
    if n >= 10 {
        lemma_digits_reversed(n / 10);
    }
}

/// Writes `n` in decimal.
pub fn decimal_string(n: u128) -> (out: String)
    ensures
        out@ == decimal(n as nat),
{
    let mut reversed: Vec<char> = Vec::new();
    let mut rest: u128 = n;
    while rest >= 10
        invariant
            reversed@ + digits_reversed(rest as nat) == digits_reversed(n as nat),
        decreases rest,
    {
        let d = (rest % 10) as u8;
        reversed.push(digit_char(d));
        rest = rest / 10;
    }
    reversed.push(digit_char(rest as u8));
    let mut digits: Vec<char> = Vec::new();
    let mut i: usize = reversed.len();
    while i > 0
        invariant
            i <= reversed.len(),
            digits@.len() == reversed.len() - i,
            forall|j: int| 0 <= j < digits@.len() ==> digits@[j] == reversed@[reversed.len() - 1 - j],
        decreases i,
    {
        i -= 1;
        digits.push(reversed[i]);
    }
    proof {
        lemma_digits_reversed(n as nat);
    }
    string_of(digits.as_slice())
}

/// The decimal numeral of `i`, with a leading `-` where it is negative.
pub open spec fn signed_decimal(i: int) -> Seq<char> {
    if i < 0 {
        "-"@ + decimal((-i) as nat)
    } else {
        decimal(i as nat)
    }
}

/// Writes `i` in decimal.
pub fn signed_decimal_string(i: i64) -> (out: String)
    ensures
        out@ == signed_decimal(i as int),
{
    if i < 0 {
        let magnitude: u128 = (-(i as i128)) as u128;
        let mut out = String::from_str("-");
        out.append(decimal_string(magnitude).as_str());
        out
    } else {
        decimal_string(i as u128)
    }
}

/// The view of an optional text.
pub open spec fn optional_text(text: Option<String>) -> Option<Seq<char>> {
    match text {
        Some(t) => Some(t@),
        None => None,
    }
}

/// The view of an optional reference to a text.
pub open spec fn optional_text_ref(text: Option<&String>) -> Option<Seq<char>> {
    match text {
        Some(t) => Some(t@),
        None => None,
    }
}

/// What `str::to_lowercase` returns for a text.
pub uninterp spec fn lowercased(text: Seq<char>) -> Seq<char>;

/// The lowercase form of `text`. Trusted: the result is what
/// `str::to_lowercase` returns, which depends on the text alone.
#[verifier::external_body]
pub(crate) fn lowercase(text: &str) -> (out: String)
    ensures
        out@ == lowercased(text@),
{
    text.to_lowercase()
}

} // verus!
