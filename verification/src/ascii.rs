//! Header text: ASCII bytes, compared without regard to case.
use vstd::prelude::*;

verus! {

/// The bytes of an ASCII text, one for each character.
pub open spec fn bytes(text: Seq<char>) -> Seq<u8> {
    Seq::new(text.len(), |i: int| text[i] as u8)
}

/// A byte with an upper-case ASCII letter turned into the lower-case one.
pub open spec fn lower(b: u8) -> u8 {
    if 65 <= b <= 90 {
        (b + 32) as u8
    } else {
        b
    }
}

/// The two byte strings differ at most in the case of ASCII letters.
pub open spec fn same_text(a: Seq<u8>, b: Seq<u8>) -> bool {
    a.len() == b.len() && forall|i: int| 0 <= i < a.len() ==> lower(a[i]) == lower(b[i])
}

/// `needle` occurs somewhere in `hay`, in whatever case.
pub open spec fn contains_text(hay: Seq<u8>, needle: Seq<u8>) -> bool {
    exists|i: int|
        0 <= i <= hay.len() - needle.len() && same_text(
            #[trigger] hay.subrange(i, i + needle.len()),
            needle,
        )
}

/// Tab, line feed, vertical tab, form feed, carriage return or space.
pub open spec fn is_space(b: u8) -> bool {
    9 <= b <= 13 || b == 32
}

/// Nothing but white space.
pub open spec fn all_space(s: Seq<u8>) -> bool {
    forall|i: int| 0 <= i < s.len() ==> is_space(#[trigger] s[i])
}

/// `s` without the white space at its start.
pub open spec fn trim_start(s: Seq<u8>) -> Seq<u8>
    decreases s.len(),
{
    if s.len() > 0 && is_space(s.first()) {
        trim_start(s.drop_first())
    } else {
        s
    }
}

/// `s` without the white space at its end.
pub open spec fn trim_end(s: Seq<u8>) -> Seq<u8>
    decreases s.len(),
{
    if s.len() > 0 && is_space(s.last()) {
        trim_end(s.drop_last())
    } else {
        s
    }
}

/// `s` without the white space around it.
pub open spec fn trimmed(s: Seq<u8>) -> Seq<u8> {
    trim_end(trim_start(s))
}

/// At least one byte, and each a decimal digit.
pub open spec fn is_number(s: Seq<u8>) -> bool {
    s.len() > 0 && forall|i: int| 0 <= i < s.len() ==> 48 <= #[trigger] s[i] <= 57
}

/// The number that a string of decimal digits writes.
pub open spec fn decimal(digits: Seq<u8>) -> nat
    decreases digits.len(),
{
    if digits.len() == 0 {
        0
    } else {
        (10 * decimal(digits.drop_last()) + (digits.last() - 48)) as nat
    }
}

/// `s` without the plus sign that it may start with.
pub open spec fn unsigned(s: Seq<u8>) -> Seq<u8> {
    if s.len() > 0 && s.first() == 43 {
        s.drop_first()
    } else {
        s
    }
}

/// The `usize` that `s` writes in decimal, with or without a plus sign, if it
/// writes one.
pub open spec fn parsed_usize(s: Seq<u8>) -> Option<usize> {
    if is_number(unsigned(s)) && decimal(unsigned(s)) <= usize::MAX {
        Some(decimal(unsigned(s)) as usize)
    } else {
        None
    }
}

/// The bytes of an ASCII literal.
pub(crate) fn literal_bytes(text: &'static str) -> (r: &'static [u8])
    requires
        text.is_ascii(),
    ensures
        r@ == bytes(text@),
{
    let r = text.as_bytes();
    assert(r@ =~= bytes(text@));
    r
}

fn lower_byte(b: u8) -> (r: u8)
    ensures
        r == lower(b),
{
    if 65 <= b && b <= 90 {
        b + 32
    } else {
        b
    }
}

/// Whether the two byte strings are equal but for the case of ASCII letters.
pub fn eq_ignore_ascii_case(a: &[u8], b: &[u8]) -> (r: bool)
    ensures
        r == same_text(a@, b@),
{
    if a.len() != b.len() {
        return false;
    }
    let n: usize = a.len();
    let mut i: usize = 0;
    while i < n
        invariant
            i <= n,
            n == a@.len(),
            n == b@.len(),
            forall|j: int| 0 <= j < i ==> lower(a@[j]) == lower(b@[j]),
        decreases n - i,
    {
        if lower_byte(a[i]) != lower_byte(b[i]) {
            return false;
        }
        i = i + 1;
    }
    true
}

/// Whether `needle` occurs in `hay`, in whatever case.
pub fn contains_ignore_ascii_case(hay: &[u8], needle: &[u8]) -> (r: bool)
    ensures
        r == contains_text(hay@, needle@),
{
    if hay.len() < needle.len() {
        return false;
    }
    let n: usize = hay.len();
    let width: usize = needle.len();
    let last: usize = n - width;
    let mut i: usize = 0;
    loop
        invariant
            i <= last,
            last + width == n,
            n == hay@.len(),
            width == needle@.len(),
            forall|j: int|
                0 <= j < i ==> !same_text(#[trigger] hay@.subrange(j, j + needle@.len()), needle@),
        decreases last - i,
    {
        let part = vstd::slice::slice_subrange(hay, i, i + width);
        if eq_ignore_ascii_case(part, needle) {
            return true;
        }
        if i == last {
            return false;
        }
        i = i + 1;
    }
}

fn is_space_byte(b: u8) -> (r: bool)
    ensures
        r == is_space(b),
{
    (9 <= b && b <= 13) || b == 32
}

/// The part of `s` between the white space around it.
pub fn trim(s: &[u8]) -> (r: &[u8])
    ensures
        r@ == trimmed(s@),
{
    let n: usize = s.len();
    let mut start: usize = 0;
    assert(s@.subrange(0, n as int) =~= s@);
    while start < n && is_space_byte(s[start])
        invariant
            start <= n,
            n == s@.len(),
            trim_start(s@) == trim_start(s@.subrange(start as int, n as int)),
        decreases n - start,
    {
        assert(s@.subrange(start as int, n as int).drop_first() =~= s@.subrange(
            start + 1,
            n as int,
        ));
        start = start + 1;
    }
    let ghost middle = s@.subrange(start as int, n as int);
    assert(trim_start(s@) == middle);
    let mut end: usize = n;
    while start < end && is_space_byte(s[end - 1])
        invariant
            start <= end <= n,
            n == s@.len(),
            middle == s@.subrange(start as int, n as int),
            trim_end(middle) == trim_end(s@.subrange(start as int, end as int)),
        decreases end,
    {
        assert(s@.subrange(start as int, end as int).drop_last() =~= s@.subrange(
            start as int,
            end - 1,
        ));
        end = end - 1;
    }
    vstd::slice::slice_subrange(s, start, end)
}

/// Whether `b` occurs in `s`.
pub fn contains_byte(s: &[u8], b: u8) -> (r: bool)
    ensures
        r == s@.contains(b),
{
    let n: usize = s.len();
    let mut i: usize = 0;
    while i < n
        invariant
            i <= n,
            n == s@.len(),
            forall|j: int| 0 <= j < i ==> s@[j] != b,
        decreases n - i,
    {
        if s[i] == b {
            return true;
        }
        i = i + 1;
    }
    false
}

/// Reading more digits never makes the number smaller.
proof fn lemma_decimal_grows(digits: Seq<u8>, k: int)
    requires
        is_number(digits),
        0 <= k <= digits.len(),
    ensures
        decimal(digits.take(k)) <= decimal(digits),
    decreases digits.len() - k,
{
    if k == digits.len() {
        assert(digits.take(k) =~= digits);
    } else {
        lemma_decimal_grows(digits, k + 1);
        assert(digits.take(k + 1).drop_last() =~= digits.take(k));
        assert(digits.take(k + 1).last() == digits[k]);
    }
}

/// Parses a decimal number; a leading plus sign is allowed. `None` where `s`
/// is no number, or one that a `usize` cannot hold.
pub fn parse_usize(s: &[u8]) -> (r: Option<usize>)
    ensures
        r == parsed_usize(s@),
{
    let n: usize = s.len();
    let start: usize = if n > 0 && s[0] == 43 {
        1
    } else {
        0
    };
    let ghost digits = unsigned(s@);
    assert(digits =~= s@.subrange(start as int, n as int));
    if start == n {
        return None;
    }
    let mut value: usize = 0;
    let mut i: usize = start;
    while i < n
        invariant
            start <= i <= n,
            start < n,
            n == s@.len(),
            digits == unsigned(s@),
            digits == s@.subrange(start as int, n as int),
            forall|j: int| 0 <= j < i - start ==> 48 <= #[trigger] digits[j] <= 57,
            value == decimal(digits.take(i - start)),
        decreases n - i,
    {
        let b: u8 = s[i];
        assert(digits[i - start] == b);
        if b < 48 || b > 57 {
            return None;
        }
        let ghost longer = digits.take(i - start + 1);
        assert(longer.drop_last() =~= digits.take(i - start));
        assert(longer.last() == b);
        assert(decimal(longer) == 10 * value + (b - 48));
        proof {
            if is_number(digits) {
                lemma_decimal_grows(digits, i - start + 1);
            }
        }
        let digit: usize = (b - 48) as usize;
        match value.checked_mul(10) {
            None => {
                return None;
            },
            Some(tens) => {
                match tens.checked_add(digit) {
                    None => {
                        return None;
                    },
                    Some(sum) => {
                        value = sum;
                    },
                }
            },
        }
        i = i + 1;
    }
    assert(digits.take(n - start) =~= digits);
    Some(value)
}

proof fn lemma_trim_start_padding(pad: Seq<u8>, s: Seq<u8>)
    requires
        all_space(pad),
    ensures
        trim_start(pad + s) == trim_start(s),
    decreases pad.len(),
{
    if pad.len() == 0 {
        assert(pad + s =~= s);
    } else {
        assert(is_space(pad[0]));
        assert((pad + s).drop_first() =~= pad.drop_first() + s);
        lemma_trim_start_padding(pad.drop_first(), s);
    }
}

proof fn lemma_trim_end_padding(s: Seq<u8>, pad: Seq<u8>)
    requires
        all_space(pad),
    ensures
        trim_end(s + pad) == trim_end(s),
    decreases pad.len(),
{
    if pad.len() == 0 {
        assert(s + pad =~= s);
    } else {
        assert(is_space(pad[pad.len() - 1]));
        assert((s + pad).drop_last() =~= s + pad.drop_last());
        lemma_trim_end_padding(s, pad.drop_last());
    }
}

/// What follows `s` stays where it is when `s` is trimmed at its start, unless
/// nothing of `s` is left.
proof fn lemma_trim_start_keeps_end(s: Seq<u8>, pad: Seq<u8>)
    ensures
        trim_start(s).len() > 0 ==> trim_start(s + pad) == trim_start(s) + pad,
        trim_start(s).len() == 0 ==> trim_start(s + pad) == trim_start(pad),
    decreases s.len(),
{
    if s.len() == 0 {
        assert(s + pad =~= pad);
    } else {
        assert((s + pad).first() == s.first());
        assert((s + pad).drop_first() =~= s.drop_first() + pad);
        lemma_trim_start_keeps_end(s.drop_first(), pad);
    }
}

/// White space around a text goes when the text is trimmed.
pub proof fn law_trim_ignores_padding(before: Seq<u8>, s: Seq<u8>, after: Seq<u8>)
    requires
        all_space(before),
        all_space(after),
    ensures
        trimmed(before + s + after) == trimmed(s),
{
    assert(before + s + after =~= before + (s + after));
    lemma_trim_start_padding(before, s + after);
    lemma_trim_start_keeps_end(s, after);
    if trim_start(s).len() > 0 {
        lemma_trim_end_padding(trim_start(s), after);
    } else {
        lemma_trim_start_padding(after, Seq::empty());
        assert(after + Seq::<u8>::empty() =~= after);
    }
}

/// Trimming does not tell apart texts that differ in case only.
pub proof fn law_trim_keeps_same_text(a: Seq<u8>, b: Seq<u8>)
    requires
        same_text(a, b),
    ensures
        same_text(trimmed(a), trimmed(b)),
{
    lemma_trim_start_same_text(a, b);
    lemma_trim_end_same_text(trim_start(a), trim_start(b));
}

proof fn lemma_trim_start_same_text(a: Seq<u8>, b: Seq<u8>)
    requires
        same_text(a, b),
    ensures
        same_text(trim_start(a), trim_start(b)),
    decreases a.len(),
{
    if a.len() > 0 {
        assert(lower(a[0]) == lower(b[0]));
        lemma_trim_start_same_text(a.drop_first(), b.drop_first());
    }
}

proof fn lemma_trim_end_same_text(a: Seq<u8>, b: Seq<u8>)
    requires
        same_text(a, b),
    ensures
        same_text(trim_end(a), trim_end(b)),
    decreases a.len(),
{
    if a.len() > 0 {
        assert(lower(a[a.len() - 1]) == lower(b[b.len() - 1]));
        lemma_trim_end_same_text(a.drop_last(), b.drop_last());
    }
}

/// The same byte, or the same ASCII letter in the other case.
pub open spec fn same_letter(a: u8, b: u8) -> bool {
    ||| a == b
    ||| 65 <= a <= 90 && b == a + 32
    ||| 97 <= a <= 122 && b == a - 32
}

/// Byte by byte the same, but for the case of letters.
pub open spec fn reads_as(a: Seq<u8>, b: Seq<u8>) -> bool {
    a.len() == b.len() && forall|i: int|
        0 <= i < a.len() ==> same_letter(#[trigger] a[i], b[i])
}

/// One of the six white space characters of ASCII.
pub open spec fn is_white(b: u8) -> bool {
    b == 9 || b == 10 || b == 11 || b == 12 || b == 13 || b == 32
}

/// Nothing but white space characters.
pub open spec fn all_white(s: Seq<u8>) -> bool {
    forall|i: int| 0 <= i < s.len() ==> is_white(#[trigger] s[i])
}

/// Two bytes count as the same exactly when they are equal or are the two cases
/// of one letter.
pub proof fn law_only_case_is_ignored(a: u8, b: u8)
    ensures
        lower(a) == lower(b) <==> same_letter(a, b),
{
}

/// Two texts are the same exactly when they agree byte by byte, but for the case
/// of letters.
pub proof fn law_same_text_by_bytes(a: Seq<u8>, b: Seq<u8>)
    ensures
        same_text(a, b) <==> reads_as(a, b),
{
    if same_text(a, b) {
        assert forall|i: int| 0 <= i < a.len() implies same_letter(#[trigger] a[i], b[i]) by {
            law_only_case_is_ignored(a[i], b[i]);
        }
    }
    if reads_as(a, b) {
        assert forall|i: int| 0 <= i < a.len() implies lower(a[i]) == lower(b[i]) by {
            assert(same_letter(a[i], b[i]));
        }
    }
}

/// A text occurs in another wherever it stands in it, whatever comes before it
/// and behind it.
pub proof fn law_contained_wherever_it_stands(
    before: Seq<u8>,
    part: Seq<u8>,
    after: Seq<u8>,
    needle: Seq<u8>,
)
    requires
        reads_as(part, needle),
    ensures
        contains_text(before + part + after, needle),
{
    law_same_text_by_bytes(part, needle);
    let hay = before + part + after;
    let i = before.len() as int;
    assert(hay.subrange(i, i + needle.len()) =~= part);
}

/// A text occurs in another only where that one can be cut so that the text is
/// one of the pieces.
pub proof fn law_contained_only_where_it_stands(hay: Seq<u8>, needle: Seq<u8>)
    requires
        contains_text(hay, needle),
    ensures
        exists|before: Seq<u8>, part: Seq<u8>, after: Seq<u8>|
            hay == #[trigger] (before + part + after) && reads_as(part, needle),
{
    let i = choose|i: int|
        0 <= i <= hay.len() - needle.len() && same_text(
            #[trigger] hay.subrange(i, i + needle.len()),
            needle,
        );
    let before = hay.take(i);
    let part = hay.subrange(i, i + needle.len());
    let after = hay.skip(i + needle.len());
    law_same_text_by_bytes(part, needle);
    assert(hay =~= before + part + after);
}

proof fn lemma_trim_start_cuts(s: Seq<u8>) -> (cut: int)
    ensures
        0 <= cut <= s.len(),
        trim_start(s) == s.skip(cut),
        all_white(s.take(cut)),
        cut < s.len() ==> !is_white(s[cut]),
    decreases s.len(),
{
    if s.len() > 0 && is_space(s.first()) {
        let rest = s.drop_first();
        let cut = lemma_trim_start_cuts(rest);
        assert(rest.skip(cut) =~= s.skip(cut + 1));
        assert forall|i: int| 0 <= i < cut + 1 implies is_white(#[trigger] s.take(cut + 1)[i]) by {
            if i > 0 {
                assert(rest.take(cut)[i - 1] == s[i]);
            }
        }
        cut + 1
    } else {
        assert(s.skip(0) =~= s);
        0
    }
}

proof fn lemma_trim_end_cuts(s: Seq<u8>) -> (cut: int)
    ensures
        0 <= cut <= s.len(),
        trim_end(s) == s.take(cut),
        all_white(s.skip(cut)),
        cut > 0 ==> !is_white(s[cut - 1]),
    decreases s.len(),
{
    if s.len() > 0 && is_space(s.last()) {
        let rest = s.drop_last();
        let cut = lemma_trim_end_cuts(rest);
        assert(rest.take(cut) =~= s.take(cut));
        assert forall|i: int| 0 <= i < s.len() - cut implies is_white(#[trigger] s.skip(cut)[i]) by {
            if cut + i < rest.len() {
                assert(rest.skip(cut)[i] == s[cut + i]);
            }
        }
        cut
    } else {
        assert(s.take(s.len() as int) =~= s);
        s.len() as int
    }
}

/// Trimming takes away nothing but white space, from the two ends, and leaves
/// none there.
pub proof fn law_trim_takes_all_space_around(s: Seq<u8>)
    ensures
        exists|before: Seq<u8>, after: Seq<u8>|
            s == #[trigger] (before + trimmed(s) + after) && all_white(before) && all_white(after),
        trimmed(s).len() > 0 ==> !is_white(trimmed(s).first()) && !is_white(trimmed(s).last()),
{
    let start = lemma_trim_start_cuts(s);
    let middle = s.skip(start);
    let end = lemma_trim_end_cuts(middle);
    let before = s.take(start);
    let after = middle.skip(end);
    assert(s =~= before + trimmed(s) + after);
    if trimmed(s).len() > 0 {
        assert(trimmed(s).first() == s[start]);
        assert(trimmed(s).last() == middle[end - 1]);
    }
}

/// A digit alone is the number that it writes.
pub proof fn law_digit_is_its_value(digit: u8)
    requires
        digit < 10,
    ensures
        parsed_usize(seq![(48 + digit) as u8]) == Some(digit as usize),
{
    let s = seq![(48 + digit) as u8];
    reveal_with_fuel(decimal, 2);
    assert(s.drop_last() =~= Seq::empty());
    assert(unsigned(s) == s);
}

/// One more digit behind a number makes it ten times as much and the digit,
/// unless that is more than a `usize` can hold. A number that is too large stays
/// so.
pub proof fn law_digit_behind_a_number(s: Seq<u8>, digit: u8)
    requires
        s.len() > 0,
        forall|i: int| 0 <= i < s.len() ==> 48 <= #[trigger] s[i] <= 57,
        digit < 10,
    ensures
        parsed_usize(s.push((48 + digit) as u8)) == match parsed_usize(s) {
            Some(value) => if 10 * value + digit <= usize::MAX {
                Some((10 * value + digit) as usize)
            } else {
                None
            },
            None => None,
        },
{
    let longer = s.push((48 + digit) as u8);
    assert(longer.drop_last() =~= s);
    assert(longer.first() == s[0] && s.first() == s[0]);
    assert(is_number(s));
    assert(is_number(longer)) by {
        assert forall|i: int| 0 <= i < longer.len() implies 48 <= #[trigger] longer[i] <= 57 by {
            if i < s.len() {
                assert(longer[i] == s[i]);
            }
        }
    }
}

/// A plus sign before a number does not matter.
pub proof fn law_plus_before_a_number(s: Seq<u8>)
    requires
        s.len() == 0 || s.first() != 43,
    ensures
        parsed_usize(seq![43u8] + s) == parsed_usize(s),
{
    assert((seq![43u8] + s).drop_first() =~= s);
    assert((seq![43u8] + s).first() == 43);
}

/// Nothing, and anything with a byte in it that is no digit, but for a plus sign
/// at the start, is no number.
pub proof fn law_no_number_without_digits(s: Seq<u8>, i: int)
    requires
        s.len() == 0 || {
            &&& 0 <= i < s.len()
            &&& !(48 <= s[i] <= 57)
            &&& !(i == 0 && s[0] == 43)
        },
    ensures
        parsed_usize(s) is None,
{
    if s.len() > 0 {
        if s.first() == 43 {
            assert(s.drop_first()[i - 1] == s[i]);
        }
    }
}

} // verus!
