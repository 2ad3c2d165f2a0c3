//! The byte-level grammar shared by the request parser and the response
//! encoder: line ends, blank-separated words and decimal numbers.

use vstd::prelude::*;

verus! {

/// Carriage return, the first byte of a line end.
pub const CR: u8 = 13;

/// Line feed, the second byte of a line end.
pub const LF: u8 = 10;

/// The space that separates the fields of a rendered line.
pub const SPACE: u8 = 32;

/// The sign that may lead a number.
pub const PLUS: u8 = 43;

/// The digit zero.
pub const ZERO: u8 = 48;

/// The ASCII whitespace bytes: space, tab, line feed, form feed and carriage
/// return. They separate the words of a command line.
pub open spec fn is_blank(b: u8) -> bool {
    b == 32 || b == 9 || b == 10 || b == 12 || b == 13
}

/// A decimal digit.
pub open spec fn is_digit(b: u8) -> bool {
    48 <= b <= 57
}

/// A carriage return at `i` with a line feed right after it.
pub open spec fn crlf_at(s: Seq<u8>, i: int) -> bool {
    0 <= i && i + 1 < s.len() && s[i] == CR && s[i + 1] == LF
}

/// The position of the first line end at or after `from`, if there is one.
pub open spec fn first_crlf(s: Seq<u8>, from: int) -> Option<int>
    decreases s.len() - from,
{
    if from < 0 || from + 1 >= s.len() {
        None
    } else if crlf_at(s, from) {
        Some(from)
    } else {
        first_crlf(s, from + 1)
    }
}

/// The position of the line end that closes the first line of `s`.
pub open spec fn line_end(s: Seq<u8>) -> Option<int> {
    first_crlf(s, 0)
}

/// The first position at or after `i` that holds no blank.
pub open spec fn skip_blanks(s: Seq<u8>, i: int) -> int
    decreases s.len() - i,
{
    if 0 <= i < s.len() && is_blank(s[i]) {
        skip_blanks(s, i + 1)
    } else {
        i
    }
}

/// The first position at or after `i` that holds a blank, or the length.
pub open spec fn skip_word(s: Seq<u8>, i: int) -> int
    decreases s.len() - i,
{
    if 0 <= i < s.len() && !is_blank(s[i]) {
        skip_word(s, i + 1)
    } else {
        i
    }
}

/// Where the words of `s` at or after `i` start and end: the maximal runs of
/// bytes that are not blank, from left to right.
pub open spec fn spans_from(s: Seq<u8>, i: int) -> Seq<(int, int)>
    decreases s.len() - i,
{
    let start = skip_blanks(s, i);
    let end = skip_word(s, start);
    if 0 <= i <= start < end <= s.len() {
        seq![(start, end)] + spans_from(s, end)
    } else {
        seq![]
    }
}

/// Where the words of `s` start and end.
pub open spec fn spans(s: Seq<u8>) -> Seq<(int, int)> {
    spans_from(s, 0)
}

/// The words of `s`.
pub open spec fn words(s: Seq<u8>) -> Seq<Seq<u8>> {
    Seq::new(spans(s).len(), |k: int| s.subrange(spans(s)[k].0, spans(s)[k].1))
}

/// Every byte of `s` is a decimal digit.
pub open spec fn all_digits(s: Seq<u8>) -> bool {
    forall|i: int| 0 <= i < s.len() ==> is_digit(#[trigger] s[i])
}

/// The number that the digits of `s` spell, most significant digit first.
pub open spec fn digits_value(s: Seq<u8>) -> nat
    decreases s.len(),
{
    if s.len() == 0 {
        0
    } else {
        digits_value(s.drop_last()) * 10 + (s.last() - ZERO) as nat
    }
}

/// What is left of a number once its optional plus sign is gone.
pub open spec fn unsigned_part(s: Seq<u8>) -> Seq<u8> {
    if s.len() > 0 && s[0] == PLUS {
        s.drop_first()
    } else {
        s
    }
}

/// The number that `s` spells: an optional plus sign, then one or more decimal
/// digits, with a value of at most `max`. Anything else spells no number.
pub open spec fn number(s: Seq<u8>, max: nat) -> Option<nat> {
    let digits = unsigned_part(s);
    if digits.len() > 0 && all_digits(digits) && digits_value(digits) <= max {
        Some(digits_value(digits))
    } else {
        None
    }
}

/// The decimal digits of `n`, without a sign and without leading zeros.
pub open spec fn decimal(n: nat) -> Seq<u8>
    decreases n,
{
    if n < 10 {
        seq![(ZERO + n) as u8]
    } else {
        decimal(n / 10).push((ZERO + n % 10) as u8)
    }
}

/// What `first_crlf` finds is a line end, and no line end lies between `from`
/// and it; where it finds nothing, there is none from `from` on.
pub proof fn lemma_first_crlf(s: Seq<u8>, from: int)
    requires
        0 <= from,
    ensures
        match first_crlf(s, from) {
            Some(p) => from <= p && crlf_at(s, p) && forall|j: int|
                from <= j < p ==> !crlf_at(s, j),
            None => forall|j: int| from <= j ==> !crlf_at(s, j),
        },
    decreases s.len() - from,
{
    if from + 1 < s.len() && !crlf_at(s, from) {
        lemma_first_crlf(s, from + 1);
    }
}

/// `skip_blanks` passes over blanks only and stops at the first other byte.
pub proof fn lemma_skip_blanks(s: Seq<u8>, i: int)
    requires
        0 <= i <= s.len(),
    ensures
        i <= skip_blanks(s, i) <= s.len(),
        skip_blanks(s, i) < s.len() ==> !is_blank(s[skip_blanks(s, i)]),
        forall|j: int| i <= j < skip_blanks(s, i) ==> is_blank(#[trigger] s[j]),
    decreases s.len() - i,
{
    if i < s.len() && is_blank(s[i]) {
        lemma_skip_blanks(s, i + 1);
    }
}

/// `skip_word` passes over bytes that are not blank and stops at the first
/// blank.
pub proof fn lemma_skip_word(s: Seq<u8>, i: int)
    requires
        0 <= i <= s.len(),
    ensures
        i <= skip_word(s, i) <= s.len(),
        skip_word(s, i) < s.len() ==> is_blank(s[skip_word(s, i)]),
        forall|j: int| i <= j < skip_word(s, i) ==> !is_blank(#[trigger] s[j]),
    decreases s.len() - i,
{
    if i < s.len() && !is_blank(s[i]) {
        lemma_skip_word(s, i + 1);
    }
}

/// Each word is a run of bytes that are not blank, it is not empty, it starts
/// at the front or right after a blank, and it ends at the back or right
/// before a blank.
pub proof fn lemma_spans_from(s: Seq<u8>, i: int)
    requires
        0 <= i <= s.len(),
        i == 0 || i == s.len() || is_blank(s[i - 1]) || is_blank(s[i]),
    ensures
        forall|k: int|
            0 <= k < spans_from(s, i).len() ==> {
                let (a, b) = #[trigger] spans_from(s, i)[k];
                &&& i <= a < b <= s.len()
                &&& (a == 0 || is_blank(s[a - 1]))
                &&& (b == s.len() || is_blank(s[b]))
                &&& forall|j: int| a <= j < b ==> !is_blank(#[trigger] s[j])
            },
    decreases s.len() - i,
{
    let start = skip_blanks(s, i);
    lemma_skip_blanks(s, i);
    let end = skip_word(s, start);
    lemma_skip_word(s, start);
    if start < end {
        lemma_spans_from(s, end);
        assert(start == 0 || is_blank(s[start - 1])) by {
            if start > i {
                assert(is_blank(s[start - 1]));
            }
        }
        assert forall|k: int| 0 <= k < spans_from(s, i).len() implies {
            let (a, b) = #[trigger] spans_from(s, i)[k];
            &&& i <= a < b <= s.len()
            &&& (a == 0 || is_blank(s[a - 1]))
            &&& (b == s.len() || is_blank(s[b]))
            &&& forall|j: int| a <= j < b ==> !is_blank(#[trigger] s[j])
        } by {
            if k > 0 {
                assert(spans_from(s, i)[k] == spans_from(s, end)[k - 1]);
            }
        }
    }
}

/// A longer run of digits spells no smaller a number than its front part.
pub proof fn lemma_digits_value_grows(s: Seq<u8>, k: int)
    requires
        0 <= k <= s.len(),
        all_digits(s),
    ensures
        digits_value(s.take(k)) <= digits_value(s),
    decreases s.len() - k,
{
    if k == s.len() {
        assert(s.take(k) =~= s);
    } else {
        lemma_digits_value_grows(s, k + 1);
        assert(s.take(k + 1).drop_last() =~= s.take(k));
        assert(is_digit(s[k]));
    }
}

/// The digits of a number are digits, at least one of them, and none is a
/// sign.
pub proof fn lemma_decimal_digits(n: nat)
    ensures
        decimal(n).len() > 0,
        all_digits(decimal(n)),
        decimal(n)[0] != PLUS,
    decreases n,
{
    if n >= 10 {
        lemma_decimal_digits(n / 10);
    }
}

/// The digits of a number spell that number.
pub proof fn lemma_decimal_value(n: nat)
    ensures
        digits_value(decimal(n)) == n,
    decreases n,
{
    if n < 10 {
        assert(decimal(n).drop_last() =~= Seq::<u8>::empty());
        reveal_with_fuel(digits_value, 2);
    } else {
        lemma_decimal_value(n / 10);
        let d = decimal(n / 10);
        assert(decimal(n).drop_last() =~= d);
    }
}

/// Tells a blank from any other byte.
pub fn blank(b: u8) -> (r: bool)
    ensures
        r == is_blank(b),
{
    b == 32 || b == 9 || b == 10 || b == 12 || b == 13
}

/// Finds the line end that closes the first line of `bytes`.
pub fn find_line_end(bytes: &[u8]) -> (found: Option<usize>)
    ensures
        match found {
            Some(p) => line_end(bytes@) == Some(p as int),
            None => line_end(bytes@) is None,
        },
{
    let n = bytes.len();
    let mut i: usize = 0;
    while i < n && n - i >= 2
        invariant
            n == bytes@.len(),
            i <= n,
            first_crlf(bytes@, 0) == first_crlf(bytes@, i as int),
        decreases n - i,
    {
        if bytes[i] == CR && bytes[i + 1] == LF {
            return Some(i);
        }
        i += 1;
    }
    None
}

/// What a vector of index pairs says as a sequence of spans.
pub open spec fn spans_of(v: Seq<(usize, usize)>) -> Seq<(int, int)> {
    Seq::new(v.len(), |k: int| (v[k].0 as int, v[k].1 as int))
}

/// Finds the words of the first `end` bytes of `bytes`.
pub fn find_words(bytes: &[u8], end: usize) -> (found: Vec<(usize, usize)>)
    requires
        end <= bytes@.len(),
    ensures
        spans_of(found@) == spans(bytes@.subrange(0, end as int)),
{
    let ghost line = bytes@.subrange(0, end as int);
    let mut found: Vec<(usize, usize)> = Vec::new();
    let mut i: usize = 0;
    while i < end
        invariant
            i <= end <= bytes@.len(),
            line == bytes@.subrange(0, end as int),
            spans(line) == spans_of(found@) + spans_from(line, i as int),
        decreases end - i,
    {
        proof {
            lemma_skip_blanks(line, i as int + 1);
        }
        if blank(bytes[i]) {
            i += 1;
        } else {
            let start = i;
            let mut stop = i + 1;
            while stop < end && !blank(bytes[stop])
                invariant
                    start < stop <= end <= bytes@.len(),
                    line == bytes@.subrange(0, end as int),
                    skip_word(line, start as int) == skip_word(line, stop as int),
                decreases end - stop,
            {
                stop += 1;
            }
            proof {
                let ghost before = spans_of(found@);
                assert(spans_from(line, start as int) == seq![(start as int, stop as int)]
                    + spans_from(line, stop as int));
                assert(spans_of(found@.push((start, stop))) =~= before.push(
                    (start as int, stop as int),
                ));
                assert(spans(line) =~= before.push((start as int, stop as int)) + spans_from(
                    line,
                    stop as int,
                ));
            }
            found.push((start, stop));
            i = stop;
        }
    }
    assert(spans_of(found@) + spans_from(line, end as int) =~= spans_of(found@));
    found
}

/// Reads the number that the bytes from `start` to `end` spell, if they spell
/// one of at most `max`.
pub fn read_number(bytes: &[u8], start: usize, end: usize, max: u64) -> (found: Option<u64>)
    requires
        start <= end <= bytes@.len(),
    ensures
        match found {
            Some(n) => number(bytes@.subrange(start as int, end as int), max as nat) == Some(
                n as nat,
            ),
            None => number(bytes@.subrange(start as int, end as int), max as nat) is None,
        },
{
    let ghost word = bytes@.subrange(start as int, end as int);
    let mut i: usize = start;
    if i < end && bytes[i] == PLUS {
        i += 1;
    }
    let first = i;
    let ghost digits = bytes@.subrange(first as int, end as int);
    assert(digits =~= unsigned_part(word));
    if i == end {
        return None;
    }
    let mut value: u64 = 0;
    while i < end
        invariant
            first <= i <= end <= bytes@.len(),
            first < end,
            digits == bytes@.subrange(first as int, end as int),
            digits == unsigned_part(bytes@.subrange(start as int, end as int)),
            all_digits(digits.take(i - first)),
            value == digits_value(digits.take(i - first)),
            value <= max,
        decreases end - i,
    {
        let b = bytes[i];
        if b < 48 || b > 57 {
            assert(!is_digit(digits[i - first]));
            return None;
        }
        let next: u128 = value as u128 * 10 + (b - ZERO) as u128;
        proof {
            assert(digits.take(i - first + 1).drop_last() =~= digits.take(i - first));
            assert(all_digits(digits.take(i - first + 1)));
            assert(next == digits_value(digits.take(i - first + 1)));
        }
        if next > max as u128 {
            proof {
                if all_digits(digits) {
                    lemma_digits_value_grows(digits, i - first + 1);
                }
            }
            return None;
        }
        value = next as u64;
        i += 1;
    }
    assert(digits.take(end - first) =~= digits);
    Some(value)
}

/// Appends `bytes` to `out`.
pub fn push_bytes(out: &mut Vec<u8>, bytes: &[u8])
    ensures
        final(out)@ == old(out)@ + bytes@,
{
    let mut i: usize = 0;
    while i < bytes.len()
        invariant
            i <= bytes@.len(),
            out@ == old(out)@ + bytes@.take(i as int),
        decreases bytes@.len() - i,
    {
        out.push(bytes[i]);
        assert(bytes@.take(i + 1) =~= bytes@.take(i as int).push(bytes@[i as int]));
        i += 1;
    }
    assert(bytes@.take(i as int) =~= bytes@);
}

/// Appends the decimal digits of `n` to `out`.
pub fn push_decimal(out: &mut Vec<u8>, n: u64)
    ensures
        final(out)@ == old(out)@ + decimal(n as nat),
    decreases n,
{
    if n >= 10 {
        push_decimal(out, n / 10);
    }
    out.push(ZERO + (n % 10) as u8);
}

} // verus!
