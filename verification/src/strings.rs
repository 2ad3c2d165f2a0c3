//! Cutting text at byte positions: which positions of a UTF-8 text are
//! character boundaries, and the part of a text between two of them.

use vstd::prelude::*;
use vstd::string::*;
use vstd::utf8::*;

verus! {

/// In valid UTF-8 an ASCII byte is a character of its own: a character
/// starts at it, and the next one starts right after it.
pub proof fn lemma_boundaries_at_ascii(bytes: Seq<u8>, i: int)
    requires
        valid_utf8(bytes),
        0 <= i < bytes.len(),
        bytes[i] <= 0x7f,
    ensures
        is_char_boundary(bytes, i),
        is_char_boundary(bytes, i + 1),
{
    is_char_boundary_iff_not_is_continuation_byte(bytes, i);
    if i + 1 == bytes.len() {
        is_char_boundary_start_end_of_seq(bytes);
    } else {
        valid_utf8_split(bytes, i);
        let rest = bytes.subrange(i, bytes.len() as int);
        assert(rest[0] == bytes[i]);
        assert(pop_first_scalar(rest) =~= bytes.subrange(i + 1, bytes.len() as int));
        let tail = bytes.subrange(i + 1, bytes.len() as int);
        assert(valid_utf8(tail));
        assert(tail[0] == bytes[i + 1]);
        assert(valid_first_scalar(tail));
        is_char_boundary_iff_not_is_continuation_byte(bytes, i + 1);
    }
}

/// A character boundary of a text is one of each front part that reaches it.
pub proof fn lemma_boundary_in_front(bytes: Seq<u8>, start: int, end: int)
    requires
        valid_utf8(bytes),
        0 <= start <= end <= bytes.len(),
        is_char_boundary(bytes, start),
        is_char_boundary(bytes, end),
    ensures
        valid_utf8(bytes.subrange(0, end)),
        is_char_boundary(bytes.subrange(0, end), start),
{
    let front = bytes.subrange(0, end);
    valid_utf8_split(bytes, end);
    if start == end {
        is_char_boundary_start_end_of_seq(front);
    } else {
        is_char_boundary_iff_not_is_continuation_byte(bytes, start);
        assert(front[start] == bytes[start]);
        is_char_boundary_iff_not_is_continuation_byte(front, start);
    }
}

/// The part of `data` between two character boundaries, given as byte
/// positions.
pub fn substring<'a>(data: &'a str, start: usize, end: usize) -> (part: &'a str)
    requires
        start <= end <= data.spec_bytes().len(),
        is_char_boundary(data.spec_bytes(), start as int),
        is_char_boundary(data.spec_bytes(), end as int),
    ensures
        part.spec_bytes() == data.spec_bytes().subrange(start as int, end as int),
        part@ == decode_utf8(data.spec_bytes().subrange(start as int, end as int)),
{
    broadcast use {encode_utf8_valid_utf8, encode_utf8_decode_utf8};

    let ghost bytes = data.spec_bytes();
    let (front, _) = data.split_at(end);
    proof {
        lemma_boundary_in_front(bytes, start as int, end as int);
    }
    let (_, part) = front.split_at(start);
    assert(part.spec_bytes() =~= bytes.subrange(start as int, end as int));
    part
}

/// Whether two texts are the same, character by character.
pub fn same_text(a: &str, b: &str) -> (same: bool)
    ensures
        same == (a@ == b@),
{
    broadcast use encode_utf8_decode_utf8;

    let x = a.as_bytes();
    let y = b.as_bytes();
    if x.len() != y.len() {
        return false;
    }
    let mut i: usize = 0;
    while i < x.len()
        invariant
            i <= x@.len(),
            x@.len() == y@.len(),
            x@.take(i as int) == y@.take(i as int),
            x@ == encode_utf8(a@),
            y@ == encode_utf8(b@),
        decreases x@.len() - i,
    {
        if x[i] != y[i] {
            return false;
        }
        assert(x@.take(i + 1) =~= x@.take(i as int).push(x@[i as int]));
        assert(y@.take(i + 1) =~= y@.take(i as int).push(y@[i as int]));
        i += 1;
    }
    assert(x@ =~= x@.take(i as int) && y@ =~= y@.take(i as int));
    assert(decode_utf8(encode_utf8(a@)) == decode_utf8(encode_utf8(b@)));
    true
}

} // verus!
