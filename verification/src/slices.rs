//! Byte positions in text.
//!
//! A position counts the bytes of the text's UTF-8 form. A piece of text can be
//! cut out only between positions at which a character starts or the text ends.
use crate::text::byte_len;
use vstd::prelude::*;
use vstd::utf8::{
    decode_utf8, decode_utf8_encode_utf8, encode_utf8, encode_utf8_decode_utf8,
    encode_utf8_valid_utf8, is_char_boundary, is_char_boundary_iff_not_is_continuation_byte,
    is_char_boundary_start_end_of_seq, valid_utf8, valid_utf8_split,
};

verus! {

/// The length of a text in bytes.
pub open spec fn size_of(s: Seq<char>) -> nat {
    encode_utf8(s).len()
}

/// Whether a character starts at a position, or the text ends there.
pub open spec fn is_boundary(s: Seq<char>, at: int) -> bool {
    0 <= at <= size_of(s) && is_char_boundary(encode_utf8(s), at)
}

/// The last boundary at or before a position.
pub open spec fn floor_at(s: Seq<char>, at: int) -> int
    decreases at,
{
    if at <= 0 {
        0
    } else if at > size_of(s) {
        size_of(s) as int
    } else if is_boundary(s, at) {
        at
    } else {
        floor_at(s, at - 1)
    }
}

/// The text between two positions.
pub open spec fn piece(s: Seq<char>, from: int, to: int) -> Seq<char> {
    decode_utf8(encode_utf8(s).subrange(from, to))
}

/// Encoding takes concatenation to concatenation.
pub proof fn lemma_encode_concat(a: Seq<char>, b: Seq<char>)
    ensures
        encode_utf8(a + b) == encode_utf8(a) + encode_utf8(b),
    decreases a.len(),
{
    if a.len() == 0 {
        assert(a + b =~= b);
        assert(encode_utf8(a) + encode_utf8(b) =~= encode_utf8(b));
    } else {
        lemma_encode_concat(a.drop_first(), b);
        assert((a + b).drop_first() =~= a.drop_first() + b);
        assert(encode_utf8(a + b) =~= encode_utf8(a) + encode_utf8(b));
    }
}

/// The start and the end of a text are boundaries.
pub proof fn lemma_ends_are_boundaries(s: Seq<char>)
    ensures
        is_boundary(s, 0),
        is_boundary(s, size_of(s) as int),
{
    encode_utf8_valid_utf8(s);
    is_char_boundary_start_end_of_seq(encode_utf8(s));
}

/// The last boundary before a position is a boundary, and there is none
/// between the two.
pub proof fn lemma_floor(s: Seq<char>, at: int)
    ensures
        is_boundary(s, floor_at(s, at)),
        at >= 0 ==> floor_at(s, at) <= at,
        forall|k: int| floor_at(s, at) < k <= at ==> !#[trigger] is_boundary(s, k),
    decreases at,
{
    lemma_ends_are_boundaries(s);
    if 0 < at && at <= size_of(s) && !is_boundary(s, at) {
        lemma_floor(s, at - 1);
    }
}

/// A piece between two boundaries is a text whose bytes are those between.
pub proof fn lemma_piece(s: Seq<char>, from: int, to: int)
    requires
        is_boundary(s, from),
        is_boundary(s, to),
        from <= to,
    ensures
        encode_utf8(piece(s, from, to)) == encode_utf8(s).subrange(from, to),
        size_of(piece(s, from, to)) == to - from,
{
    let bytes = encode_utf8(s);
    encode_utf8_valid_utf8(s);
    valid_utf8_split(bytes, to);
    let head = bytes.subrange(0, to);
    assert(valid_utf8(head));
    assert(is_char_boundary(head, from)) by {
        if from < to {
            is_char_boundary_iff_not_is_continuation_byte(bytes, from);
            is_char_boundary_iff_not_is_continuation_byte(head, from);
            assert(head[from] == bytes[from]);
        } else {
            is_char_boundary_start_end_of_seq(head);
        }
    }
    valid_utf8_split(head, from);
    assert(head.subrange(from, head.len() as int) =~= bytes.subrange(from, to));
    decode_utf8_encode_utf8(bytes.subrange(from, to));
}

/// Walks a position back to the nearest boundary at or below it.
pub fn floor_boundary(s: &str, at: usize) -> (r: usize)
    ensures
        r == floor_at(s@, at as int),
        is_boundary(s@, r as int),
        r <= at,
        r <= size_of(s@),
{
    let total: usize = byte_len(s);
    let mut i: usize = if at > total {
        total
    } else {
        at
    };
    proof {
        lemma_floor(s@, at as int);
        lemma_ends_are_boundaries(s@);
    }
    while i > 0 && !s.is_char_boundary(i)
        invariant
            i <= size_of(s@),
            i <= at,
            floor_at(s@, i as int) == floor_at(s@, at as int),
            is_boundary(s@, floor_at(s@, at as int)),
        decreases i,
    {
        i -= 1;
    }
    i
}

/// Cuts out the text between two boundaries.
pub fn slice(s: &str, from: usize, to: usize) -> (r: &str)
    requires
        is_boundary(s@, from as int),
        is_boundary(s@, to as int),
        from <= to,
    ensures
        r@ == piece(s@, from as int, to as int),
        encode_utf8(r@) == encode_utf8(s@).subrange(from as int, to as int),
{
    proof {
        lemma_piece(s@, from as int, to as int);
    }
    let (head, _tail) = s.split_at(to);
    proof {
        let bytes = encode_utf8(s@);
        encode_utf8_valid_utf8(s@);
        encode_utf8_valid_utf8(head@);
        assert(encode_utf8(head@) =~= bytes.subrange(0, to as int));
        if from < to {
            is_char_boundary_iff_not_is_continuation_byte(bytes, from as int);
            is_char_boundary_iff_not_is_continuation_byte(encode_utf8(head@), from as int);
        } else {
            is_char_boundary_start_end_of_seq(encode_utf8(head@));
        }
    }
    let (_front, rest) = head.split_at(from);
    proof {
        assert(encode_utf8(rest@) =~= encode_utf8(s@).subrange(from as int, to as int));
        encode_utf8_decode_utf8(rest@);
    }
    rest
}

} // verus!
