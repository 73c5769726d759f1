//! Byte-offset slicing of UTF-8 text, verified against vstd's UTF-8 model.
//!
//! A `&str` is viewed here through its encoded bytes (`spec_bytes`). The
//! lemmas relate character boundaries of a byte sequence to those of its
//! subranges, and `slice_bytes` cuts a slice out of a `&str` at two byte
//! offsets that are known to be character boundaries.

use vstd::prelude::*;

verus! {

use vstd::string::StringSliceAdditionalSpecFns;
use vstd::utf8::{
    decode_utf8, encode_utf8, encode_utf8_decode_utf8, encode_utf8_valid_utf8, is_char_boundary,
    is_char_boundary_iff_not_is_continuation_byte, is_char_boundary_start_end_of_seq, valid_utf8,
    valid_utf8_split,
};

/// A character boundary of a sequence is still one after the sequence is cut
/// short at a later boundary.
pub proof fn lemma_boundary_in_prefix(bytes: Seq<u8>, cut: int, i: int)
    requires
        valid_utf8(bytes),
        0 <= i <= cut <= bytes.len(),
        is_char_boundary(bytes, cut),
        is_char_boundary(bytes, i),
    ensures
        is_char_boundary(bytes.subrange(0, cut), i),
        valid_utf8(bytes.subrange(0, cut)),
{
    valid_utf8_split(bytes, cut);
    let pre = bytes.subrange(0, cut);
    if i == cut {
        is_char_boundary_start_end_of_seq(pre);
    } else {
        is_char_boundary_iff_not_is_continuation_byte(bytes, i);
        is_char_boundary_iff_not_is_continuation_byte(pre, i);
    }
}

/// The bytes between two character boundaries are themselves valid UTF-8.
pub proof fn lemma_subrange_valid(bytes: Seq<u8>, lo: int, hi: int)
    requires
        valid_utf8(bytes),
        0 <= lo <= hi <= bytes.len(),
        is_char_boundary(bytes, lo),
        is_char_boundary(bytes, hi),
    ensures
        valid_utf8(bytes.subrange(lo, hi)),
{
    lemma_boundary_in_prefix(bytes, hi, lo);
    let pre = bytes.subrange(0, hi);
    valid_utf8_split(pre, lo);
    assert(pre.subrange(lo, pre.len() as int) =~= bytes.subrange(lo, hi));
}

/// An offset into the subrange between two character boundaries is a
/// character boundary of the subrange exactly when the corresponding offset
/// is one of the whole sequence.
pub proof fn lemma_boundary_compose(bytes: Seq<u8>, lo: int, hi: int, i: int)
    requires
        valid_utf8(bytes),
        0 <= lo <= hi <= bytes.len(),
        is_char_boundary(bytes, lo),
        is_char_boundary(bytes, hi),
        0 <= i <= hi - lo,
    ensures
        is_char_boundary(bytes.subrange(lo, hi), i) <==> is_char_boundary(bytes, lo + i),
{
    lemma_subrange_valid(bytes, lo, hi);
    let sub = bytes.subrange(lo, hi);
    if i == hi - lo {
        is_char_boundary_start_end_of_seq(sub);
    } else {
        is_char_boundary_iff_not_is_continuation_byte(bytes, lo + i);
        is_char_boundary_iff_not_is_continuation_byte(sub, i);
    }
}

/// The slice of `s` between byte offsets `start` and `end`, which must be
/// character boundaries of `s` in order.
pub fn slice_bytes<'a>(s: &'a str, start: usize, end: usize) -> (r: &'a str)
    requires
        start <= end <= s.spec_bytes().len(),
        is_char_boundary(s.spec_bytes(), start as int),
        is_char_boundary(s.spec_bytes(), end as int),
    ensures
        r.spec_bytes() == s.spec_bytes().subrange(start as int, end as int),
        r@ == decode_utf8(s.spec_bytes().subrange(start as int, end as int)),
{
    proof {
        encode_utf8_valid_utf8(s@);
        lemma_boundary_in_prefix(s.spec_bytes(), end as int, start as int);
    }
    let (pre, _) = s.split_at(end);
    let (_, mid) = pre.split_at(start);
    proof {
        assert(mid.spec_bytes() =~= s.spec_bytes().subrange(start as int, end as int));
        encode_utf8_decode_utf8(mid@);
    }
    mid
}

} // verus!
