//! Character boundaries of UTF-8 text, as far as matching needs them:
//! positions are byte offsets, and every position that matching reaches
//! lies between two characters.

use vstd::prelude::*;
use vstd::utf8::*;

verus! {

/// A prefix of valid UTF-8 text that is valid UTF-8 itself ends between two
/// characters of the text.
pub proof fn lemma_prefix_ends_on_boundary(whole: Seq<u8>, prefix: Seq<u8>)
    requires
        valid_utf8(whole),
        valid_utf8(prefix),
        prefix.len() <= whole.len(),
        whole.subrange(0, prefix.len() as int) == prefix,
    ensures
        is_char_boundary(whole, prefix.len() as int),
    decreases prefix.len(),
{
    if prefix.len() > 0 {
        assert(prefix[0] == whole[0]);
        let k = length_of_first_scalar(prefix);
        assert(length_of_first_scalar(whole) == k);
        let rest = pop_first_scalar(whole);
        let prefix_rest = pop_first_scalar(prefix);
        assert(rest.subrange(0, prefix_rest.len() as int) =~= prefix_rest);
        lemma_prefix_ends_on_boundary(rest, prefix_rest);
    }
}

/// A character boundary of the rest of a text, counted from a character
/// boundary of the text, is a character boundary of the text.
pub proof fn lemma_boundary_of_rest(bytes: Seq<u8>, pos: int, k: int)
    requires
        valid_utf8(bytes),
        0 <= pos <= bytes.len(),
        is_char_boundary(bytes, pos),
        0 <= k <= bytes.len() - pos,
        is_char_boundary(bytes.subrange(pos, bytes.len() as int), k),
    ensures
        is_char_boundary(bytes, pos + k),
{
    let rest = bytes.subrange(pos, bytes.len() as int);
    valid_utf8_split(bytes, pos);
    if pos + k == bytes.len() {
        is_char_boundary_start_end_of_seq(bytes);
    } else {
        is_char_boundary_iff_not_is_continuation_byte(rest, k);
        is_char_boundary_iff_not_is_continuation_byte(bytes, pos + k);
        assert(rest[k] == bytes[pos + k]);
    }
}

/// Where a text continues, from a character boundary, with the bytes of
/// another valid text, the continuation ends on a character boundary.
pub proof fn lemma_boundary_after_literal(bytes: Seq<u8>, pos: int, literal: Seq<u8>)
    requires
        valid_utf8(bytes),
        valid_utf8(literal),
        0 <= pos,
        pos + literal.len() <= bytes.len(),
        is_char_boundary(bytes, pos),
        bytes.subrange(pos, pos + literal.len()) == literal,
    ensures
        is_char_boundary(bytes, pos + literal.len()),
{
    let rest = bytes.subrange(pos, bytes.len() as int);
    valid_utf8_split(bytes, pos);
    assert(rest.subrange(0, literal.len() as int) =~= bytes.subrange(pos, pos + literal.len()));
    lemma_prefix_ends_on_boundary(rest, literal);
    lemma_boundary_of_rest(bytes, pos, literal.len() as int);
}

} // verus!
