//! The whitespace policy of a grammar.

use crate::boundary::lemma_boundary_after_literal;
use vstd::prelude::*;
use vstd::string::*;
use vstd::utf8::*;

verus! {

/// How a grammar skips whitespace. The engine calls the policy wherever a
/// rule asks for whitespace; it does not define it.
pub trait Space {
    /// The position at which skipping from `pos` ends.
    spec fn skip(&self, input: Seq<u8>, pos: int) -> int;

    /// Skipping never moves backwards, stays inside the input and ends
    /// between two characters.
    proof fn skip_lands(&self, input: Seq<u8>, pos: int)
        requires
            valid_utf8(input),
            0 <= pos <= input.len(),
            is_char_boundary(input, pos),
        ensures
            pos <= self.skip(input, pos) <= input.len(),
            is_char_boundary(input, self.skip(input, pos)),
    ;

    /// Skips whitespace from `pos` and returns where the skipping ended.
    fn space(&self, input: &str, pos: usize) -> (end: usize)
        requires
            pos <= input.spec_bytes().len(),
            is_char_boundary(input.spec_bytes(), pos as int),
        ensures
            end == self.skip(input.spec_bytes(), pos as int),
    ;
}

/// The policy that skips nothing.
#[derive(Clone, Copy, Debug)]
pub struct NoSkip;

impl Space for NoSkip {
    open spec fn skip(&self, input: Seq<u8>, pos: int) -> int {
        pos
    }

    proof fn skip_lands(&self, input: Seq<u8>, pos: int) {
    }

    fn space(&self, input: &str, pos: usize) -> (end: usize) {
        pos
    }
}

/// The first position from `pos` on that holds a byte that is not
/// `skipped`.
pub open spec fn skip_while(skipped: spec_fn(u8) -> bool, input: Seq<u8>, pos: int) -> int
    decreases input.len() - pos,
{
    if 0 <= pos < input.len() && skipped(input[pos]) {
        skip_while(skipped, input, pos + 1)
    } else {
        pos
    }
}

/// Skipping characters of one byte stays inside the input and ends between
/// two characters: after the last byte that is skipped, and before a byte
/// that is not or at the end of the input.
pub proof fn lemma_skip_while_lands(skipped: spec_fn(u8) -> bool, input: Seq<u8>, pos: int)
    requires
        valid_utf8(input),
        0 <= pos <= input.len(),
        is_char_boundary(input, pos),
        forall|byte: u8| #[trigger] skipped(byte) ==> byte < 0x80,
    ensures
        pos <= skip_while(skipped, input, pos) <= input.len(),
        is_char_boundary(input, skip_while(skipped, input, pos)),
        forall|k: int| pos <= k < skip_while(skipped, input, pos) ==> skipped(input[k]),
        skip_while(skipped, input, pos) < input.len() ==> !skipped(
            input[skip_while(skipped, input, pos)],
        ),
    decreases input.len() - pos,
{
    if pos < input.len() && skipped(input[pos]) {
        let one = seq![input[pos]];
        assert(valid_utf8(one)) by {
            assert(one.subrange(0, 0) =~= Seq::<u8>::empty());
            assert(is_leading_byte_width_1(one[0]));
            partial_valid_utf8_extend_ascii_block(one, 0, 1);
            assert(one.subrange(0, 1) =~= one);
        }
        assert(input.subrange(pos, pos + 1) =~= one);
        lemma_boundary_after_literal(input, pos, one);
        lemma_skip_while_lands(skipped, input, pos + 1);
    }
}

/// The policy that skips blanks, tabs, line feeds and carriage returns.
#[derive(Clone, Copy, Debug)]
pub struct Blanks;

/// `byte` is a blank, a tab, a line feed or a carriage return.
pub open spec fn is_blank(byte: u8) -> bool {
    byte == 0x20 || byte == 0x09 || byte == 0x0a || byte == 0x0d
}

/// What [`Blanks`] skips.
pub open spec fn blanks() -> spec_fn(u8) -> bool {
    |byte: u8| is_blank(byte)
}

/// Whether `byte` is a blank, a tab, a line feed or a carriage return.
pub fn blank(byte: u8) -> (b: bool)
    ensures
        b == is_blank(byte),
{
    byte == 0x20 || byte == 0x09 || byte == 0x0a || byte == 0x0d
}

impl Space for Blanks {
    open spec fn skip(&self, input: Seq<u8>, pos: int) -> int {
        skip_while(blanks(), input, pos)
    }

    proof fn skip_lands(&self, input: Seq<u8>, pos: int) {
        lemma_skip_while_lands(blanks(), input, pos);
    }

    fn space(&self, input: &str, pos: usize) -> (end: usize) {
        let bytes = input.as_bytes();
        let total: usize = bytes.len();
        let mut at: usize = pos;
        while at < total && blank(bytes[at])
            invariant
                pos <= at <= total == bytes@.len(),
                skip_while(blanks(), bytes@, at as int) == skip_while(
                    blanks(),
                    bytes@,
                    pos as int,
                ),
            decreases bytes@.len() - at,
        {
            at += 1;
        }
        at
    }
}

/// The policy that skips the characters of one byte that `bytes` lists.
/// Bytes from `0x80` on, which are parts of longer characters, are never
/// skipped, listed or not.
#[derive(Debug)]
pub struct Skip {
    pub bytes: Vec<u8>,
}

/// What a [`Skip`] with the list `bytes` skips.
pub open spec fn listed(bytes: Seq<u8>) -> spec_fn(u8) -> bool {
    |byte: u8| byte < 0x80 && bytes.contains(byte)
}

impl Skip {
    /// Whether this policy skips `byte`.
    pub fn skips(&self, byte: u8) -> (b: bool)
        ensures
            b == listed(self.bytes@)(byte),
    {
        if byte >= 0x80 {
            return false;
        }
        let mut i: usize = 0;
        while i < self.bytes.len()
            invariant
                i <= self.bytes.len(),
                byte < 0x80,
                forall|k: int| 0 <= k < i ==> self.bytes@[k] != byte,
            decreases self.bytes.len() - i,
        {
            if self.bytes[i] == byte {
                return true;
            }
            i += 1;
        }
        false
    }
}

impl Space for Skip {
    open spec fn skip(&self, input: Seq<u8>, pos: int) -> int {
        skip_while(listed(self.bytes@), input, pos)
    }

    proof fn skip_lands(&self, input: Seq<u8>, pos: int) {
        lemma_skip_while_lands(listed(self.bytes@), input, pos);
    }

    fn space(&self, input: &str, pos: usize) -> (end: usize) {
        let bytes = input.as_bytes();
        let total: usize = bytes.len();
        let mut at: usize = pos;
        while at < total && self.skips(bytes[at])
            invariant
                pos <= at <= total == bytes@.len(),
                skip_while(listed(self.bytes@), bytes@, at as int) == skip_while(
                    listed(self.bytes@),
                    bytes@,
                    pos as int,
                ),
            decreases bytes@.len() - at,
        {
            at += 1;
        }
        at
    }
}

} // verus!
