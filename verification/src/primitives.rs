//! Primitive decoders: little-endian integers and byte scanning.

use vstd::prelude::*;

verus! {

/// The value of a two-byte little-endian unsigned integer.
pub open spec fn spec_le_u16(lo: u8, hi: u8) -> u16 {
    (lo + hi * 256) as u16
}

/// Reads the two-byte little-endian unsigned integer at `pos`.
pub fn le_u16(input: &[u8], pos: usize) -> (r: u16)
    requires
        pos + 2 <= input@.len(),
    ensures
        r == spec_le_u16(input@[pos as int], input@[pos as int + 1]),
{
    let lo = input[pos];
    let hi = input[pos + 1];
    lo as u16 + (hi as u16) * 256
}

/// The position of the first null byte at or after `pos`, if any.
pub open spec fn spec_find_null(s: Seq<u8>, pos: int) -> Option<int>
    decreases s.len() - pos,
{
    if pos < 0 || pos >= s.len() {
        None
    } else if s[pos] == 0 {
        Some(pos)
    } else {
        spec_find_null(s, pos + 1)
    }
}

pub proof fn lemma_find_null_props(s: Seq<u8>, pos: int)
    requires
        0 <= pos <= s.len(),
    ensures
        match spec_find_null(s, pos) {
            Some(i) => pos <= i < s.len() && s[i] == 0,
            None => forall|j: int| pos <= j < s.len() ==> s[j] != 0,
        },
    decreases s.len() - pos,
{
    if pos < s.len() && s[pos] != 0 {
        lemma_find_null_props(s, pos + 1);
    }
}

/// Scans for the first null byte at or after `pos`.
pub fn find_null(input: &[u8], pos: usize) -> (r: Option<usize>)
    requires
        pos <= input@.len(),
    ensures
        match r {
            Some(i) => spec_find_null(input@, pos as int) == Some(i as int)
                && pos <= i < input@.len(),
            None => spec_find_null(input@, pos as int) is None,
        },
{
    let mut i = pos;
    while i < input.len()
        invariant
            pos <= i <= input@.len(),
            spec_find_null(input@, pos as int) == spec_find_null(input@, i as int),
        decreases input@.len() - i,
    {
        if input[i] == 0 {
            return Some(i);
        }
        proof {
            assert(spec_find_null(input@, i as int) == spec_find_null(input@, i + 1));
        }
        i = i + 1;
    }
    None
}

/// Whether a byte delimits a block body: an image sentinel `,`, an extension
/// sentinel `!`, or the trailer `;`.
pub open spec fn spec_is_delim(b: u8) -> bool {
    b == 0x2C || b == 0x21 || b == 0x3B
}

/// The end of a block body: the first position at or after `pos` holding a
/// sentinel or trailer byte, or the end of the input if there is none.
pub open spec fn spec_find_delim(s: Seq<u8>, pos: int) -> int
    decreases s.len() - pos,
{
    if pos < 0 || pos >= s.len() {
        s.len() as int
    } else if spec_is_delim(s[pos]) {
        pos
    } else {
        spec_find_delim(s, pos + 1)
    }
}

pub proof fn lemma_find_delim_props(s: Seq<u8>, pos: int)
    requires
        0 <= pos <= s.len(),
    ensures
        pos <= spec_find_delim(s, pos) <= s.len(),
        spec_find_delim(s, pos) < s.len() ==> spec_is_delim(s[spec_find_delim(s, pos)]),
    decreases s.len() - pos,
{
    if pos < s.len() && !spec_is_delim(s[pos]) {
        lemma_find_delim_props(s, pos + 1);
    }
}

/// Scans for the first sentinel or trailer byte at or after `pos`.
pub fn find_delim(input: &[u8], pos: usize) -> (r: usize)
    requires
        pos <= input@.len(),
    ensures
        r == spec_find_delim(input@, pos as int),
        pos <= r <= input@.len(),
{
    let mut i = pos;
    while i < input.len()
        invariant
            pos <= i <= input@.len(),
            spec_find_delim(input@, pos as int) == spec_find_delim(input@, i as int),
        decreases input@.len() - i,
    {
        let b = input[i];
        if b == 0x2C || b == 0x21 || b == 0x3B {
            return i;
        }
        proof {
            assert(spec_find_delim(input@, i as int) == spec_find_delim(input@, i + 1));
        }
        i = i + 1;
    }
    i
}

} // verus!
