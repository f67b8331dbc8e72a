//! Null-terminated sub-blocks and greedy one-or-more sub-block chains.

use vstd::prelude::*;

use crate::error::ParseError;
use crate::primitives::{find_null, lemma_find_null_props, spec_find_null};

verus! {

/// An opaque byte run delimited by a terminating null byte; the terminator
/// is consumed but not retained.
#[derive(Debug, PartialEq, Eq)]
pub struct SubBlock {
    pub data: Vec<u8>,
}

impl View for SubBlock {
    type V = Seq<u8>;

    open spec fn view(&self) -> Seq<u8> {
        self.data@
    }
}

/// An ordered chain of sub-blocks, reconstructing one coded data stream.
pub type SubBlocks = Vec<SubBlock>;

/// The payloads of a sequence of sub-blocks.
pub open spec fn sub_blocks_view(blocks: Seq<SubBlock>) -> Seq<Seq<u8>> {
    blocks.map_values(|b: SubBlock| b@)
}

/// The sub-block grammar: a maximal non-empty run of non-null bytes followed
/// by one null byte. `MissingDelimiter` when no null byte remains,
/// `EmptyRepetition` when the null byte comes first.
pub open spec fn spec_parse_sub_block(s: Seq<u8>, pos: int) -> Result<(Seq<u8>, int), ParseError> {
    match spec_find_null(s, pos) {
        None => Err(ParseError::MissingDelimiter),
        Some(i) => if i == pos {
            Err(ParseError::EmptyRepetition)
        } else {
            Ok((s.subrange(pos, i), i + 1))
        },
    }
}

/// A successful sub-block parse always consumes at least two bytes (one data
/// byte and the terminator) and stays within the input.
pub proof fn lemma_sub_block_progress(s: Seq<u8>, pos: int)
    requires
        0 <= pos <= s.len(),
        spec_parse_sub_block(s, pos) is Ok,
    ensures
        pos + 2 <= spec_parse_sub_block(s, pos)->Ok_0.1 <= s.len(),
{
    lemma_find_null_props(s, pos);
}

impl SubBlock {
    /// Reads one null-terminated sub-block starting at `pos`.
    pub fn parse(input: &[u8], pos: usize) -> (r: Result<(SubBlock, usize), ParseError>)
        requires
            pos <= input@.len(),
        ensures
            match r {
                Ok((b, next)) => spec_parse_sub_block(input@, pos as int) == Ok::<_, ParseError>(
                    (b@, next as int),
                ) && pos + 2 <= next <= input@.len(),
                Err(e) => spec_parse_sub_block(input@, pos as int) == Err::<(Seq<u8>, int), _>(e),
            },
    {
        match find_null(input, pos) {
            None => Err(ParseError::MissingDelimiter),
            Some(i) => {
                if i == pos {
                    Err(ParseError::EmptyRepetition)
                } else {
                    proof {
                        vstd::slice::axiom_spec_len::<u8>(input);
                    }
                    let sub = vstd::slice::slice_subrange(input, pos, i);
                    let data = vstd::slice::slice_to_vec(sub);
                    Ok((SubBlock { data }, i + 1))
                }
            },
        }
    }
}

/// The greedy repetition underlying `spec_parse_sub_blocks`: sub-blocks are
/// accumulated until the first failure, which terminates the sequence.
pub open spec fn spec_parse_sub_blocks_rec(s: Seq<u8>, pos: int) -> (Seq<Seq<u8>>, int)
    decreases s.len() - pos,
{
    match spec_parse_sub_block(s, pos) {
        Ok((data, next)) => if pos < next <= s.len() {
            let (rest, end) = spec_parse_sub_blocks_rec(s, next);
            (seq![data] + rest, end)
        } else {
            (seq![], pos)
        },
        Err(_) => (seq![], pos),
    }
}

/// The sub-block chain grammar: one or more sub-blocks, read greedily until
/// the first failure. Zero matches give `EmptyRepetition`.
pub open spec fn spec_parse_sub_blocks(s: Seq<u8>, pos: int) -> Result<
    (Seq<Seq<u8>>, int),
    ParseError,
> {
    if spec_parse_sub_block(s, pos) is Err {
        Err(ParseError::EmptyRepetition)
    } else {
        Ok(spec_parse_sub_blocks_rec(s, pos))
    }
}

/// Reads one or more null-terminated sub-blocks greedily from `pos`,
/// stopping at the first position where no further sub-block parses.
pub fn parse_sub_blocks(input: &[u8], pos: usize) -> (r: Result<
    (Vec<SubBlock>, usize),
    ParseError,
>)
    requires
        pos <= input@.len(),
    ensures
        match r {
            Ok((bs, next)) => spec_parse_sub_blocks(input@, pos as int) == Ok::<_, ParseError>(
                (sub_blocks_view(bs@), next as int),
            ) && pos < next <= input@.len(),
            Err(e) => spec_parse_sub_blocks(input@, pos as int) == Err::<(Seq<Seq<u8>>, int), _>(
                e,
            ),
        },
{
    let mut blocks: Vec<SubBlock> = Vec::new();
    let first = match SubBlock::parse(input, pos) {
        Err(_) => {
            return Err(ParseError::EmptyRepetition);
        },
        Ok(p) => p,
    };
    let mut cur = first.1;
    blocks.push(first.0);
    proof {
        assert(sub_blocks_view(blocks@) =~= seq![spec_parse_sub_block(input@, pos as int)->Ok_0.0]);
    }
    let mut done = false;
    while !done
        invariant
            pos < cur <= input@.len(),
            spec_parse_sub_block(input@, pos as int) is Ok,
            spec_parse_sub_blocks_rec(input@, pos as int).0 == sub_blocks_view(blocks@)
                + spec_parse_sub_blocks_rec(input@, cur as int).0,
            spec_parse_sub_blocks_rec(input@, pos as int).1 == spec_parse_sub_blocks_rec(
                input@,
                cur as int,
            ).1,
            done ==> spec_parse_sub_block(input@, cur as int) is Err,
        decreases input@.len() - cur + (if done { 0int } else { 1int }),
    {
        match SubBlock::parse(input, cur) {
            Err(_) => {
                done = true;
            },
            Ok((b, next)) => {
                proof {
                    assert(spec_parse_sub_blocks_rec(input@, cur as int).0 == seq![b@]
                        + spec_parse_sub_blocks_rec(input@, next as int).0);
                    assert(sub_blocks_view(blocks@.push(b)) =~= sub_blocks_view(blocks@)
                        + seq![b@]);
                    assert(sub_blocks_view(blocks@) + (seq![b@] + spec_parse_sub_blocks_rec(
                        input@,
                        next as int,
                    ).0) =~= (sub_blocks_view(blocks@) + seq![b@]) + spec_parse_sub_blocks_rec(
                        input@,
                        next as int,
                    ).0);
                }
                blocks.push(b);
                cur = next;
            },
        }
    }
    proof {
        assert(spec_parse_sub_blocks_rec(input@, cur as int).0 =~= Seq::<Seq<u8>>::empty());
        assert(sub_blocks_view(blocks@) + Seq::<Seq<u8>>::empty() =~= sub_blocks_view(blocks@));
    }
    Ok((blocks, cur))
}

} // verus!
