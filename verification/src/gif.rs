//! The signature/version, the header, and the top-level GIF decoder.

use vstd::prelude::*;

use crate::block::{lemma_block_progress, spec_parse_block, Block, SpecBlock};
use crate::descriptor::{spec_parse_screen_descriptor, LogicalScreenDescriptor,
    SpecScreenDescriptor};
use crate::error::ParseError;

verus! {

/// The GIF dialect named by the six signature bytes.
#[derive(Debug, Clone, Copy, PartialEq, Eq, Structural)]
pub enum Version {
    Gif87a,
    Gif89a,
}

/// The six signature bytes of a version: the ASCII text `GIF87a` or
/// `GIF89a`.
pub open spec fn spec_signature(v: Version) -> Seq<u8> {
    match v {
        Version::Gif87a => seq![0x47u8, 0x49, 0x46, 0x38, 0x37, 0x61],
        Version::Gif89a => seq![0x47u8, 0x49, 0x46, 0x38, 0x39, 0x61],
    }
}

/// Whether the six bytes at `pos` spell the signature of `v`.
pub open spec fn spec_has_signature(s: Seq<u8>, pos: int, v: Version) -> bool {
    forall|k: int| 0 <= k < 6 ==> s[pos + k] == spec_signature(v)[k]
}

/// The signature grammar: six bytes spelling `GIF87a` or `GIF89a`.
/// `UnexpectedEof` when fewer than six bytes remain, `UnrecognizedSignature`
/// when the bytes spell neither.
pub open spec fn spec_parse_version(s: Seq<u8>, pos: int) -> Result<(Version, int), ParseError> {
    if s.len() - pos < 6 {
        Err(ParseError::UnexpectedEof)
    } else if spec_has_signature(s, pos, Version::Gif87a) {
        Ok((Version::Gif87a, pos + 6))
    } else if spec_has_signature(s, pos, Version::Gif89a) {
        Ok((Version::Gif89a, pos + 6))
    } else {
        Err(ParseError::UnrecognizedSignature)
    }
}

/// Both valid signatures round-trip: parsing the six signature bytes of a
/// version yields exactly that version and consumes exactly six bytes.
pub proof fn lemma_version_round_trip(v: Version)
    ensures
        spec_parse_version(spec_signature(v), 0) == Ok::<_, ParseError>((v, 6int)),
{
    let s = spec_signature(v);
    assert(s.len() == 6);
    assert(spec_has_signature(s, 0, v));
    match v {
        Version::Gif87a => {
            assert(s[4] == 0x37);
            assert(!spec_has_signature(s, 0, Version::Gif89a)) by {
                assert(spec_signature(Version::Gif89a)[4] == 0x39);
            }
        },
        Version::Gif89a => {
            assert(s[4] == 0x39);
            assert(!spec_has_signature(s, 0, Version::Gif87a)) by {
                assert(spec_signature(Version::Gif87a)[4] == 0x37);
            }
        },
    }
}

/// A truncated input — fewer than six bytes — always fails the signature
/// parse with `UnexpectedEof`.
pub proof fn lemma_truncated_version(s: Seq<u8>, pos: int)
    requires
        0 <= pos <= s.len(),
        s.len() - pos < 6,
    ensures
        spec_parse_version(s, pos) == Err::<(Version, int), _>(ParseError::UnexpectedEof),
{
}

impl Version {
    /// Reads the six-byte signature at `pos`.
    pub fn parse(input: &[u8], pos: usize) -> (r: Result<(Version, usize), ParseError>)
        requires
            pos <= input@.len(),
        ensures
            match r {
                Ok((v, next)) => spec_parse_version(input@, pos as int) == Ok::<_, ParseError>(
                    (v, next as int),
                ) && pos <= next <= input@.len(),
                Err(e) => spec_parse_version(input@, pos as int) == Err::<(Version, int), _>(e),
            },
    {
        if input.len() - pos < 6 {
            return Err(ParseError::UnexpectedEof);
        }
        let ghost s = input@;
        let ghost p = pos as int;
        if input[pos] == 0x47 && input[pos + 1] == 0x49 && input[pos + 2] == 0x46 && input[pos + 3]
            == 0x38 && input[pos + 5] == 0x61 {
            if input[pos + 4] == 0x37 {
                proof {
                    assert forall|k: int| 0 <= k < 6 implies s[p + k] == spec_signature(
                        Version::Gif87a,
                    )[k] by {
                        assert(spec_signature(Version::Gif87a) =~= seq![
                            0x47u8,
                            0x49,
                            0x46,
                            0x38,
                            0x37,
                            0x61,
                        ]);
                    }
                }
                return Ok((Version::Gif87a, pos + 6));
            }
            if input[pos + 4] == 0x39 {
                proof {
                    assert forall|k: int| 0 <= k < 6 implies s[p + k] == spec_signature(
                        Version::Gif89a,
                    )[k] by {
                        assert(spec_signature(Version::Gif89a) =~= seq![
                            0x47u8,
                            0x49,
                            0x46,
                            0x38,
                            0x39,
                            0x61,
                        ]);
                    }
                }
                return Ok((Version::Gif89a, pos + 6));
            }
        }
        proof {
            assert(!spec_has_signature(s, p, Version::Gif87a)) by {
                if spec_has_signature(s, p, Version::Gif87a) {
                    assert(s[p + 0] == spec_signature(Version::Gif87a)[0]);
                    assert(s[p + 1] == spec_signature(Version::Gif87a)[1]);
                    assert(s[p + 2] == spec_signature(Version::Gif87a)[2]);
                    assert(s[p + 3] == spec_signature(Version::Gif87a)[3]);
                    assert(s[p + 4] == spec_signature(Version::Gif87a)[4]);
                    assert(s[p + 5] == spec_signature(Version::Gif87a)[5]);
                }
            }
            assert(!spec_has_signature(s, p, Version::Gif89a)) by {
                if spec_has_signature(s, p, Version::Gif89a) {
                    assert(s[p + 0] == spec_signature(Version::Gif89a)[0]);
                    assert(s[p + 1] == spec_signature(Version::Gif89a)[1]);
                    assert(s[p + 2] == spec_signature(Version::Gif89a)[2]);
                    assert(s[p + 3] == spec_signature(Version::Gif89a)[3]);
                    assert(s[p + 4] == spec_signature(Version::Gif89a)[4]);
                    assert(s[p + 5] == spec_signature(Version::Gif89a)[5]);
                }
            }
        }
        Err(ParseError::UnrecognizedSignature)
    }
}

/// The stream header: the version and the logical screen descriptor.
#[derive(Debug, PartialEq, Eq)]
pub struct Header {
    pub version: Version,
    pub screen_descriptor: LogicalScreenDescriptor,
}

/// The mathematical model of a header.
pub struct SpecHeader {
    pub version: Version,
    pub screen_descriptor: SpecScreenDescriptor,
}

impl View for Header {
    type V = SpecHeader;

    open spec fn view(&self) -> SpecHeader {
        SpecHeader { version: self.version, screen_descriptor: self.screen_descriptor@ }
    }
}

/// The header grammar: the signature, then the logical screen descriptor.
pub open spec fn spec_parse_header(s: Seq<u8>, pos: int) -> Result<(SpecHeader, int), ParseError> {
    match spec_parse_version(s, pos) {
        Err(e) => Err(e),
        Ok((version, mid)) => match spec_parse_screen_descriptor(s, mid) {
            Err(e) => Err(e),
            Ok((screen_descriptor, next)) => Ok((SpecHeader { version, screen_descriptor }, next)),
        },
    }
}

impl Header {
    /// Reads the signature and the screen descriptor.
    pub fn parse(input: &[u8], pos: usize) -> (r: Result<(Header, usize), ParseError>)
        requires
            pos <= input@.len(),
        ensures
            match r {
                Ok((h, next)) => spec_parse_header(input@, pos as int) == Ok::<_, ParseError>(
                    (h@, next as int),
                ) && pos <= next <= input@.len(),
                Err(e) => spec_parse_header(input@, pos as int) == Err::<(SpecHeader, int), _>(e),
            },
    {
        match Version::parse(input, pos) {
            Err(e) => Err(e),
            Ok((version, mid)) => match LogicalScreenDescriptor::parse(input, mid) {
                Err(e) => Err(e),
                Ok((screen_descriptor, next)) => Ok(
                    (Header { version, screen_descriptor }, next),
                ),
            },
        }
    }
}

/// The models of a sequence of blocks.
pub open spec fn blocks_view(blocks: Seq<Block>) -> Seq<SpecBlock> {
    blocks.map_values(|b: Block| b@)
}

/// The block-sequence grammar: blocks are read one after another until the
/// next byte is the trailer `;`, which is left unconsumed. Exhausting the
/// input before a trailer is `MissingTrailer`; a failing block aborts with
/// its own error.
pub open spec fn spec_parse_blocks(s: Seq<u8>, pos: int) -> Result<
    (Seq<SpecBlock>, int),
    ParseError,
>
    decreases s.len() - pos,
{
    if pos < 0 || pos >= s.len() {
        Err(ParseError::MissingTrailer)
    } else if s[pos] == 0x3B {
        Ok((seq![], pos))
    } else {
        match spec_parse_block(s, pos) {
            Err(e) => Err(e),
            Ok((b, next)) => if pos < next <= s.len() {
                match spec_parse_blocks(s, next) {
                    Err(e) => Err(e),
                    Ok((rest, end)) => Ok((seq![b] + rest, end)),
                }
            } else {
                Err(ParseError::MissingTrailer)
            },
        }
    }
}

/// Without a trailer byte in the remaining input, the block sequence can
/// never parse successfully: scanning either fails inside a block or runs
/// off the end of the input with `MissingTrailer`.
pub proof fn lemma_no_trailer_no_blocks(s: Seq<u8>, pos: int)
    requires
        0 <= pos <= s.len(),
        forall|i: int| pos <= i < s.len() ==> s[i] != 0x3B,
    ensures
        spec_parse_blocks(s, pos) is Err,
    decreases s.len() - pos,
{
    if pos < s.len() && s[pos] != 0x3B {
        if spec_parse_block(s, pos) is Ok {
            lemma_block_progress(s, pos);
            let next = spec_parse_block(s, pos)->Ok_0.1;
            lemma_no_trailer_no_blocks(s, next);
        }
    }
}

/// Whether well-formed blocks fill the input from `pos` to its very end,
/// without a trailer byte ever standing where a block would start.
pub open spec fn spec_blocks_fill_input(s: Seq<u8>, pos: int) -> bool
    decreases s.len() - pos,
{
    if pos >= s.len() {
        true
    } else if s[pos] == 0x3B {
        false
    } else {
        match spec_parse_block(s, pos) {
            Err(_) => false,
            Ok((b, next)) => if pos < next <= s.len() {
                spec_blocks_fill_input(s, next)
            } else {
                false
            },
        }
    }
}

/// A block sequence made of well-formed blocks that run to the end of the
/// input, with no trailer to stop at, fails with exactly `MissingTrailer`.
pub proof fn lemma_blocks_to_eof_missing_trailer(s: Seq<u8>, pos: int)
    requires
        0 <= pos <= s.len(),
        spec_blocks_fill_input(s, pos),
    ensures
        spec_parse_blocks(s, pos) == Err::<(Seq<SpecBlock>, int), _>(ParseError::MissingTrailer),
    decreases s.len() - pos,
{
    if pos < s.len() {
        lemma_block_progress(s, pos);
        let next = spec_parse_block(s, pos)->Ok_0.1;
        lemma_blocks_to_eof_missing_trailer(s, next);
    }
}

/// A decoded GIF stream: the header and its ordered blocks.
#[derive(Debug, PartialEq, Eq)]
pub struct Gif {
    pub header: Header,
    pub blocks: Vec<Block>,
}

/// The mathematical model of a decoded stream.
pub struct SpecGif {
    pub header: SpecHeader,
    pub blocks: Seq<SpecBlock>,
}

impl View for Gif {
    type V = SpecGif;

    open spec fn view(&self) -> SpecGif {
        SpecGif { header: self.header@, blocks: blocks_view(self.blocks@) }
    }
}

/// The top-level grammar: signature and version, screen descriptor, one or
/// more blocks, and the trailer byte `;`, which is consumed. Zero blocks
/// before the trailer fail with `MissingTrailer`.
pub open spec fn spec_parse_gif(s: Seq<u8>, pos: int) -> Result<(SpecGif, int), ParseError> {
    match spec_parse_header(s, pos) {
        Err(e) => Err(e),
        Ok((header, mid)) => match spec_parse_blocks(s, mid) {
            Err(e) => Err(e),
            Ok((blocks, end)) => if blocks.len() == 0 {
                Err(ParseError::MissingTrailer)
            } else {
                Ok((SpecGif { header, blocks }, end + 1))
            },
        },
    }
}

/// A successful header parse ends within the input.
pub proof fn lemma_header_progress(s: Seq<u8>, pos: int)
    requires
        0 <= pos <= s.len(),
        spec_parse_header(s, pos) is Ok,
    ensures
        pos <= spec_parse_header(s, pos)->Ok_0.1 <= s.len(),
{
}

/// A stream whose bytes after a well-formed header never show the trailer
/// `;` cannot parse as a GIF, however many well-formed blocks it holds.
pub proof fn lemma_missing_trailer(s: Seq<u8>, pos: int)
    requires
        0 <= pos <= s.len(),
        spec_parse_header(s, pos) is Ok,
        forall|i: int| spec_parse_header(s, pos)->Ok_0.1 <= i < s.len() ==> s[i] != 0x3B,
    ensures
        spec_parse_gif(s, pos) is Err,
{
    lemma_header_progress(s, pos);
    lemma_no_trailer_no_blocks(s, spec_parse_header(s, pos)->Ok_0.1);
}

/// A stream whose header parses and whose remaining bytes are filled by
/// well-formed blocks — so that the final `;` is missing — fails with
/// exactly `MissingTrailer`.
pub proof fn lemma_missing_trailer_exact(s: Seq<u8>, pos: int)
    requires
        0 <= pos <= s.len(),
        spec_parse_header(s, pos) is Ok,
        spec_blocks_fill_input(s, spec_parse_header(s, pos)->Ok_0.1),
    ensures
        spec_parse_gif(s, pos) == Err::<(SpecGif, int), _>(ParseError::MissingTrailer),
{
    lemma_header_progress(s, pos);
    lemma_blocks_to_eof_missing_trailer(s, spec_parse_header(s, pos)->Ok_0.1);
}

/// Parsing is deterministic: the outcome — the decoded value or the error —
/// is a function of the input bytes and the start position alone, so
/// identical inputs always yield identical results.
pub proof fn lemma_parse_deterministic(s1: Seq<u8>, pos1: int, s2: Seq<u8>, pos2: int)
    requires
        s1 == s2,
        pos1 == pos2,
    ensures
        spec_parse_gif(s1, pos1) == spec_parse_gif(s2, pos2),
{
}

impl Gif {
    /// Decodes a whole GIF stream starting at `pos`: header, one or more
    /// blocks, and the trailer. On success the returned position is just
    /// past the trailer byte; any unconsumed suffix is the caller's.
    pub fn parse(input: &[u8], pos: usize) -> (r: Result<(Gif, usize), ParseError>)
        requires
            pos <= input@.len(),
        ensures
            match r {
                Ok((g, next)) => spec_parse_gif(input@, pos as int) == Ok::<_, ParseError>(
                    (g@, next as int),
                ) && pos <= next <= input@.len(),
                Err(e) => spec_parse_gif(input@, pos as int) == Err::<(SpecGif, int), _>(e),
            },
    {
        let (header, mid) = match Header::parse(input, pos) {
            Err(e) => {
                return Err(e);
            },
            Ok(p) => p,
        };
        let mut blocks: Vec<Block> = Vec::new();
        let mut cur = mid;
        let mut done = false;
        while !done
            invariant
                pos <= mid <= cur <= input@.len(),
                spec_parse_header(input@, pos as int) == Ok::<_, ParseError>(
                    (header@, mid as int),
                ),
                match spec_parse_blocks(input@, cur as int) {
                    Ok((rest, end)) => spec_parse_blocks(input@, mid as int) == Ok::<
                        _,
                        ParseError,
                    >((blocks_view(blocks@) + rest, end)),
                    Err(e) => spec_parse_blocks(input@, mid as int) == Err::<
                        (Seq<SpecBlock>, int),
                        _,
                    >(e),
                },
                done ==> cur < input@.len() && input@[cur as int] == 0x3B,
            decreases input@.len() - cur + (if done {
                0int
            } else {
                1int
            }),
        {
            if cur >= input.len() {
                return Err(ParseError::MissingTrailer);
            }
            if input[cur] == 0x3B {
                done = true;
            } else {
                match Block::parse(input, cur) {
                    Err(e) => {
                        return Err(e);
                    },
                    Ok((b, next)) => {
                        proof {
                            let s = input@;
                            let c = cur as int;
                            let n = next as int;
                            assert(spec_parse_blocks(s, c) == (match spec_parse_blocks(s, n) {
                                Err(e) => Err::<(Seq<SpecBlock>, int), _>(e),
                                Ok((rest, end)) => Ok::<_, ParseError>((seq![b@] + rest, end)),
                            }));
                            if spec_parse_blocks(s, n) is Ok {
                                let rest = spec_parse_blocks(s, n)->Ok_0.0;
                                assert(blocks_view(blocks@.push(b)) =~= blocks_view(blocks@)
                                    + seq![b@]);
                                assert(blocks_view(blocks@) + (seq![b@] + rest) =~= (blocks_view(
                                    blocks@,
                                ) + seq![b@]) + rest);
                            }
                        }
                        blocks.push(b);
                        cur = next;
                    },
                }
            }
        }
        if blocks.len() == 0 {
            return Err(ParseError::MissingTrailer);
        }
        proof {
            vstd::slice::axiom_spec_len::<u8>(input);
            assert(blocks_view(blocks@) + Seq::<SpecBlock>::empty() =~= blocks_view(blocks@));
        }
        Ok((Gif { header, blocks }, cur + 1))
    }
}

} // verus!
