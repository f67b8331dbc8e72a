//! Image and extension blocks, and the sentinel-driven block dispatcher.

use vstd::prelude::*;

use crate::descriptor::{spec_parse_image_descriptor, ImageDescriptor, SpecImageDescriptor};
use crate::error::ParseError;
use crate::primitives::{find_delim, lemma_find_delim_props, spec_find_delim};
use crate::sub_block::{parse_sub_blocks, spec_parse_sub_blocks, sub_blocks_view, SubBlock,
    SubBlocks};

verus! {

/// LZW-coded image data: the minimum code size byte followed by opaque
/// null-terminated sub-blocks. The payload is never decompressed.
#[derive(Debug, PartialEq, Eq)]
pub struct ImageData {
    pub bit_width: u8,
    pub data: SubBlocks,
}

/// The mathematical model of image data.
pub struct SpecImageData {
    pub bit_width: u8,
    pub data: Seq<Seq<u8>>,
}

impl View for ImageData {
    type V = SpecImageData;

    open spec fn view(&self) -> SpecImageData {
        SpecImageData { bit_width: self.bit_width, data: sub_blocks_view(self.data@) }
    }
}

/// The image data grammar: one bit-width byte, then one or more sub-blocks
/// read greedily until the first failure.
pub open spec fn spec_parse_image_data(s: Seq<u8>, pos: int) -> Result<
    (SpecImageData, int),
    ParseError,
> {
    if pos >= s.len() {
        Err(ParseError::UnexpectedEof)
    } else {
        match spec_parse_sub_blocks(s, pos + 1) {
            Ok((data, next)) => Ok((SpecImageData { bit_width: s[pos], data }, next)),
            Err(e) => Err(e),
        }
    }
}

impl ImageData {
    /// Reads the bit-width byte and the sub-block chain that carries the
    /// coded image data.
    pub fn parse(input: &[u8], pos: usize) -> (r: Result<(ImageData, usize), ParseError>)
        requires
            pos <= input@.len(),
        ensures
            match r {
                Ok((d, next)) => spec_parse_image_data(input@, pos as int) == Ok::<_, ParseError>(
                    (d@, next as int),
                ) && pos <= next <= input@.len(),
                Err(e) => spec_parse_image_data(input@, pos as int) == Err::<
                    (SpecImageData, int),
                    _,
                >(e),
            },
    {
        if pos >= input.len() {
            return Err(ParseError::UnexpectedEof);
        }
        let bit_width = input[pos];
        match parse_sub_blocks(input, pos + 1) {
            Ok((data, next)) => Ok((ImageData { bit_width, data }, next)),
            Err(e) => Err(e),
        }
    }
}

/// One frame: its descriptor followed by its coded data.
#[derive(Debug, PartialEq, Eq)]
pub struct Image {
    pub image_descriptor: ImageDescriptor,
    pub image_data: ImageData,
}

/// The mathematical model of a frame.
pub struct SpecImage {
    pub image_descriptor: SpecImageDescriptor,
    pub image_data: SpecImageData,
}

impl View for Image {
    type V = SpecImage;

    open spec fn view(&self) -> SpecImage {
        SpecImage {
            image_descriptor: self.image_descriptor@,
            image_data: self.image_data@,
        }
    }
}

/// The image grammar: an image descriptor immediately followed by image
/// data.
pub open spec fn spec_parse_image(s: Seq<u8>, pos: int) -> Result<(SpecImage, int), ParseError> {
    match spec_parse_image_descriptor(s, pos) {
        Ok((image_descriptor, mid)) => match spec_parse_image_data(s, mid) {
            Ok((image_data, next)) => Ok((SpecImage { image_descriptor, image_data }, next)),
            Err(e) => Err(e),
        },
        Err(e) => Err(e),
    }
}

impl Image {
    /// Reads one frame: descriptor, then data.
    pub fn parse(input: &[u8], pos: usize) -> (r: Result<(Image, usize), ParseError>)
        requires
            pos <= input@.len(),
        ensures
            match r {
                Ok((img, next)) => spec_parse_image(input@, pos as int) == Ok::<_, ParseError>(
                    (img@, next as int),
                ) && pos <= next <= input@.len(),
                Err(e) => spec_parse_image(input@, pos as int) == Err::<(SpecImage, int), _>(e),
            },
    {
        match ImageDescriptor::parse(input, pos) {
            Ok((image_descriptor, mid)) => match ImageData::parse(input, mid) {
                Ok((image_data, next)) => Ok((Image { image_descriptor, image_data }, next)),
                Err(e) => Err(e),
            },
            Err(e) => Err(e),
        }
    }
}

/// Coarse classification of an extension block by its label byte.
#[derive(Debug, Clone, Copy, PartialEq, Eq, Structural)]
pub enum ExtensionType {
    /// The graphic control extension, label byte `0xF9`.
    GraphicControl,
    /// Any other label; the byte itself is retained on the extension so a
    /// finer decoder can refine the classification without re-parsing.
    Unknown,
}

/// The label-to-variant mapping: `0xF9` is the graphic control extension;
/// every other label is unclassified.
pub open spec fn spec_extension_type(byte: u8) -> ExtensionType {
    if byte == 0xF9 {
        ExtensionType::GraphicControl
    } else {
        ExtensionType::Unknown
    }
}

impl ExtensionType {
    /// Classifies an extension label byte.
    pub fn from_byte(byte: u8) -> (r: ExtensionType)
        ensures
            r == spec_extension_type(byte),
    {
        if byte == 0xF9 {
            ExtensionType::GraphicControl
        } else {
            ExtensionType::Unknown
        }
    }
}

/// A vendor or control extension: its classification, its raw label byte,
/// and its opaque sub-block payload.
#[derive(Debug, PartialEq, Eq)]
pub struct Extension {
    pub ext_type: ExtensionType,
    pub label: u8,
    pub data: SubBlocks,
}

/// The mathematical model of an extension block.
pub struct SpecExtension {
    pub ext_type: ExtensionType,
    pub label: u8,
    pub data: Seq<Seq<u8>>,
}

impl View for Extension {
    type V = SpecExtension;

    open spec fn view(&self) -> SpecExtension {
        SpecExtension {
            ext_type: self.ext_type,
            label: self.label,
            data: sub_blocks_view(self.data@),
        }
    }
}

/// The extension grammar: one label byte, then one or more sub-blocks read
/// greedily until the first failure.
pub open spec fn spec_parse_extension(s: Seq<u8>, pos: int) -> Result<
    (SpecExtension, int),
    ParseError,
> {
    if pos >= s.len() {
        Err(ParseError::UnexpectedEof)
    } else {
        match spec_parse_sub_blocks(s, pos + 1) {
            Ok((data, next)) => Ok(
                (
                    SpecExtension {
                        ext_type: spec_extension_type(s[pos]),
                        label: s[pos],
                        data,
                    },
                    next,
                ),
            ),
            Err(e) => Err(e),
        }
    }
}

impl Extension {
    /// Reads one extension: its label byte, then its sub-block payload.
    pub fn parse(input: &[u8], pos: usize) -> (r: Result<(Extension, usize), ParseError>)
        requires
            pos <= input@.len(),
        ensures
            match r {
                Ok((ext, next)) => spec_parse_extension(input@, pos as int) == Ok::<_, ParseError>(
                    (ext@, next as int),
                ) && pos <= next <= input@.len(),
                Err(e) => spec_parse_extension(input@, pos as int) == Err::<
                    (SpecExtension, int),
                    _,
                >(e),
            },
    {
        if pos >= input.len() {
            return Err(ParseError::UnexpectedEof);
        }
        let label = input[pos];
        let ext_type = ExtensionType::from_byte(label);
        match parse_sub_blocks(input, pos + 1) {
            Ok((data, next)) => Ok((Extension { ext_type, label, data }, next)),
            Err(e) => Err(e),
        }
    }
}

/// A block of the stream: one frame or one extension, discriminated by the
/// sentinel byte that precedes it.
#[derive(Debug, PartialEq, Eq)]
pub enum Block {
    Image(Image),
    Extension(Extension),
}

/// The mathematical model of a block.
pub enum SpecBlock {
    Image(SpecImage),
    Extension(SpecExtension),
}

impl View for Block {
    type V = SpecBlock;

    open spec fn view(&self) -> SpecBlock {
        match self {
            Block::Image(img) => SpecBlock::Image(img@),
            Block::Extension(ext) => SpecBlock::Extension(ext@),
        }
    }
}

/// The sentinel byte that introduces a block of this kind: `,` for an image,
/// `!` for an extension.
pub open spec fn spec_sentinel(b: SpecBlock) -> u8 {
    match b {
        SpecBlock::Image(_) => 0x2C,
        SpecBlock::Extension(_) => 0x21,
    }
}

/// The block grammar: a sentinel byte (`,` for an image, `!` for an
/// extension; anything else is `UnrecognizedSentinel`), then a non-empty
/// body running up to the next sentinel or trailer byte — or the end of the
/// input — handed whole to the decoder the sentinel selects. Bytes of the
/// body that the inner decoder leaves over are skipped.
pub open spec fn spec_parse_block(s: Seq<u8>, pos: int) -> Result<(SpecBlock, int), ParseError> {
    if pos >= s.len() {
        Err(ParseError::UnexpectedEof)
    } else if s[pos] != 0x2C && s[pos] != 0x21 {
        Err(ParseError::UnrecognizedSentinel)
    } else {
        let end = spec_find_delim(s, pos + 1);
        if end == pos + 1 {
            Err(ParseError::EmptyRepetition)
        } else {
            let body = s.subrange(pos + 1, end);
            if s[pos] == 0x2C {
                match spec_parse_image(body, 0) {
                    Ok((img, _)) => Ok((SpecBlock::Image(img), end)),
                    Err(e) => Err(e),
                }
            } else {
                match spec_parse_extension(body, 0) {
                    Ok((ext, _)) => Ok((SpecBlock::Extension(ext), end)),
                    Err(e) => Err(e),
                }
            }
        }
    }
}

/// A block that starts anywhere but on `,` or `!` fails with
/// `UnrecognizedSentinel`; it is never silently skipped.
pub proof fn lemma_unrecognized_sentinel(s: Seq<u8>, pos: int)
    requires
        0 <= pos < s.len(),
        s[pos] != 0x2C,
        s[pos] != 0x21,
    ensures
        spec_parse_block(s, pos) == Err::<(SpecBlock, int), _>(ParseError::UnrecognizedSentinel),
{
}

/// A successful block parse always consumes at least two bytes (the sentinel
/// and a non-empty body) and stays within the input.
pub proof fn lemma_block_progress(s: Seq<u8>, pos: int)
    requires
        0 <= pos <= s.len(),
        spec_parse_block(s, pos) is Ok,
    ensures
        pos + 2 <= spec_parse_block(s, pos)->Ok_0.1 <= s.len(),
{
    lemma_find_delim_props(s, pos + 1);
}

impl Block {
    /// Reads one block: the sentinel byte selects the image or extension
    /// decoder, which runs on the body delimited by the next sentinel or
    /// trailer byte (or the end of the input).
    pub fn parse(input: &[u8], pos: usize) -> (r: Result<(Block, usize), ParseError>)
        requires
            pos <= input@.len(),
        ensures
            match r {
                Ok((b, next)) => spec_parse_block(input@, pos as int) == Ok::<_, ParseError>(
                    (b@, next as int),
                ) && pos + 2 <= next <= input@.len(),
                Err(e) => spec_parse_block(input@, pos as int) == Err::<(SpecBlock, int), _>(e),
            },
    {
        if pos >= input.len() {
            return Err(ParseError::UnexpectedEof);
        }
        let sentinel = input[pos];
        if sentinel != 0x2C && sentinel != 0x21 {
            return Err(ParseError::UnrecognizedSentinel);
        }
        let end = find_delim(input, pos + 1);
        if end == pos + 1 {
            return Err(ParseError::EmptyRepetition);
        }
        let body = vstd::slice::slice_subrange(input, pos + 1, end);
        if sentinel == 0x2C {
            match Image::parse(body, 0) {
                Ok((img, _)) => Ok((Block::Image(img), end)),
                Err(e) => Err(e),
            }
        } else {
            match Extension::parse(body, 0) {
                Ok((ext, _)) => Ok((Block::Extension(ext), end)),
                Err(e) => Err(e),
            }
        }
    }

    /// The sentinel byte that introduced this block.
    pub fn sentinel(&self) -> (r: u8)
        ensures
            r == spec_sentinel(self@),
    {
        match self {
            Block::Image(_) => 0x2C,
            Block::Extension(_) => 0x21,
        }
    }
}

} // verus!
