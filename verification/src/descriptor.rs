//! The logical screen descriptor and the per-image descriptor.

use vstd::prelude::*;

use crate::color::{spec_color_table_spec, spec_parse_color_table, color_table_spec, Color,
    ColorTable};
use crate::error::ParseError;
use crate::primitives::{le_u16, spec_le_u16};

verus! {

/// The global screen header: dimensions, an optional global color table,
/// background color index, and pixel aspect ratio.
#[derive(Debug, PartialEq, Eq)]
pub struct LogicalScreenDescriptor {
    pub width: u16,
    pub height: u16,
    pub global_color_table: Option<ColorTable>,
    pub bg_color: u8,
    pub pixel_aspect_ratio: u8,
}

/// The mathematical model of a logical screen descriptor.
pub struct SpecScreenDescriptor {
    pub width: u16,
    pub height: u16,
    pub global_color_table: Option<Seq<Color>>,
    pub bg_color: u8,
    pub pixel_aspect_ratio: u8,
}

impl View for LogicalScreenDescriptor {
    type V = SpecScreenDescriptor;

    open spec fn view(&self) -> SpecScreenDescriptor {
        SpecScreenDescriptor {
            width: self.width,
            height: self.height,
            global_color_table: match self.global_color_table {
                Some(t) => Some(t@),
                None => None,
            },
            bg_color: self.bg_color,
            pixel_aspect_ratio: self.pixel_aspect_ratio,
        }
    }
}

/// The screen descriptor grammar: width and height (little-endian), one
/// packed flag byte, background color index, pixel aspect ratio, and — when
/// the flag byte announces one — a global color table read from the bytes
/// immediately after the fixed fields.
pub open spec fn spec_parse_screen_descriptor(s: Seq<u8>, pos: int) -> Result<
    (SpecScreenDescriptor, int),
    ParseError,
> {
    if pos + 7 <= s.len() {
        let width = spec_le_u16(s[pos], s[pos + 1]);
        let height = spec_le_u16(s[pos + 2], s[pos + 3]);
        let flag = s[pos + 4];
        let bg_color = s[pos + 5];
        let pixel_aspect_ratio = s[pos + 6];
        match spec_color_table_spec(flag) {
            Some(n) => match spec_parse_color_table(s, pos + 7, n as nat) {
                Ok((table, next)) => Ok(
                    (
                        SpecScreenDescriptor {
                            width,
                            height,
                            global_color_table: Some(table),
                            bg_color,
                            pixel_aspect_ratio,
                        },
                        next,
                    ),
                ),
                Err(e) => Err(e),
            },
            None => Ok(
                (
                    SpecScreenDescriptor {
                        width,
                        height,
                        global_color_table: None,
                        bg_color,
                        pixel_aspect_ratio,
                    },
                    pos + 7,
                ),
            ),
        }
    } else {
        Err(ParseError::UnexpectedEof)
    }
}

/// A parsed screen descriptor carries a global color table exactly when
/// bit 7 of its flag byte is set, and then with the entry count that the
/// low three bits of the same byte encode.
pub proof fn lemma_screen_table_presence(s: Seq<u8>, pos: int)
    requires
        0 <= pos,
        spec_parse_screen_descriptor(s, pos) is Ok,
    ensures
        ({
            let d = spec_parse_screen_descriptor(s, pos)->Ok_0.0;
            let flag = s[pos + 4];
            &&& (d.global_color_table is Some <==> flag & 0x80 == 0x80)
            &&& (d.global_color_table is Some ==> d.global_color_table.unwrap().len()
                == spec_color_table_spec(flag).unwrap())
        }),
{
}

impl LogicalScreenDescriptor {
    /// Reads the screen header and, if its flag byte announces one, the
    /// global color table that follows it.
    pub fn parse(input: &[u8], pos: usize) -> (r: Result<
        (LogicalScreenDescriptor, usize),
        ParseError,
    >)
        requires
            pos <= input@.len(),
        ensures
            match r {
                Ok((d, next)) => spec_parse_screen_descriptor(input@, pos as int) == Ok::<
                    _,
                    ParseError,
                >((d@, next as int)) && pos <= next <= input@.len(),
                Err(e) => spec_parse_screen_descriptor(input@, pos as int) == Err::<
                    (SpecScreenDescriptor, int),
                    _,
                >(e),
            },
    {
        if input.len() - pos < 7 {
            return Err(ParseError::UnexpectedEof);
        }
        let width = le_u16(input, pos);
        let height = le_u16(input, pos + 2);
        let flag = input[pos + 4];
        let bg_color = input[pos + 5];
        let pixel_aspect_ratio = input[pos + 6];
        match color_table_spec(flag) {
            Some(n) => match ColorTable::parse(input, pos + 7, n) {
                Ok((table, next)) => Ok(
                    (
                        LogicalScreenDescriptor {
                            width,
                            height,
                            global_color_table: Some(table),
                            bg_color,
                            pixel_aspect_ratio,
                        },
                        next,
                    ),
                ),
                Err(e) => Err(e),
            },
            None => Ok(
                (
                    LogicalScreenDescriptor {
                        width,
                        height,
                        global_color_table: None,
                        bg_color,
                        pixel_aspect_ratio,
                    },
                    pos + 7,
                ),
            ),
        }
    }
}

/// The per-frame header: position, dimensions, and an optional local color
/// table.
#[derive(Debug, PartialEq, Eq)]
pub struct ImageDescriptor {
    pub position: (u16, u16),
    pub width: u16,
    pub height: u16,
    pub local_color_table: Option<ColorTable>,
}

/// The mathematical model of an image descriptor.
pub struct SpecImageDescriptor {
    pub position: (u16, u16),
    pub width: u16,
    pub height: u16,
    pub local_color_table: Option<Seq<Color>>,
}

impl View for ImageDescriptor {
    type V = SpecImageDescriptor;

    open spec fn view(&self) -> SpecImageDescriptor {
        SpecImageDescriptor {
            position: self.position,
            width: self.width,
            height: self.height,
            local_color_table: match self.local_color_table {
                Some(t) => Some(t@),
                None => None,
            },
        }
    }
}

/// The image descriptor grammar: x, y, width and height (little-endian), one
/// packed flag byte, and — when the flag byte announces one — a local color
/// table read from the bytes immediately after the fixed fields.
pub open spec fn spec_parse_image_descriptor(s: Seq<u8>, pos: int) -> Result<
    (SpecImageDescriptor, int),
    ParseError,
> {
    if pos + 9 <= s.len() {
        let x = spec_le_u16(s[pos], s[pos + 1]);
        let y = spec_le_u16(s[pos + 2], s[pos + 3]);
        let width = spec_le_u16(s[pos + 4], s[pos + 5]);
        let height = spec_le_u16(s[pos + 6], s[pos + 7]);
        let flag = s[pos + 8];
        match spec_color_table_spec(flag) {
            Some(n) => match spec_parse_color_table(s, pos + 9, n as nat) {
                Ok((table, next)) => Ok(
                    (
                        SpecImageDescriptor {
                            position: (x, y),
                            width,
                            height,
                            local_color_table: Some(table),
                        },
                        next,
                    ),
                ),
                Err(e) => Err(e),
            },
            None => Ok(
                (
                    SpecImageDescriptor {
                        position: (x, y),
                        width,
                        height,
                        local_color_table: None,
                    },
                    pos + 9,
                ),
            ),
        }
    } else {
        Err(ParseError::UnexpectedEof)
    }
}

/// A parsed image descriptor carries a local color table exactly when bit 7
/// of its own flag byte is set, and then with the entry count that the low
/// three bits of the same byte encode.
pub proof fn lemma_image_table_presence(s: Seq<u8>, pos: int)
    requires
        0 <= pos,
        spec_parse_image_descriptor(s, pos) is Ok,
    ensures
        ({
            let d = spec_parse_image_descriptor(s, pos)->Ok_0.0;
            let flag = s[pos + 8];
            &&& (d.local_color_table is Some <==> flag & 0x80 == 0x80)
            &&& (d.local_color_table is Some ==> d.local_color_table.unwrap().len()
                == spec_color_table_spec(flag).unwrap())
        }),
{
}

impl ImageDescriptor {
    /// Reads the fixed image header fields and, if the flag byte announces
    /// one, the local color table that follows them.
    pub fn parse(input: &[u8], pos: usize) -> (r: Result<
        (ImageDescriptor, usize),
        ParseError,
    >)
        requires
            pos <= input@.len(),
        ensures
            match r {
                Ok((d, next)) => spec_parse_image_descriptor(input@, pos as int) == Ok::<
                    _,
                    ParseError,
                >((d@, next as int)) && pos <= next <= input@.len(),
                Err(e) => spec_parse_image_descriptor(input@, pos as int) == Err::<
                    (SpecImageDescriptor, int),
                    _,
                >(e),
            },
    {
        if input.len() - pos < 9 {
            return Err(ParseError::UnexpectedEof);
        }
        let x = le_u16(input, pos);
        let y = le_u16(input, pos + 2);
        let width = le_u16(input, pos + 4);
        let height = le_u16(input, pos + 6);
        let flag = input[pos + 8];
        match color_table_spec(flag) {
            Some(n) => match ColorTable::parse(input, pos + 9, n) {
                Ok((table, next)) => Ok(
                    (
                        ImageDescriptor {
                            position: (x, y),
                            width,
                            height,
                            local_color_table: Some(table),
                        },
                        next,
                    ),
                ),
                Err(e) => Err(e),
            },
            None => Ok(
                (
                    ImageDescriptor {
                        position: (x, y),
                        width,
                        height,
                        local_color_table: None,
                    },
                    pos + 9,
                ),
            ),
        }
    }
}

} // verus!
