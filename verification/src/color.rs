//! Color tables: fixed-count sequences of three-byte RGB entries.

use vstd::prelude::*;

use crate::error::ParseError;

verus! {

/// One color table entry: a three-byte RGB group.
#[derive(Debug, Clone, Copy, PartialEq, Eq, Structural)]
pub struct Color {
    pub r: u8,
    pub g: u8,
    pub b: u8,
}

/// An ordered sequence of RGB entries, owned by the descriptor (screen or
/// image) whose flag byte requested it.
#[derive(Debug, PartialEq, Eq)]
pub struct ColorTable {
    pub colors: Vec<Color>,
}

impl View for ColorTable {
    type V = Seq<Color>;

    open spec fn view(&self) -> Seq<Color> {
        self.colors@
    }
}

/// Flag-byte decoding shared by the screen and image descriptors: bit 7
/// signals that a color table is present, and the low three bits give its
/// entry count as `2^(bits + 1)`.
pub open spec fn spec_color_table_spec(byte: u8) -> Option<usize> {
    if byte & 0x80 == 0x80 {
        Some((1usize << (((byte & 0x07) + 1) as usize)) as usize)
    } else {
        None
    }
}

/// Decodes a descriptor flag byte: `Some(entry_count)` when bit 7 announces
/// a color table, `None` otherwise.
pub fn color_table_spec(byte: u8) -> (r: Option<usize>)
    ensures
        r == spec_color_table_spec(byte),
{
    if byte & 0x80 == 0x80 {
        proof {
            assert((byte & 0x07) < 8) by (bit_vector);
        }
        let bits = byte & 0x07;
        Some(1usize << ((bits + 1) as usize))
    } else {
        None
    }
}

/// The color table grammar: exactly `n` three-byte RGB entries starting at
/// `pos`, or `UnexpectedEof` when fewer than `3 * n` bytes remain.
pub open spec fn spec_parse_color_table(s: Seq<u8>, pos: int, n: nat) -> Result<
    (Seq<Color>, int),
    ParseError,
> {
    if pos + 3 * n <= s.len() {
        Ok(
            (
                Seq::new(
                    n,
                    |i: int| Color {
                        r: s[pos + 3 * i],
                        g: s[pos + 3 * i + 1],
                        b: s[pos + 3 * i + 2],
                    },
                ),
                pos + 3 * n,
            ),
        )
    } else {
        Err(ParseError::UnexpectedEof)
    }
}

impl ColorTable {
    /// Reads exactly `n` RGB entries, with no separators, from `pos`.
    pub fn parse(input: &[u8], pos: usize, n: usize) -> (r: Result<
        (ColorTable, usize),
        ParseError,
    >)
        requires
            pos <= input@.len(),
        ensures
            match r {
                Ok((t, next)) => spec_parse_color_table(input@, pos as int, n as nat) == Ok::<
                    _,
                    ParseError,
                >((t@, next as int)) && pos <= next <= input@.len(),
                Err(e) => spec_parse_color_table(input@, pos as int, n as nat) == Err::<
                    (Seq<Color>, int),
                    _,
                >(e),
            },
    {
        let mut colors: Vec<Color> = Vec::new();
        let mut cur = pos;
        let mut i: usize = 0;
        while i < n
            invariant
                pos <= cur <= input@.len(),
                i <= n,
                cur == pos + 3 * i,
                colors@.len() == i,
                forall|j: int|
                    0 <= j < i ==> colors@[j] == (Color {
                        r: input@[pos + 3 * j],
                        g: input@[pos + 3 * j + 1],
                        b: input@[pos + 3 * j + 2],
                    }),
            decreases n - i,
        {
            if input.len() - cur < 3 {
                proof {
                    assert(pos + 3 * (n as int) > input@.len());
                }
                return Err(ParseError::UnexpectedEof);
            }
            let c = Color { r: input[cur], g: input[cur + 1], b: input[cur + 2] };
            colors.push(c);
            cur = cur + 3;
            i = i + 1;
        }
        proof {
            assert(colors@ =~= Seq::new(
                n as nat,
                |j: int| Color {
                    r: input@[pos + 3 * j],
                    g: input@[pos + 3 * j + 1],
                    b: input@[pos + 3 * j + 2],
                },
            ));
        }
        Ok((ColorTable { colors }, cur))
    }
}

} // verus!
