use gifparse::block::{Block, Extension, ExtensionType};
use gifparse::color::{color_table_spec, Color, ColorTable};
use gifparse::error::ParseError;
use gifparse::gif::{Gif, Version};
use gifparse::primitives::le_u16;
use gifparse::sub_block::{parse_sub_blocks, SubBlock};

#[test]
fn parse_version() {
    for (input, expected) in [(b"GIF87a", Version::Gif87a), (b"GIF89a", Version::Gif89a)] {
        let (version, consumed) = Version::parse(input, 0).unwrap();
        assert_eq!(version, expected);
        assert_eq!(consumed, 6);
    }
}

#[test]
fn parse_sub_block() {
    assert_eq!(
        SubBlock {
            data: vec![b'a', b'b', b'c']
        },
        SubBlock::parse(b"abc\0", 0).unwrap().0
    );
}

#[test]
fn parse_extension_block() {
    assert_eq!(
        Block::Extension(Extension {
            ext_type: ExtensionType::Unknown,
            label: b'2',
            data: vec![
                SubBlock {
                    data: b"f7eyf8e7y".to_vec(),
                },
                SubBlock {
                    data: b"h3872h".to_vec(),
                },
                SubBlock {
                    data: b"he2187".to_vec(),
                },
            ]
        }),
        Block::parse(b"!2f7eyf8e7y\0h3872h\0he2187\0", 0).unwrap().0
    );
}

#[test]
fn version_truncated_fails_with_eof() {
    assert_eq!(Version::parse(b"GIF", 0), Err(ParseError::UnexpectedEof));
    assert_eq!(Version::parse(b"", 0), Err(ParseError::UnexpectedEof));
}

#[test]
fn version_unrecognized_signature() {
    assert_eq!(
        Version::parse(b"GIF88a", 0),
        Err(ParseError::UnrecognizedSignature)
    );
    assert_eq!(
        Version::parse(b"PNG89a", 0),
        Err(ParseError::UnrecognizedSignature)
    );
}

#[test]
fn flag_byte_decoding() {
    // bit 7 set, low three bits 001: table present, 2^(1+1) = 4 entries.
    assert_eq!(color_table_spec(0b1000_0001), Some(4));
    // bit 7 clear: no table, whatever the low bits hold.
    assert_eq!(color_table_spec(0b0000_0000), None);
    assert_eq!(color_table_spec(0b0000_0111), None);
    // the exponential rule at both ends of the 3-bit range.
    assert_eq!(color_table_spec(0b1000_0000), Some(2));
    assert_eq!(color_table_spec(0b1000_0111), Some(256));
}

#[test]
fn le_u16_reads_little_endian() {
    assert_eq!(le_u16(&[0x34, 0x12], 0), 0x1234);
    assert_eq!(le_u16(&[0xFF, 0x34, 0x12], 1), 0x1234);
}

#[test]
fn sub_block_consumes_terminator() {
    let (block, consumed) = SubBlock::parse(b"abc\0", 0).unwrap();
    assert_eq!(block.data, vec![b'a', b'b', b'c']);
    assert_eq!(consumed, 4);
}

#[test]
fn sub_block_errors() {
    assert_eq!(
        SubBlock::parse(b"abc", 0),
        Err(ParseError::MissingDelimiter)
    );
    assert_eq!(
        SubBlock::parse(b"\0abc", 0),
        Err(ParseError::EmptyRepetition)
    );
}

#[test]
fn sub_blocks_two_runs() {
    let (blocks, consumed) = parse_sub_blocks(b"abc\0def\0", 0).unwrap();
    assert_eq!(
        blocks,
        vec![
            SubBlock {
                data: b"abc".to_vec()
            },
            SubBlock {
                data: b"def".to_vec()
            },
        ]
    );
    // nothing left over: all eight bytes are consumed.
    assert_eq!(consumed, 8);
}

#[test]
fn sub_blocks_require_one() {
    assert_eq!(parse_sub_blocks(b"", 0), Err(ParseError::EmptyRepetition));
    assert_eq!(
        parse_sub_blocks(b"no null here", 0),
        Err(ParseError::EmptyRepetition)
    );
}

#[test]
fn color_table_entries() {
    let (table, consumed) = ColorTable::parse(&[1, 2, 3, 4, 5, 6], 0, 2).unwrap();
    assert_eq!(
        table.colors,
        vec![Color { r: 1, g: 2, b: 3 }, Color { r: 4, g: 5, b: 6 }]
    );
    assert_eq!(consumed, 6);
}

#[test]
fn color_table_short_input() {
    assert_eq!(
        ColorTable::parse(&[1, 2, 3, 4, 5], 0, 2),
        Err(ParseError::UnexpectedEof)
    );
}

#[test]
fn extension_type_labels() {
    assert_eq!(ExtensionType::from_byte(0xF9), ExtensionType::GraphicControl);
    assert_eq!(ExtensionType::from_byte(0x01), ExtensionType::Unknown);
    assert_eq!(ExtensionType::from_byte(b'2'), ExtensionType::Unknown);
}

#[test]
fn unrecognized_sentinel_fails() {
    // a block may only start with ',' or '!'.
    assert_eq!(
        Block::parse(b"Xabc\0", 0),
        Err(ParseError::UnrecognizedSentinel)
    );
    assert_eq!(
        Block::parse(b";abc\0", 0),
        Err(ParseError::UnrecognizedSentinel)
    );
}

#[test]
fn block_sentinel_bytes() {
    let (block, _) = Block::parse(b"!2abc\0", 0).unwrap();
    assert_eq!(block.sentinel(), b'!');
    let mut image_bytes = vec![b','];
    image_bytes.extend_from_slice(&[0, 0, 0, 0, 1, 0, 1, 0, 0x00]);
    image_bytes.extend_from_slice(b"\x02ab\0");
    let (block, _) = Block::parse(&image_bytes, 0).unwrap();
    assert_eq!(block.sentinel(), b',');
}

#[test]
fn block_empty_body_fails() {
    assert_eq!(Block::parse(b"!;", 0), Err(ParseError::EmptyRepetition));
}

fn sample_header_no_table() -> Vec<u8> {
    let mut bytes = Vec::new();
    bytes.extend_from_slice(b"GIF89a");
    // width 10, height 20, no global color table, bg 1, aspect ratio 2.
    bytes.extend_from_slice(&[10, 0, 20, 0, 0x00, 1, 2]);
    bytes
}

#[test]
fn gif_with_extension_block() {
    let mut bytes = sample_header_no_table();
    bytes.push(b'!');
    bytes.push(0xF9);
    bytes.extend_from_slice(b"data\0");
    bytes.push(b';');
    let (gif, consumed) = Gif::parse(&bytes, 0).unwrap();
    assert_eq!(consumed, bytes.len());
    assert_eq!(gif.header.version, Version::Gif89a);
    assert_eq!(gif.header.screen_descriptor.width, 10);
    assert_eq!(gif.header.screen_descriptor.height, 20);
    assert_eq!(gif.header.screen_descriptor.global_color_table, None);
    assert_eq!(gif.header.screen_descriptor.bg_color, 1);
    assert_eq!(gif.header.screen_descriptor.pixel_aspect_ratio, 2);
    assert_eq!(
        gif.blocks,
        vec![Block::Extension(Extension {
            ext_type: ExtensionType::GraphicControl,
            label: 0xF9,
            data: vec![SubBlock {
                data: b"data".to_vec()
            }],
        })]
    );
}

#[test]
fn gif_with_image_block() {
    let mut bytes = sample_header_no_table();
    bytes.push(b',');
    // image descriptor: x 3, y 4, width 1, height 2, no local table.
    bytes.extend_from_slice(&[3, 0, 4, 0, 1, 0, 2, 0, 0x00]);
    // image data: bit width 2, one sub-block "ab".
    bytes.extend_from_slice(b"\x02ab\0");
    bytes.push(b';');
    let (gif, consumed) = Gif::parse(&bytes, 0).unwrap();
    assert_eq!(consumed, bytes.len());
    assert_eq!(gif.blocks.len(), 1);
    match &gif.blocks[0] {
        Block::Image(image) => {
            assert_eq!(image.image_descriptor.position, (3, 4));
            assert_eq!(image.image_descriptor.width, 1);
            assert_eq!(image.image_descriptor.height, 2);
            assert_eq!(image.image_descriptor.local_color_table, None);
            assert_eq!(image.image_data.bit_width, 2);
            assert_eq!(
                image.image_data.data,
                vec![SubBlock {
                    data: b"ab".to_vec()
                }]
            );
        }
        Block::Extension(_) => panic!("expected an image block"),
    }
}

#[test]
fn gif_global_color_table() {
    let mut bytes = Vec::new();
    bytes.extend_from_slice(b"GIF87a");
    // flag 0x80: table present, 2^(0+1) = 2 entries of 3 bytes.
    bytes.extend_from_slice(&[1, 0, 1, 0, 0x80, 0, 0]);
    bytes.extend_from_slice(&[10, 20, 30, 40, 50, 60]);
    bytes.push(b'!');
    bytes.push(0x30);
    bytes.extend_from_slice(b"x\0");
    bytes.push(b';');
    let (gif, consumed) = Gif::parse(&bytes, 0).unwrap();
    assert_eq!(consumed, bytes.len());
    assert_eq!(
        gif.header.screen_descriptor.global_color_table,
        Some(ColorTable {
            colors: vec![
                Color {
                    r: 10,
                    g: 20,
                    b: 30
                },
                Color {
                    r: 40,
                    g: 50,
                    b: 60
                },
            ]
        })
    );
}

#[test]
fn image_local_table_follows_fixed_fields() {
    // the local color table must be decoded from the bytes after the nine
    // fixed descriptor fields, never from the start of the descriptor.
    let mut bytes = sample_header_no_table();
    bytes.push(b',');
    bytes.extend_from_slice(&[0, 0, 0, 0, 1, 0, 1, 0, 0x80]);
    bytes.extend_from_slice(&[7, 8, 9, 10, 11, 12]);
    bytes.extend_from_slice(b"\x02ab\0");
    bytes.push(b';');
    let (gif, _) = Gif::parse(&bytes, 0).unwrap();
    match &gif.blocks[0] {
        Block::Image(image) => {
            assert_eq!(
                image.image_descriptor.local_color_table,
                Some(ColorTable {
                    colors: vec![Color { r: 7, g: 8, b: 9 }, Color { r: 10, g: 11, b: 12 }]
                })
            );
        }
        Block::Extension(_) => panic!("expected an image block"),
    }
}

#[test]
fn screen_descriptor_table_truncated() {
    let mut bytes = Vec::new();
    bytes.extend_from_slice(b"GIF87a");
    // table announced (two entries, six bytes) but only four bytes follow.
    bytes.extend_from_slice(&[1, 0, 1, 0, 0x80, 0, 0]);
    bytes.extend_from_slice(&[10, 20, 30, 40]);
    assert_eq!(Gif::parse(&bytes, 0), Err(ParseError::UnexpectedEof));
}

#[test]
fn gif_missing_trailer() {
    // a well-formed block, but the stream ends without ';'.
    let mut bytes = sample_header_no_table();
    bytes.push(b'!');
    bytes.push(0x30);
    bytes.extend_from_slice(b"abc\0");
    assert_eq!(Gif::parse(&bytes, 0), Err(ParseError::MissingTrailer));
}

#[test]
fn gif_zero_blocks() {
    let mut bytes = sample_header_no_table();
    bytes.push(b';');
    assert_eq!(Gif::parse(&bytes, 0), Err(ParseError::MissingTrailer));
}

#[test]
fn gif_bad_sentinel_propagates() {
    let mut bytes = sample_header_no_table();
    bytes.extend_from_slice(b"xyz");
    assert_eq!(Gif::parse(&bytes, 0), Err(ParseError::UnrecognizedSentinel));
}

#[test]
fn gif_leaves_trailing_bytes() {
    let mut bytes = sample_header_no_table();
    bytes.extend_from_slice(b"!2ok\0;junk");
    let (_, consumed) = Gif::parse(&bytes, 0).unwrap();
    assert_eq!(consumed, bytes.len() - 4);
}

#[test]
fn parse_is_deterministic() {
    let mut bytes = sample_header_no_table();
    bytes.extend_from_slice(b"!2ok\0;");
    assert_eq!(Gif::parse(&bytes, 0), Gif::parse(&bytes, 0));
    let broken = b"GIF89a only";
    assert_eq!(Gif::parse(broken, 0), Gif::parse(broken, 0));
}
