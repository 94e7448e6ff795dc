use gif_parser::blocks::block;
use gif_parser::header::size_of;
use gif_parser::model::{
    Block, DecodeError, GraphicControlExtension, ImageData, ImageDescriptor, SubBlocks, Version,
    GIF,
};
use gif_parser::parser::parse_gif;
use gif_parser::subblocks::data_subblocks;

#[test]
fn size_of_follows_bit_seven_and_size_bits() {
    // bit 7 clear: no table, whatever the size bits say
    assert_eq!(size_of(0x00), None);
    assert_eq!(size_of(0x07), None);
    assert_eq!(size_of(0x77), None);
    // bit 7 set: 3 * 2^(low three bits + 1)
    assert_eq!(size_of(0x80), Some(6));
    assert_eq!(size_of(0x81), Some(12));
    assert_eq!(size_of(0x91), Some(12));
    assert_eq!(size_of(0x82), Some(24));
    assert_eq!(size_of(0x83), Some(48));
    assert_eq!(size_of(0x84), Some(96));
    assert_eq!(size_of(0x85), Some(192));
    assert_eq!(size_of(0x86), Some(384));
    assert_eq!(size_of(0x87), Some(768));
    assert_eq!(size_of(0xFF), Some(768));
}

#[test]
fn size_of_is_idempotent() {
    let mut flags: u16 = 0;
    while flags <= 255 {
        assert_eq!(size_of(flags as u8), size_of(flags as u8));
        flags += 1;
    }
}

#[test]
fn lone_terminator_is_an_empty_chain() {
    let (sb, end) = data_subblocks(&[0x00], 0).unwrap();
    assert_eq!(end, 1);
    assert_eq!(sb.payload(), Vec::<u8>::new());
}

#[test]
fn header_only_gif_has_no_blocks() {
    let data = [
        0x47, 0x49, 0x46, 0x38, 0x39, 0x61, 0x0A, 0x00, 0x0A, 0x00, 0x00, 0x00, 0x00,
    ];
    assert_eq!(
        parse_gif(&data),
        Ok(GIF {
            version: Version::GIF89a,
            width: 10,
            height: 10,
            global_color_table: None,
            data: vec![],
        })
    );
}

#[test]
fn graphic_control_extension_scenario() {
    let data = [0x21, 0xF9, 0x04, 0x00, 0x00, 0x00, 0x00, 0x00];
    assert_eq!(
        gif_parser::blocks::graphic_control_extension(&data, 0),
        Ok((
            GraphicControlExtension {
                byte_size: 4,
                packed_field: 0,
                delay_time: 0,
                transparent_color_index: 0,
            },
            8
        ))
    );

    let corrupted = [0x21, 0xF9, 0x04, 0x00, 0x00, 0x00, 0x00, 0x01];
    assert_eq!(
        gif_parser::blocks::graphic_control_extension(&corrupted, 0),
        Err(DecodeError::MalformedTerminator)
    );
}

#[test]
fn image_data_scenario() {
    let data = [0x02, 0x01, 0xFF, 0x00];
    let (idata, end) = gif_parser::blocks::image_data(&data, 0).unwrap();
    assert_eq!(end, 4);
    assert_eq!(idata.lzw_minimum_code_size, 2);
    assert_eq!(idata.data.payload(), vec![0xFF]);
}

#[test]
fn lone_trailer_is_unrecognized_by_the_dispatcher() {
    assert_eq!(block(&[0x3B], 0), Err(DecodeError::UnrecognizedBlock));
}

#[test]
fn truncated_gce_is_fatal() {
    // the tag matches, so the dispatcher commits and the truncation propagates
    assert_eq!(block(&[0x21, 0xF9, 0x04], 0), Err(DecodeError::Truncated));
}

#[test]
fn truncated_header_is_rejected() {
    assert_eq!(
        parse_gif(b"GIF89a"),
        Err(DecodeError::Truncated)
    );
    assert_eq!(parse_gif(b"GI"), Err(DecodeError::Truncated));
}

#[test]
fn bad_signature_is_rejected() {
    assert_eq!(
        parse_gif(b"JIF89a\x0A\x00\x0A\x00\x00\x00\x00"),
        Err(DecodeError::TagMismatch)
    );
}

#[test]
fn unknown_version_is_rejected() {
    assert_eq!(
        parse_gif(b"GIF12a\x0A\x00\x0A\x00\x00\x00\x00"),
        Err(DecodeError::UnknownVersion)
    );
}

#[test]
fn bad_block_fails_the_whole_decode() {
    // a header followed by a byte that opens no block variant
    let data = [
        0x47, 0x49, 0x46, 0x38, 0x39, 0x61, 0x0A, 0x00, 0x0A, 0x00, 0x00, 0x00, 0x00, 0x55,
    ];
    assert_eq!(parse_gif(&data), Err(DecodeError::UnrecognizedBlock));
}

/// A container with every block variant, a global and a local color table,
/// encoded by hand with the documented wire format, decodes to exactly the
/// values it was built from.
#[test]
fn round_trip_all_block_variants() {
    let global_table: Vec<u8> = vec![1, 2, 3, 4, 5, 6];
    let local_table: Vec<u8> = (0u8..12).collect();
    let mut data: Vec<u8> = Vec::new();
    // header: "GIF87a", 300 x 2, global table of 2 entries (flags 0x80)
    data.extend_from_slice(b"GIF87a");
    data.extend_from_slice(&[0x2C, 0x01, 0x02, 0x00, 0x80, 0x07, 0x31]);
    data.extend_from_slice(&global_table);
    // comment extension, payload "hi"
    data.extend_from_slice(&[0x21, 0xFE, 0x02, 0x68, 0x69, 0x00]);
    // application extension, empty payload
    data.extend_from_slice(&[0x21, 0xFF, 0x00]);
    // plain text block with a control extension
    data.extend_from_slice(&[0x21, 0xF9, 0x04, 0x1C, 0x2C, 0x01, 0x07, 0x00]);
    data.extend_from_slice(&[0x21, 0x01, 0x01, 0x41, 0x00]);
    // graphic block with a local color table of 4 entries (flags 0x81)
    data.extend_from_slice(&[0x2C, 0x01, 0x00, 0x02, 0x00, 0x03, 0x00, 0x04, 0x00, 0x81]);
    data.extend_from_slice(&local_table);
    data.extend_from_slice(&[0x05, 0x02, 0xAA, 0xBB, 0x00]);
    // trailer
    data.push(0x3B);

    let expected = GIF {
        version: Version::GIF87a,
        width: 300,
        height: 2,
        global_color_table: Some(global_table),
        data: vec![
            Block::CommentExtension(SubBlocks(vec![0x02, 0x68, 0x69, 0x00])),
            Block::ApplicationExtension(SubBlocks(vec![0x00])),
            Block::TextBlock {
                graphic_control_extension: Some(GraphicControlExtension {
                    byte_size: 4,
                    packed_field: 0x1C,
                    delay_time: 0x012C,
                    transparent_color_index: 0x07,
                }),
                text: SubBlocks(vec![0x01, 0x41, 0x00]),
            },
            Block::GraphicBlock {
                graphic_control_extension: None,
                image_descriptor: ImageDescriptor {
                    left: 1,
                    top: 2,
                    width: 3,
                    height: 4,
                    packed_field: 0x81,
                },
                local_color_table: Some(local_table),
                image_data: ImageData {
                    lzw_minimum_code_size: 5,
                    data: SubBlocks(vec![0x02, 0xAA, 0xBB, 0x00]),
                },
            },
        ],
    };
    assert_eq!(parse_gif(&data), Ok(expected));
}

/// The payload view strips the chunk framing: the length bytes and the
/// terminator never reach the consumer.
#[test]
fn payload_strips_chunk_framing() {
    let (sb, end) = data_subblocks(&[0x03, 0x0A, 0x0B, 0x0C, 0x01, 0x0D, 0x00, 0x63], 0).unwrap();
    assert_eq!(end, 7);
    assert_eq!(sb.payload(), vec![0x0A, 0x0B, 0x0C, 0x0D]);
    let mut it = sb.into_iter();
    assert_eq!(it.next(), Some(0x0A));
    assert_eq!(it.next(), Some(0x0B));
    assert_eq!(it.next(), Some(0x0C));
    assert_eq!(it.next(), Some(0x0D));
    assert_eq!(it.next(), None);
    assert_eq!(it.next(), None);
}
