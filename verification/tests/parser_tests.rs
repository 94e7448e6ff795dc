use gif_parser::blocks::{graphic_control_extension, image_data, image_descriptor};
use gif_parser::header::{signature, version};
use gif_parser::model::{
    Block, DecodeError, GraphicControlExtension, ImageData, ImageDescriptor, SubBlocks, Version,
    GIF,
};
use gif_parser::parser::parse_gif;

#[test]
fn parser_signature_should_parse_gif() {
    assert_eq!(signature(b"GIF89a", 0), Ok(3));
}

#[test]
fn parser_signature_should_fail_on_invalid_signature() {
    assert_eq!(signature(b"blablabla", 0), Err(DecodeError::TagMismatch));
}

#[test]
fn parser_should_parse_version_89a() {
    assert_eq!(version(b"89a", 0), Ok((Version::GIF89a, 3)));
}

#[test]
fn parser_should_parse_version_87a() {
    assert_eq!(version(b"87a", 0), Ok((Version::GIF87a, 3)));
}

#[test]
fn parser_should_fail_on_unknown_version() {
    assert_eq!(version(b"12a", 0), Err(DecodeError::UnknownVersion));
}

/// A minimal 10x10 GIF89a image: header, a 12-byte global color table
/// (white, red, blue, black), one graphic block and the trailer byte.
fn sample_gif_bytes() -> Vec<u8> {
    let mut data = vec![
        0x47, 0x49, 0x46, 0x38, 0x39, 0x61, // "GIF89a"
        0x0A, 0x00, // width 10
        0x0A, 0x00, // height 10
        0x91, // global table present, 4 entries
        0x00, // background color index
        0x00, // pixel aspect ratio
    ];
    data.extend_from_slice(&[
        0xff, 0xff, 0xff, 0xff, 0x00, 0x00, 0x00, 0x00, 0xff, 0x00, 0x00, 0x00,
    ]);
    data.extend_from_slice(&sample_graphic_block_bytes());
    data.push(0x3B);
    data
}

fn sample_graphic_block_bytes() -> Vec<u8> {
    vec![
        // graphic control extension
        0x21, 0xf9, 0x04, // byte size
        0x00, // packed field
        0x00, 0x00, // delay time
        0x00, // transparent color index
        0x00, // block terminator
        // image descriptor
        0x2c, 0x00, 0x00, // left
        0x00, 0x00, // top
        0x0a, 0x00, // width
        0x0a, 0x00, // height
        0x00, // packed field
        // no local color table
        // image data
        0x02, // LZW minimum code size
        0x16, 0x8c, 0x2d, 0x99, 0x87, 0x2a, 0x1c, 0xdc, 0x33, 0xa0, 0x02, 0x75, 0xec, 0x95, 0xfa,
        0xa8, 0xde, 0x60, 0x8c, 0x04, 0x91, 0x4c, 0x01, 0x00,
    ]
}

fn sample_graphic_block() -> Block {
    Block::GraphicBlock {
        graphic_control_extension: Some(GraphicControlExtension {
            byte_size: 4,
            packed_field: 0,
            delay_time: 0,
            transparent_color_index: 0,
        }),
        image_descriptor: ImageDescriptor {
            left: 0,
            top: 0,
            width: 10,
            height: 10,
            packed_field: 0,
        },
        local_color_table: None,
        image_data: ImageData {
            lzw_minimum_code_size: 2,
            data: SubBlocks(vec![
                0x16, 0x8c, 0x2d, 0x99, 0x87, 0x2a, 0x1c, 0xdc, 0x33, 0xa0, 0x02, 0x75, 0xec,
                0x95, 0xfa, 0xa8, 0xde, 0x60, 0x8c, 0x04, 0x91, 0x4c, 0x01, 0x00,
            ]),
        },
    }
}

#[test]
fn parser_should_parse_gif() {
    let gif_data = sample_gif_bytes();
    assert_eq!(
        parse_gif(&gif_data),
        Ok(GIF {
            version: Version::GIF89a,
            width: 10,
            height: 10,
            global_color_table: Some(vec![
                0xff, 0xff, 0xff, 0xff, 0x00, 0x00, 0x00, 0x00, 0xff, 0x00, 0x00, 0x00,
            ]),
            data: vec![sample_graphic_block()],
        })
    );
}

#[test]
fn tests_should_parse_version_89a() {
    assert_eq!(version(b"89a", 0), Ok((Version::GIF89a, 3)));
}

#[test]
fn tests_should_parse_version_87a() {
    assert_eq!(version(b"87a", 0), Ok((Version::GIF87a, 3)));
}

#[test]
fn tests_should_fail_on_unknown_version() {
    assert_eq!(version(b"12a", 0), Err(DecodeError::UnknownVersion));
}

#[test]
fn tests_should_parse_graphic_control_extension() {
    assert_eq!(
        graphic_control_extension(&[0x21, 0xf9, 0x04, 0x01, 0x64, 0x00, 0x02, 0x00], 0),
        Ok((
            GraphicControlExtension {
                byte_size: 4,
                packed_field: 0x01,
                delay_time: 100,
                transparent_color_index: 2,
            },
            8
        ))
    );
}

#[test]
fn tests_should_read_image_descriptor() {
    assert_eq!(
        image_descriptor(
            &[0x2c, 0x01, 0x00, 0x02, 0x00, 0x05, 0x00, 0x06, 0x00, 0x81],
            0
        ),
        Ok((
            ImageDescriptor {
                left: 1,
                top: 2,
                width: 5,
                height: 6,
                packed_field: 0x81,
            },
            10
        ))
    );
}

#[test]
fn tests_should_parse_image_data() {
    let data = [1, 2, 255, 255, 3, 255, 255, 255, 0];
    assert_eq!(
        image_data(&data, 0),
        Ok((
            ImageData {
                lzw_minimum_code_size: 1,
                data: SubBlocks(data[1..].to_vec()),
            },
            9
        ))
    );

    let data = [3, 2, 255, 255, 3, 255, 255, 255, 0, 1, 2, 3];
    assert_eq!(
        image_data(&data, 0),
        Ok((
            ImageData {
                lzw_minimum_code_size: 3,
                data: SubBlocks(data[1..9].to_vec()),
            },
            9
        ))
    );
}

#[test]
fn tests_should_parse_graphic_block() {
    let data = sample_graphic_block_bytes();
    assert_eq!(
        gif_parser::blocks::graphic_block(&data, 0),
        Ok((sample_graphic_block(), 43))
    );
}

#[test]
fn tests_should_parse_plain_text_block() {
    let data = [
        0x21, 0x01, 0x0C, 0x00, 0x00, 0x00, 0x00, 0x64, 0x00, 0x64, 0x00, 0x14, 0x14, 0x01, 0x00,
        0x0B, 0x68, 0x65, 0x6C, 0x6C, 0x6F, 0x20, 0x77, 0x6F, 0x72, 0x6C, 0x64, 0x00,
    ];
    assert_eq!(
        gif_parser::blocks::plain_text_block(&data, 0),
        Ok((
            Block::TextBlock {
                graphic_control_extension: None,
                text: SubBlocks(data[2..].to_vec()),
            },
            28
        ))
    );
}

#[test]
fn tests_should_parse_application_extension() {
    let data = [
        0x21, 0xFF, 0x0B, 0x4E, 0x45, 0x54, 0x53, 0x43, 0x41, 0x50, 0x45, 0x32, 0x2E, 0x30, 0x03,
        0x01, 0x05, 0x00, 0x00,
    ];
    assert_eq!(
        gif_parser::blocks::application_extension(&data, 0),
        Ok((Block::ApplicationExtension(SubBlocks(data[2..].to_vec())), 19))
    );
}

#[test]
fn tests_should_parse_comment_extension() {
    let data = [
        0x21, 0xFE, 0x09, 0x62, 0x6C, 0x75, 0x65, 0x62, 0x65, 0x72, 0x72, 0x79, 0x00,
    ];
    assert_eq!(
        gif_parser::blocks::comment_extension(&data, 0),
        Ok((Block::CommentExtension(SubBlocks(data[2..].to_vec())), 13))
    );
}

#[test]
fn tests_should_parse_gif() {
    let gif_data = sample_gif_bytes();
    let parsed = parse_gif(&gif_data).unwrap();
    assert_eq!(parsed.version, Version::GIF89a);
    assert_eq!(parsed.width, 10);
    assert_eq!(parsed.height, 10);
    assert_eq!(
        parsed.global_color_table,
        Some(vec![
            0xff, 0xff, 0xff, 0xff, 0x00, 0x00, 0x00, 0x00, 0xff, 0x00, 0x00, 0x00,
        ])
    );
    assert_eq!(parsed.data, vec![sample_graphic_block()]);
}
