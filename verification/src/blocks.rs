//! The block dispatcher and the fixed-structure decoders: graphic control
//! extension, image descriptor, image data, and the four block variants.
//!
//! The dispatcher evaluates the variants as an ordered choice. A variant whose
//! leading tag bytes are absent reports `TagMismatch` and the next variant is
//! tried from the same position; any other failure is fatal and propagates
//! unchanged, because by then the variant's tag has committed the decode.

use vstd::prelude::*;

use crate::header::{spec_le16, spec_size_of, size_of};
use crate::model::{Block, BlockV, DecodeError, GraphicControlExtension, ImageData, ImageDataV,
    ImageDescriptor, SubBlocks};
use crate::subblocks::{chain_end, data_subblocks};

verus! {

/// Whether the two tag bytes `a`, `b` stand at `i` in `s`.
pub open spec fn spec_has_tag2(s: Seq<u8>, i: int, a: u8, b: u8) -> bool {
    i + 2 <= s.len() && s[i] == a && s[i + 1] == b
}

/// Result of decoding a graphic control extension at `i`: the six fixed bytes
/// after the tag `0x21 0xF9`, of which the mandatory zero terminator is
/// consumed but not stored. `TagMismatch` when the two tag bytes are absent
/// (also when fewer than two bytes remain), `Truncated` when the tag matches
/// but fewer than eight bytes remain, `MalformedTerminator` when the eighth
/// byte is not zero.
pub open spec fn spec_parse_gce(s: Seq<u8>, i: int) -> Result<
    (GraphicControlExtension, int),
    DecodeError,
> {
    if !spec_has_tag2(s, i, 0x21, 0xF9) {
        Err(DecodeError::TagMismatch)
    } else if i + 8 > s.len() {
        Err(DecodeError::Truncated)
    } else if s[i + 7] != 0 {
        Err(DecodeError::MalformedTerminator)
    } else {
        Ok(
            (
                GraphicControlExtension {
                    byte_size: s[i + 2],
                    packed_field: s[i + 3],
                    delay_time: spec_le16(s[i + 4], s[i + 5]),
                    transparent_color_index: s[i + 6],
                },
                i + 8,
            ),
        )
    }
}

/// Result of the optional graphic control extension at `i`: absent (and no
/// bytes consumed) when its tag is absent, otherwise the extension must
/// decode and its failure propagates.
pub open spec fn spec_parse_opt_gce(s: Seq<u8>, i: int) -> Result<
    (Option<GraphicControlExtension>, int),
    DecodeError,
> {
    if spec_has_tag2(s, i, 0x21, 0xF9) {
        match spec_parse_gce(s, i) {
            Ok((g, j)) => Ok((Some(g), j)),
            Err(e) => Err(e),
        }
    } else {
        Ok((None, i))
    }
}

/// Result of decoding an image descriptor at `i`: the tag `0x2C`, four
/// little-endian 16-bit fields and the packed flags byte. `TagMismatch` when
/// the tag byte is absent, `Truncated` when the tag matches but fewer than
/// ten bytes remain.
pub open spec fn spec_parse_image_descriptor(s: Seq<u8>, i: int) -> Result<
    (ImageDescriptor, int),
    DecodeError,
> {
    if i + 1 > s.len() || s[i] != 0x2C {
        Err(DecodeError::TagMismatch)
    } else if i + 10 > s.len() {
        Err(DecodeError::Truncated)
    } else {
        Ok(
            (
                ImageDescriptor {
                    left: spec_le16(s[i + 1], s[i + 2]),
                    top: spec_le16(s[i + 3], s[i + 4]),
                    width: spec_le16(s[i + 5], s[i + 6]),
                    height: spec_le16(s[i + 7], s[i + 8]),
                    packed_field: s[i + 9],
                },
                i + 10,
            ),
        )
    }
}

/// Result of the optional local color table at `i`, sized by the descriptor's
/// packed flags byte: absent when bit 7 is clear, otherwise the table's exact
/// byte run, `Truncated` when it would run past the buffer.
pub open spec fn spec_parse_color_table(s: Seq<u8>, i: int, flags: u8) -> Result<
    (Option<Seq<u8>>, int),
    DecodeError,
> {
    match spec_size_of(flags) {
        None => Ok((None, i)),
        Some(n) => if i + n > s.len() {
            Err(DecodeError::Truncated)
        } else {
            Ok((Some(s.subrange(i, i + n)), i + n))
        },
    }
}

/// Result of decoding image data at `i`: the LZW minimum code size byte, then
/// the sub-block chain carrying the compressed stream. `Truncated` when no
/// byte remains or the chain is not well formed.
pub open spec fn spec_parse_image_data(s: Seq<u8>, i: int) -> Result<
    (ImageDataV, int),
    DecodeError,
> {
    if i < 0 || i + 1 > s.len() {
        Err(DecodeError::Truncated)
    } else {
        match chain_end(s, i + 1) {
            None => Err(DecodeError::Truncated),
            Some(e) => Ok(
                (ImageDataV { lzw_minimum_code_size: s[i], data: s.subrange(i + 1, e) }, e),
            ),
        }
    }
}

/// Result of decoding a graphic block at `i`: optional graphic control
/// extension, mandatory image descriptor, optional local color table sized by
/// the descriptor's flags, then image data.
pub open spec fn spec_parse_graphic_block(s: Seq<u8>, i: int) -> Result<
    (BlockV, int),
    DecodeError,
> {
    match spec_parse_opt_gce(s, i) {
        Err(e) => Err(e),
        Ok((gce, j)) => match spec_parse_image_descriptor(s, j) {
            Err(e) => Err(e),
            Ok((id, k)) => match spec_parse_color_table(s, k, id.packed_field) {
                Err(e) => Err(e),
                Ok((lct, m)) => match spec_parse_image_data(s, m) {
                    Err(e) => Err(e),
                    Ok((d, end)) => Ok(
                        (
                            BlockV::GraphicBlock {
                                graphic_control_extension: gce,
                                image_descriptor: id,
                                local_color_table: lct,
                                image_data: d,
                            },
                            end,
                        ),
                    ),
                },
            },
        },
    }
}

/// Result of decoding a plain text block at `i`: optional graphic control
/// extension, the tag `0x21 0x01`, then the text payload as a sub-block
/// chain.
pub open spec fn spec_parse_text_block(s: Seq<u8>, i: int) -> Result<(BlockV, int), DecodeError> {
    match spec_parse_opt_gce(s, i) {
        Err(e) => Err(e),
        Ok((gce, j)) => if !spec_has_tag2(s, j, 0x21, 0x01) {
            Err(DecodeError::TagMismatch)
        } else {
            match chain_end(s, j + 2) {
                None => Err(DecodeError::Truncated),
                Some(e) => Ok(
                    (
                        BlockV::TextBlock {
                            graphic_control_extension: gce,
                            text: s.subrange(j + 2, e),
                        },
                        e,
                    ),
                ),
            }
        },
    }
}

/// Result of decoding an application extension at `i`: the tag `0x21 0xFF`,
/// then the payload as a sub-block chain.
pub open spec fn spec_parse_application_extension(s: Seq<u8>, i: int) -> Result<
    (BlockV, int),
    DecodeError,
> {
    if !spec_has_tag2(s, i, 0x21, 0xFF) {
        Err(DecodeError::TagMismatch)
    } else {
        match chain_end(s, i + 2) {
            None => Err(DecodeError::Truncated),
            Some(e) => Ok((BlockV::ApplicationExtension(s.subrange(i + 2, e)), e)),
        }
    }
}

/// Result of decoding a comment extension at `i`: the tag `0x21 0xFE`, then
/// the payload as a sub-block chain.
pub open spec fn spec_parse_comment_extension(s: Seq<u8>, i: int) -> Result<
    (BlockV, int),
    DecodeError,
> {
    if !spec_has_tag2(s, i, 0x21, 0xFE) {
        Err(DecodeError::TagMismatch)
    } else {
        match chain_end(s, i + 2) {
            None => Err(DecodeError::Truncated),
            Some(e) => Ok((BlockV::CommentExtension(s.subrange(i + 2, e)), e)),
        }
    }
}

/// Result of the block dispatcher at `i`: the four variants tried in order —
/// graphic, plain text, application, comment. A variant whose tag is absent
/// answers `TagMismatch` and the next is tried; when all four do,
/// the dispatcher reports `UnrecognizedBlock`. Any other failure is fatal and
/// propagates unchanged.
pub open spec fn spec_parse_block(s: Seq<u8>, i: int) -> Result<(BlockV, int), DecodeError> {
    match spec_parse_graphic_block(s, i) {
        Ok(r) => Ok(r),
        Err(DecodeError::TagMismatch) => match spec_parse_text_block(s, i) {
            Ok(r) => Ok(r),
            Err(DecodeError::TagMismatch) => match spec_parse_application_extension(s, i) {
                Ok(r) => Ok(r),
                Err(DecodeError::TagMismatch) => match spec_parse_comment_extension(s, i) {
                    Ok(r) => Ok(r),
                    Err(DecodeError::TagMismatch) => Err(DecodeError::UnrecognizedBlock),
                    Err(e) => Err(e),
                },
                Err(e) => Err(e),
            },
            Err(e) => Err(e),
        },
        Err(e) => Err(e),
    }
}

/// Whether the two tag bytes `a`, `b` stand at `pos`.
fn has_tag2(input: &[u8], pos: usize, a: u8, b: u8) -> (r: bool)
    ensures
        r == spec_has_tag2(input@, pos as int, a, b),
{
    pos < input.len() && input.len() - pos >= 2 && input[pos] == a && input[pos + 1] == b
}

/// Decodes a graphic control extension at `pos`: tag `0x21 0xF9`, byte size,
/// packed field, little-endian delay time, transparent color index, and the
/// mandatory zero terminator, which is consumed but not stored.
pub fn graphic_control_extension(input: &[u8], pos: usize) -> (r: Result<
    (GraphicControlExtension, usize),
    DecodeError,
>)
    ensures
        match r {
            Ok((g, j)) => spec_parse_gce(input@, pos as int) == Ok::<
                (GraphicControlExtension, int),
                DecodeError,
            >((g, j as int)),
            Err(e) => spec_parse_gce(input@, pos as int) == Err::<
                (GraphicControlExtension, int),
                DecodeError,
            >(e),
        },
{
    if !has_tag2(input, pos, 0x21, 0xF9) {
        return Err(DecodeError::TagMismatch);
    }
    if input.len() - pos < 8 {
        return Err(DecodeError::Truncated);
    }
    if input[pos + 7] != 0 {
        return Err(DecodeError::MalformedTerminator);
    }
    let delay = (input[pos + 4] as u16) + (input[pos + 5] as u16) * 256;
    Ok(
        (
            GraphicControlExtension {
                byte_size: input[pos + 2],
                packed_field: input[pos + 3],
                delay_time: delay,
                transparent_color_index: input[pos + 6],
            },
            pos + 8,
        ),
    )
}

/// Decodes the optional graphic control extension at `pos`: `None` with no
/// bytes consumed when the tag is absent; a failure of a present extension
/// propagates.
fn opt_graphic_control_extension(input: &[u8], pos: usize) -> (r: Result<
    (Option<GraphicControlExtension>, usize),
    DecodeError,
>)
    ensures
        match r {
            Ok((g, j)) => spec_parse_opt_gce(input@, pos as int) == Ok::<
                (Option<GraphicControlExtension>, int),
                DecodeError,
            >((g, j as int)),
            Err(e) => spec_parse_opt_gce(input@, pos as int) == Err::<
                (Option<GraphicControlExtension>, int),
                DecodeError,
            >(e),
        },
{
    if has_tag2(input, pos, 0x21, 0xF9) {
        match graphic_control_extension(input, pos) {
            Ok((g, j)) => Ok((Some(g), j)),
            Err(e) => Err(e),
        }
    } else {
        Ok((None, pos))
    }
}

/// Decodes an image descriptor at `pos`: tag `0x2C`, then left, top, width
/// and height as little-endian 16-bit fields, then the packed flags byte.
pub fn image_descriptor(input: &[u8], pos: usize) -> (r: Result<
    (ImageDescriptor, usize),
    DecodeError,
>)
    ensures
        match r {
            Ok((d, j)) => spec_parse_image_descriptor(input@, pos as int) == Ok::<
                (ImageDescriptor, int),
                DecodeError,
            >((d, j as int)),
            Err(e) => spec_parse_image_descriptor(input@, pos as int) == Err::<
                (ImageDescriptor, int),
                DecodeError,
            >(e),
        },
{
    if pos >= input.len() || input[pos] != 0x2C {
        return Err(DecodeError::TagMismatch);
    }
    if input.len() - pos < 10 {
        return Err(DecodeError::Truncated);
    }
    let left = (input[pos + 1] as u16) + (input[pos + 2] as u16) * 256;
    let top = (input[pos + 3] as u16) + (input[pos + 4] as u16) * 256;
    let width = (input[pos + 5] as u16) + (input[pos + 6] as u16) * 256;
    let height = (input[pos + 7] as u16) + (input[pos + 8] as u16) * 256;
    Ok(
        (
            ImageDescriptor { left, top, width, height, packed_field: input[pos + 9] },
            pos + 10,
        ),
    )
}

/// Decodes the optional color table at `pos`, sized by a packed flags byte:
/// the same convention serves the global table (header flags) and a local one
/// (image descriptor flags).
pub(crate) fn color_table(input: &[u8], pos: usize, flags: u8) -> (r: Result<
    (Option<Vec<u8>>, usize),
    DecodeError,
>)
    ensures
        match r {
            Ok((t, j)) => spec_parse_color_table(input@, pos as int, flags) == Ok::<
                (Option<Seq<u8>>, int),
                DecodeError,
            >(
                (
                    match t {
                        Some(v) => Some(v@),
                        None => None,
                    },
                    j as int,
                ),
            ),
            Err(e) => spec_parse_color_table(input@, pos as int, flags) == Err::<
                (Option<Seq<u8>>, int),
                DecodeError,
            >(e),
        },
{
    match size_of(flags) {
        None => Ok((None, pos)),
        Some(n) => {
            if pos >= input.len() || input.len() - pos < n {
                return Err(DecodeError::Truncated);
            }
            let table = vstd::slice::slice_to_vec(&input[pos..pos + n]);
            Ok((Some(table), pos + n))
        },
    }
}

/// Decodes image data at `pos`: the LZW minimum code size byte followed by
/// the sub-block chain carrying the raw compressed stream.
pub fn image_data(input: &[u8], pos: usize) -> (r: Result<(ImageData, usize), DecodeError>)
    ensures
        match r {
            Ok((d, j)) => spec_parse_image_data(input@, pos as int) == Ok::<
                (ImageDataV, int),
                DecodeError,
            >((d@, j as int)),
            Err(e) => spec_parse_image_data(input@, pos as int) == Err::<
                (ImageDataV, int),
                DecodeError,
            >(e),
        },
{
    if pos >= input.len() {
        return Err(DecodeError::Truncated);
    }
    let lzw_minimum_code_size = input[pos];
    match data_subblocks(input, pos + 1) {
        Err(e) => Err(e),
        Ok((sb, end)) => Ok((ImageData { lzw_minimum_code_size, data: sb }, end)),
    }
}

/// Decodes a graphic block at `pos`: optional graphic control extension,
/// image descriptor, optional local color table, image data. Once the
/// descriptor's tag has matched, any later failure is fatal.
pub fn graphic_block(input: &[u8], pos: usize) -> (r: Result<(Block, usize), DecodeError>)
    ensures
        match r {
            Ok((b, j)) => spec_parse_graphic_block(input@, pos as int) == Ok::<
                (BlockV, int),
                DecodeError,
            >((b@, j as int)),
            Err(e) => spec_parse_graphic_block(input@, pos as int) == Err::<
                (BlockV, int),
                DecodeError,
            >(e),
        },
{
    let (gce, j) = match opt_graphic_control_extension(input, pos) {
        Ok(x) => x,
        Err(e) => {
            return Err(e);
        },
    };
    let (id, k) = match image_descriptor(input, j) {
        Ok(x) => x,
        Err(e) => {
            return Err(e);
        },
    };
    let (lct, m) = match color_table(input, k, id.packed_field) {
        Ok(x) => x,
        Err(e) => {
            return Err(e);
        },
    };
    let (idata, end) = match image_data(input, m) {
        Ok(x) => x,
        Err(e) => {
            return Err(e);
        },
    };
    Ok(
        (
            Block::GraphicBlock {
                graphic_control_extension: gce,
                image_descriptor: id,
                local_color_table: lct,
                image_data: idata,
            },
            end,
        ),
    )
}

/// Decodes a plain text block at `pos`: optional graphic control extension,
/// the tag `0x21 0x01`, then the text payload as a sub-block chain.
pub fn plain_text_block(input: &[u8], pos: usize) -> (r: Result<(Block, usize), DecodeError>)
    ensures
        match r {
            Ok((b, j)) => spec_parse_text_block(input@, pos as int) == Ok::<
                (BlockV, int),
                DecodeError,
            >((b@, j as int)),
            Err(e) => spec_parse_text_block(input@, pos as int) == Err::<
                (BlockV, int),
                DecodeError,
            >(e),
        },
{
    let (gce, j) = match opt_graphic_control_extension(input, pos) {
        Ok(x) => x,
        Err(e) => {
            return Err(e);
        },
    };
    if !has_tag2(input, j, 0x21, 0x01) {
        return Err(DecodeError::TagMismatch);
    }
    let n = input.len();
    assert(j + 2 <= n);
    match data_subblocks(input, j + 2) {
        Err(e) => Err(e),
        Ok((sb, end)) => Ok(
            (Block::TextBlock { graphic_control_extension: gce, text: sb }, end),
        ),
    }
}

/// Decodes an application extension at `pos`: the tag `0x21 0xFF`, then the
/// payload as a sub-block chain.
pub fn application_extension(input: &[u8], pos: usize) -> (r: Result<(Block, usize), DecodeError>)
    ensures
        match r {
            Ok((b, j)) => spec_parse_application_extension(input@, pos as int) == Ok::<
                (BlockV, int),
                DecodeError,
            >((b@, j as int)),
            Err(e) => spec_parse_application_extension(input@, pos as int) == Err::<
                (BlockV, int),
                DecodeError,
            >(e),
        },
{
    if !has_tag2(input, pos, 0x21, 0xFF) {
        return Err(DecodeError::TagMismatch);
    }
    let n = input.len();
    assert(pos + 2 <= n);
    match data_subblocks(input, pos + 2) {
        Err(e) => Err(e),
        Ok((sb, end)) => Ok((Block::ApplicationExtension(sb), end)),
    }
}

/// Decodes a comment extension at `pos`: the tag `0x21 0xFE`, then the
/// payload as a sub-block chain.
pub fn comment_extension(input: &[u8], pos: usize) -> (r: Result<(Block, usize), DecodeError>)
    ensures
        match r {
            Ok((b, j)) => spec_parse_comment_extension(input@, pos as int) == Ok::<
                (BlockV, int),
                DecodeError,
            >((b@, j as int)),
            Err(e) => spec_parse_comment_extension(input@, pos as int) == Err::<
                (BlockV, int),
                DecodeError,
            >(e),
        },
{
    if !has_tag2(input, pos, 0x21, 0xFE) {
        return Err(DecodeError::TagMismatch);
    }
    let n = input.len();
    assert(pos + 2 <= n);
    match data_subblocks(input, pos + 2) {
        Err(e) => Err(e),
        Ok((sb, end)) => Ok((Block::CommentExtension(sb), end)),
    }
}

/// The block dispatcher: recognizes and fully decodes one of the four block
/// variants at `pos`, reporting how many bytes it consumed through the
/// returned position. `UnrecognizedBlock` when no variant's tag matches.
pub fn block(input: &[u8], pos: usize) -> (r: Result<(Block, usize), DecodeError>)
    ensures
        match r {
            Ok((b, j)) => spec_parse_block(input@, pos as int) == Ok::<
                (BlockV, int),
                DecodeError,
            >((b@, j as int)),
            Err(e) => spec_parse_block(input@, pos as int) == Err::<(BlockV, int), DecodeError>(
                e,
            ),
        },
{
    match graphic_block(input, pos) {
        Ok(x) => {
            return Ok(x);
        },
        Err(DecodeError::TagMismatch) => {},
        Err(e) => {
            return Err(e);
        },
    }
    match plain_text_block(input, pos) {
        Ok(x) => {
            return Ok(x);
        },
        Err(DecodeError::TagMismatch) => {},
        Err(e) => {
            return Err(e);
        },
    }
    match application_extension(input, pos) {
        Ok(x) => {
            return Ok(x);
        },
        Err(DecodeError::TagMismatch) => {},
        Err(e) => {
            return Err(e);
        },
    }
    match comment_extension(input, pos) {
        Ok(x) => Ok(x),
        Err(DecodeError::TagMismatch) => Err(DecodeError::UnrecognizedBlock),
        Err(e) => Err(e),
    }
}

} // verus!
