//! The container assembler: decodes the fixed header, then repeatedly invokes
//! the block dispatcher, collecting blocks in encounter order, until the input
//! is exhausted or the trailer byte `0x3B` marks a clean end. Bytes after the
//! trailer are ignored.

use vstd::prelude::*;

use crate::blocks::{block, spec_parse_block, spec_parse_color_table};
use crate::header::{signature, spec_le16, spec_parse_signature, spec_parse_version, version};
use crate::model::{Block, BlockV, DecodeError, GifV, GIF};
use crate::subblocks::lemma_chain_end_bounds;

verus! {

/// A successful dispatch consumes at least one byte and stays inside the
/// buffer.
pub proof fn lemma_parse_block_advances(s: Seq<u8>, i: int)
    requires
        0 <= i,
    ensures
        spec_parse_block(s, i) matches Ok((b, j)) ==> i < j <= s.len(),
{
    match crate::blocks::spec_parse_opt_gce(s, i) {
        Ok((gce, j0)) => {
            match crate::blocks::spec_parse_image_descriptor(s, j0) {
                Ok((id, k)) => {
                    match spec_parse_color_table(s, k, id.packed_field) {
                        Ok((lct, m)) => {
                            lemma_chain_end_bounds(s, m + 1);
                        },
                        _ => {},
                    }
                },
                _ => {},
            }
            lemma_chain_end_bounds(s, j0 + 2);
        },
        _ => {},
    }
    lemma_chain_end_bounds(s, i + 2);
}

/// Result of decoding the block sequence from `i` on: blocks in encounter
/// order until the input is exhausted or the trailer byte `0x3B` stands at
/// the current position; a failing dispatch propagates its error.
pub open spec fn spec_parse_blocks(s: Seq<u8>, i: int) -> Result<Seq<BlockV>, DecodeError>
    decreases s.len() - i,
{
    if i < 0 || i >= s.len() {
        Ok(Seq::empty())
    } else if s[i] == 0x3B {
        Ok(Seq::empty())
    } else {
        match spec_parse_block(s, i) {
            Err(e) => Err(e),
            Ok((b, j)) => {
                proof {
                    lemma_parse_block_advances(s, i);
                }
                match spec_parse_blocks(s, j) {
                    Err(e) => Err(e),
                    Ok(rest) => Ok(seq![b] + rest),
                }
            },
        }
    }
}

/// Result of decoding a whole container: the 13-byte header (signature,
/// version, canvas width and height, packed flags byte, background color
/// index and pixel aspect ratio, the last two read and discarded), the
/// optional global color table sized by the flags byte, then the block
/// sequence.
pub open spec fn spec_parse_gif(s: Seq<u8>) -> Result<GifV, DecodeError> {
    match spec_parse_signature(s, 0) {
        Err(e) => Err(e),
        Ok(_) => match spec_parse_version(s, 3) {
            Err(e) => Err(e),
            Ok((v, _)) => if s.len() < 13 {
                Err(DecodeError::Truncated)
            } else {
                match spec_parse_color_table(s, 13, s[10]) {
                    Err(e) => Err(e),
                    Ok((gct, hdr_end)) => match spec_parse_blocks(s, hdr_end) {
                        Err(e) => Err(e),
                        Ok(blocks) => Ok(
                            GifV {
                                version: v,
                                width: spec_le16(s[6], s[7]),
                                height: spec_le16(s[8], s[9]),
                                global_color_table: gct,
                                data: blocks,
                            },
                        ),
                    },
                }
            },
        },
    }
}

/// Decodes a whole container from an in-memory byte buffer: the sole entry
/// point. Returns the fully populated container, or the typed error of the
/// first component that failed — every component fails fast and nothing is
/// recovered locally.
#[verifier::loop_isolation(false)]
pub fn parse_gif(gif_data: &[u8]) -> (r: Result<GIF, DecodeError>)
    ensures
        match r {
            Ok(g) => spec_parse_gif(gif_data@) == Ok::<GifV, DecodeError>(g@),
            Err(e) => spec_parse_gif(gif_data@) == Err::<GifV, DecodeError>(e),
        },
{
    let ghost s = gif_data@;
    match signature(gif_data, 0) {
        Ok(_) => {},
        Err(e) => {
            return Err(e);
        },
    }
    let ver = match version(gif_data, 3) {
        Ok((v, _)) => v,
        Err(e) => {
            return Err(e);
        },
    };
    if gif_data.len() < 13 {
        return Err(DecodeError::Truncated);
    }
    let width = (gif_data[6] as u16) + (gif_data[7] as u16) * 256;
    let height = (gif_data[8] as u16) + (gif_data[9] as u16) * 256;
    let flags = gif_data[10];
    let (gct, hdr_end) = match crate::blocks::color_table(gif_data, 13, flags) {
        Ok(x) => x,
        Err(e) => {
            return Err(e);
        },
    };
    let mut data: Vec<Block> = Vec::new();
    let mut pos = hdr_end;
    proof {
        assert(data@.map_values(|b: Block| b@) + spec_parse_blocks(s, pos as int)->Ok_0
            =~= spec_parse_blocks(s, pos as int)->Ok_0);
    }
    while pos < gif_data.len() && gif_data[pos] != 0x3B
        invariant
            hdr_end <= pos <= gif_data.len(),
            spec_parse_blocks(s, hdr_end as int) == (match spec_parse_blocks(s, pos as int) {
                Ok(rest) => Ok::<Seq<BlockV>, DecodeError>(
                    data@.map_values(|b: Block| b@) + rest,
                ),
                Err(e) => Err::<Seq<BlockV>, DecodeError>(e),
            }),
        decreases gif_data.len() - pos,
    {
        match block(gif_data, pos) {
            Err(e) => {
                return Err(e);
            },
            Ok((b, j)) => {
                proof {
                    lemma_parse_block_advances(s, pos as int);
                    let m = data@.map_values(|x: Block| x@);
                    match spec_parse_blocks(s, j as int) {
                        Ok(rest) => {
                            assert(m + (seq![b@] + rest) =~= (m + seq![b@]) + rest);
                            assert(data@.push(b).map_values(|x: Block| x@) =~= m + seq![b@]);
                        },
                        Err(_) => {},
                    }
                }
                data.push(b);
                pos = j;
            },
        }
    }
    proof {
        let m = data@.map_values(|x: Block| x@);
        assert(spec_parse_blocks(s, pos as int) == Ok::<Seq<BlockV>, DecodeError>(Seq::empty()));
        assert(m + Seq::<BlockV>::empty() =~= m);
    }
    let out = GIF { version: ver, width, height, global_color_table: gct, data };
    proof {
        let gv = spec_parse_gif(s)->Ok_0;
        assert(out@.global_color_table == gv.global_color_table);
        assert(out@.data == gv.data);
    }
    Ok(out)
}

} // verus!
