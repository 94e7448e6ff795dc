//! The wire format stated as spec-level encoders, and the proofs that the
//! decoder inverts them: every buffer built from a well-formed container by
//! the documented encoding decodes back to exactly that container.

use vstd::prelude::*;

use crate::blocks::{spec_parse_block, spec_parse_color_table};
use crate::header::{spec_le16, spec_size_of};
use crate::model::{BlockV, DecodeError, GifV, GraphicControlExtension, ImageDataV,
    ImageDescriptor, Version};
use crate::parser::{spec_parse_blocks, spec_parse_gif};
use crate::subblocks::{chain_end, chain_payload, is_chain, lemma_chain_end_of_span};

verus! {

/// The low byte of a 16-bit value.
pub open spec fn lo16(x: u16) -> u8 {
    (x & 0xFF) as u8
}

/// The high byte of a 16-bit value.
pub open spec fn hi16(x: u16) -> u8 {
    (x >> 8) as u8
}

/// Reading back the two little-endian bytes of a 16-bit value gives the value.
pub proof fn lemma_le16_round(x: u16)
    ensures
        spec_le16(lo16(x), hi16(x)) == x,
{
    assert(x & 0xFF < 256) by (bit_vector);
    assert(x >> 8 < 256) by (bit_vector);
    assert((x & 0xFF) + (x >> 8) * 256 == x) by (bit_vector);
}

/// Every chunk of a chain encoding is non-empty and fits its length byte.
pub open spec fn wf_chunks(cs: Seq<Seq<u8>>) -> bool {
    forall|k: int| 0 <= k < cs.len() ==> 1 <= (#[trigger] cs[k]).len() <= 255
}

/// The bytes of the sub-block chain that carries the chunks `cs`: each chunk
/// prefixed by its length byte, then the zero terminator.
pub open spec fn enc_chunks(cs: Seq<Seq<u8>>) -> Seq<u8>
    decreases cs.len(),
{
    if cs.len() == 0 {
        seq![0u8]
    } else {
        seq![cs[0].len() as u8] + cs[0] + enc_chunks(cs.drop_first())
    }
}

/// The summed length of the chunks `cs`.
pub open spec fn total_len(cs: Seq<Seq<u8>>) -> nat
    decreases cs.len(),
{
    if cs.len() == 0 {
        0
    } else {
        cs[0].len() + total_len(cs.drop_first())
    }
}

/// Decoding the chain that encodes chunks of lengths `L1 .. Ln` consumes
/// exactly `L1 + .. + Ln + n + 1` bytes — one length byte per chunk plus the
/// terminator — and its logical payload is exactly the chunks concatenated in
/// chunk order.
pub proof fn lemma_chain_encoding(cs: Seq<Seq<u8>>)
    requires
        wf_chunks(cs),
    ensures
        enc_chunks(cs).len() == total_len(cs) + cs.len() + 1,
        is_chain(enc_chunks(cs)),
        chain_end(enc_chunks(cs), 0) == Some(enc_chunks(cs).len() as int),
        chain_payload(enc_chunks(cs)) == cs.flatten(),
        cs.flatten().len() == total_len(cs),
    decreases cs.len(),
{
    let e = enc_chunks(cs);
    if cs.len() == 0 {
        assert(cs.flatten() =~= Seq::<u8>::empty());
        assert(chain_payload(e) =~= Seq::<u8>::empty());
    } else {
        let c0 = cs[0];
        let rest = cs.drop_first();
        assert(1 <= c0.len() <= 255);
        assert(wf_chunks(rest)) by {
            assert(forall|k: int| 0 <= k < rest.len() ==> rest[k] == cs[k + 1]);
        }
        lemma_chain_encoding(rest);
        assert(e[0] == c0.len() as u8);
        assert(e[0] != 0);
        assert(e.len() == 1 + c0.len() + enc_chunks(rest).len());
        assert(e.skip(1 + e[0]) =~= enc_chunks(rest));
        assert(e.subrange(1, 1 + e[0]) =~= c0);
        assert(is_chain(e));
        assert(cs.flatten() == c0 + rest.flatten());
        assert(chain_payload(e) =~= cs.flatten());
    }
    assert(e.subrange(0, e.len() as int) =~= e);
    lemma_chain_end_of_span(e, 0, e);
}

/// The bytes of a graphic control extension.
pub open spec fn enc_gce(g: GraphicControlExtension) -> Seq<u8> {
    seq![
        0x21u8,
        0xF9u8,
        g.byte_size,
        g.packed_field,
        lo16(g.delay_time),
        hi16(g.delay_time),
        g.transparent_color_index,
        0u8,
    ]
}

/// The bytes of an optional graphic control extension: nothing when absent.
pub open spec fn enc_opt_gce(o: Option<GraphicControlExtension>) -> Seq<u8> {
    match o {
        None => Seq::empty(),
        Some(g) => enc_gce(g),
    }
}

/// The bytes of an image descriptor.
pub open spec fn enc_image_descriptor(d: ImageDescriptor) -> Seq<u8> {
    seq![
        0x2Cu8,
        lo16(d.left),
        hi16(d.left),
        lo16(d.top),
        hi16(d.top),
        lo16(d.width),
        hi16(d.width),
        lo16(d.height),
        hi16(d.height),
        d.packed_field,
    ]
}

/// The bytes of an optional color table: nothing when absent.
pub open spec fn enc_opt_table(o: Option<Seq<u8>>) -> Seq<u8> {
    match o {
        None => Seq::empty(),
        Some(t) => t,
    }
}

/// The bytes of an image data field: the LZW minimum code size byte, then the
/// sub-block chain span.
pub open spec fn enc_image_data(v: ImageDataV) -> Seq<u8> {
    seq![v.lzw_minimum_code_size] + v.data
}

/// The bytes of one block, by variant.
pub open spec fn enc_block(b: BlockV) -> Seq<u8> {
    match b {
        BlockV::GraphicBlock {
            graphic_control_extension: gce,
            image_descriptor: id,
            local_color_table: lct,
            image_data: idata,
        } => enc_opt_gce(gce) + enc_image_descriptor(id) + enc_opt_table(lct) + enc_image_data(
            idata,
        ),
        BlockV::TextBlock { graphic_control_extension: gce, text } => enc_opt_gce(gce) + seq![
            0x21u8,
            0x01u8,
        ] + text,
        BlockV::ApplicationExtension(d) => seq![0x21u8, 0xFFu8] + d,
        BlockV::CommentExtension(d) => seq![0x21u8, 0xFEu8] + d,
    }
}

/// A block value that the wire format can carry: its color table agrees with
/// its descriptor's flags byte, and every variable-length payload is a
/// well-formed sub-block chain span.
pub open spec fn wf_block(b: BlockV) -> bool {
    match b {
        BlockV::GraphicBlock {
            graphic_control_extension: gce,
            image_descriptor: id,
            local_color_table: lct,
            image_data: idata,
        } => {
            &&& (match (lct, spec_size_of(id.packed_field)) {
                (None, None) => true,
                (Some(t), Some(n)) => t.len() == n,
                _ => false,
            })
            &&& is_chain(idata.data)
        },
        BlockV::TextBlock { graphic_control_extension: gce, text } => is_chain(text),
        BlockV::ApplicationExtension(d) => is_chain(d),
        BlockV::CommentExtension(d) => is_chain(d),
    }
}

/// The bytes of a block sequence, in order.
pub open spec fn enc_blocks(bs: Seq<BlockV>) -> Seq<u8>
    decreases bs.len(),
{
    if bs.len() == 0 {
        Seq::empty()
    } else {
        enc_block(bs[0]) + enc_blocks(bs.drop_first())
    }
}

/// The 13 header bytes: signature, version string, canvas width and height
/// little-endian, the packed flags byte, background color index, pixel aspect
/// ratio.
pub open spec fn enc_header(g: GifV, flags: u8, background: u8, aspect: u8) -> Seq<u8> {
    match g.version {
        Version::GIF87a => seq![
            0x47u8,
            0x49u8,
            0x46u8,
            0x38u8,
            0x37u8,
            0x61u8,
            lo16(g.width),
            hi16(g.width),
            lo16(g.height),
            hi16(g.height),
            flags,
            background,
            aspect,
        ],
        Version::GIF89a => seq![
            0x47u8,
            0x49u8,
            0x46u8,
            0x38u8,
            0x39u8,
            0x61u8,
            lo16(g.width),
            hi16(g.width),
            lo16(g.height),
            hi16(g.height),
            flags,
            background,
            aspect,
        ],
    }
}

/// The bytes of a whole container: header, optional global color table,
/// then the blocks. No trailer byte is appended: the decoder also accepts
/// plain exhaustion of the input as the end of the block sequence.
pub open spec fn enc_gif(g: GifV, flags: u8, background: u8, aspect: u8) -> Seq<u8> {
    enc_header(g, flags, background, aspect) + enc_opt_table(g.global_color_table) + enc_blocks(
        g.data,
    )
}

/// A container value that the wire format can carry with the flags byte
/// `flags`: the global color table agrees with `flags`, and every block is
/// well formed.
pub open spec fn wf_gif(g: GifV, flags: u8) -> bool {
    &&& (match (g.global_color_table, spec_size_of(flags)) {
        (None, None) => true,
        (Some(t), Some(n)) => t.len() == n,
        _ => false,
    })
    &&& (forall|k: int| 0 <= k < g.data.len() ==> wf_block(#[trigger] g.data[k]))
}

/// A byte run equal to `c` at `i` in `s` pins the bytes of `s` there.
proof fn lemma_bytes_of_subrange(s: Seq<u8>, i: int, c: Seq<u8>)
    requires
        0 <= i,
        i + c.len() <= s.len(),
        s.subrange(i, i + c.len()) == c,
    ensures
        forall|k: int| 0 <= k < c.len() ==> s[i + k] == #[trigger] c[k],
{
    assert forall|k: int| 0 <= k < c.len() implies s[i + k] == #[trigger] c[k] by {
        assert(s.subrange(i, i + c.len())[k] == s[i + k]);
    }
}

/// A graphic control extension's encoding at `i` decodes to the extension,
/// consuming its eight bytes.
pub proof fn lemma_parse_gce_of_enc(s: Seq<u8>, i: int, g: GraphicControlExtension)
    requires
        0 <= i,
        i + 8 <= s.len(),
        s.subrange(i, i + 8) == enc_gce(g),
    ensures
        crate::blocks::spec_parse_gce(s, i) == Ok::<(GraphicControlExtension, int), DecodeError>(
            (g, i + 8),
        ),
{
    let c = enc_gce(g);
    lemma_bytes_of_subrange(s, i, c);
    assert(s[i] == c[0] && s[i + 1] == c[1] && s[i + 2] == c[2] && s[i + 3] == c[3] && s[i + 4]
        == c[4] && s[i + 5] == c[5] && s[i + 6] == c[6] && s[i + 7] == c[7]);
    lemma_le16_round(g.delay_time);
}

/// An image descriptor's encoding at `i` decodes to the descriptor, consuming
/// its ten bytes.
pub proof fn lemma_parse_id_of_enc(s: Seq<u8>, i: int, d: ImageDescriptor)
    requires
        0 <= i,
        i + 10 <= s.len(),
        s.subrange(i, i + 10) == enc_image_descriptor(d),
    ensures
        crate::blocks::spec_parse_image_descriptor(s, i) == Ok::<
            (ImageDescriptor, int),
            DecodeError,
        >((d, i + 10)),
{
    let c = enc_image_descriptor(d);
    lemma_bytes_of_subrange(s, i, c);
    assert(s[i] == c[0] && s[i + 1] == c[1] && s[i + 2] == c[2] && s[i + 3] == c[3] && s[i + 4]
        == c[4] && s[i + 5] == c[5] && s[i + 6] == c[6] && s[i + 7] == c[7] && s[i + 8] == c[8]
        && s[i + 9] == c[9]);
    lemma_le16_round(d.left);
    lemma_le16_round(d.top);
    lemma_le16_round(d.width);
    lemma_le16_round(d.height);
}

/// A byte run equal to `c` at `i` in `s` pins every inner run of `s` to the
/// matching piece of `c`.
proof fn lemma_split_subrange(s: Seq<u8>, i: int, c: Seq<u8>, a: int, b: int)
    requires
        0 <= i,
        i + c.len() <= s.len(),
        s.subrange(i, i + c.len()) == c,
        0 <= a <= b <= c.len(),
    ensures
        s.subrange(i + a, i + b) == c.subrange(a, b),
{
    lemma_bytes_of_subrange(s, i, c);
    assert forall|k: int| 0 <= k < b - a implies s.subrange(i + a, i + b)[k] == c.subrange(
        a,
        b,
    )[k] by {
        assert(c[a + k] == s[i + (a + k)]);
    }
    assert(s.subrange(i + a, i + b) =~= c.subrange(a, b));
}

/// An optional graphic control extension's encoding at `i` decodes to it,
/// provided that, when it is absent, the bytes that follow do not look like
/// its tag.
proof fn lemma_parse_opt_gce_of_enc(s: Seq<u8>, i: int, gce: Option<GraphicControlExtension>)
    requires
        0 <= i,
        i + enc_opt_gce(gce).len() <= s.len(),
        s.subrange(i, i + enc_opt_gce(gce).len()) == enc_opt_gce(gce),
        gce is None ==> !crate::blocks::spec_has_tag2(s, i, 0x21, 0xF9),
    ensures
        crate::blocks::spec_parse_opt_gce(s, i) == Ok::<
            (Option<GraphicControlExtension>, int),
            DecodeError,
        >((gce, i + enc_opt_gce(gce).len())),
{
    match gce {
        None => {},
        Some(g) => {
            lemma_parse_gce_of_enc(s, i, g);
        },
    }
}

/// A block's encoding at `i` dispatches to exactly that block, consuming
/// exactly its encoding's bytes.
#[verifier::rlimit(100)]
pub proof fn lemma_parse_block_of_enc(s: Seq<u8>, i: int, b: BlockV)
    requires
        wf_block(b),
        0 <= i,
        i + enc_block(b).len() <= s.len(),
        s.subrange(i, i + enc_block(b).len()) == enc_block(b),
    ensures
        spec_parse_block(s, i) == Ok::<(BlockV, int), DecodeError>((b, i + enc_block(b).len())),
{
    let eb = enc_block(b);
    lemma_bytes_of_subrange(s, i, eb);
    match b {
        BlockV::GraphicBlock {
            graphic_control_extension: gce,
            image_descriptor: id,
            local_color_table: lct,
            image_data: idata,
        } => {
            let p_gce = enc_opt_gce(gce);
            let p_id = enc_image_descriptor(id);
            let p_tbl = enc_opt_table(lct);
            let p_dat = enc_image_data(idata);
            let l0 = p_gce.len() as int;
            assert(eb =~= p_gce + p_id + p_tbl + p_dat);
            assert(eb.len() == l0 + 10 + p_tbl.len() + p_dat.len());
            lemma_split_subrange(s, i, eb, 0, l0);
            assert(eb.subrange(0, l0) =~= p_gce);
            lemma_split_subrange(s, i, eb, l0, l0 + 10);
            assert(eb.subrange(l0, l0 + 10) =~= p_id);
            let k = i + l0 + 10;
            lemma_split_subrange(s, i, eb, l0 + 10, l0 + 10 + p_tbl.len());
            assert(eb.subrange(l0 + 10, l0 + 10 + p_tbl.len()) =~= p_tbl);
            let m = k + p_tbl.len();
            lemma_split_subrange(s, i, eb, l0 + 10 + p_tbl.len(), eb.len() as int);
            assert(eb.subrange(l0 + 10 + p_tbl.len(), eb.len() as int) =~= p_dat);
            // optional extension, then the descriptor
            assert(eb[l0] == p_id[0]);
            assert(s[i + l0] == 0x2C);
            lemma_parse_opt_gce_of_enc(s, i, gce);
            lemma_parse_id_of_enc(s, i + l0, id);
            // optional local color table
            match lct {
                None => {
                    assert(crate::blocks::spec_parse_color_table(s, k, id.packed_field) == Ok::<
                        (Option<Seq<u8>>, int),
                        DecodeError,
                    >((None, k)));
                },
                Some(t) => {
                    assert(spec_size_of(id.packed_field) == Some(t.len()));
                    assert(s.subrange(k, k + t.len()) == t);
                },
            }
            // image data: the length byte, then the chain span
            assert(eb[l0 + 10 + p_tbl.len()] == p_dat[0]);
            assert(s[m] == idata.lzw_minimum_code_size);
            lemma_split_subrange(s, i, eb, l0 + 10 + p_tbl.len() + 1, eb.len() as int);
            assert(eb.subrange(l0 + 10 + p_tbl.len() + 1, eb.len() as int) =~= idata.data);
            lemma_chain_end_of_span(s, m + 1, idata.data);
            assert(crate::blocks::spec_parse_image_data(s, m) == Ok::<
                (ImageDataV, int),
                DecodeError,
            >((idata, i + eb.len())));
        },
        BlockV::TextBlock { graphic_control_extension: gce, text } => {
            let p_gce = enc_opt_gce(gce);
            let l0 = p_gce.len() as int;
            assert(eb =~= p_gce + seq![0x21u8, 0x01u8] + text);
            assert(eb.len() == l0 + 2 + text.len());
            lemma_split_subrange(s, i, eb, 0, l0);
            assert(eb.subrange(0, l0) =~= p_gce);
            let j = i + l0;
            assert(eb[l0] == 0x21 && eb[l0 + 1] == 0x01);
            assert(s[j] == 0x21 && s[j + 1] == 0x01);
            lemma_parse_opt_gce_of_enc(s, i, gce);
            // the graphic attempt stops at the descriptor's absent tag
            assert(crate::blocks::spec_parse_image_descriptor(s, j) == Err::<
                (ImageDescriptor, int),
                DecodeError,
            >(DecodeError::TagMismatch));
            // the text payload chain
            lemma_split_subrange(s, i, eb, l0 + 2, eb.len() as int);
            assert(eb.subrange(l0 + 2, eb.len() as int) =~= text);
            lemma_chain_end_of_span(s, j + 2, text);
        },
        BlockV::ApplicationExtension(d) => {
            assert(eb =~= seq![0x21u8, 0xFFu8] + d);
            assert(eb[0] == 0x21 && eb[1] == 0xFF);
            assert(s[i] == 0x21 && s[i + 1] == 0xFF);
            lemma_split_subrange(s, i, eb, 2, eb.len() as int);
            assert(eb.subrange(2, eb.len() as int) =~= d);
            lemma_chain_end_of_span(s, i + 2, d);
        },
        BlockV::CommentExtension(d) => {
            assert(eb =~= seq![0x21u8, 0xFEu8] + d);
            assert(eb[0] == 0x21 && eb[1] == 0xFE);
            assert(s[i] == 0x21 && s[i + 1] == 0xFE);
            lemma_split_subrange(s, i, eb, 2, eb.len() as int);
            assert(eb.subrange(2, eb.len() as int) =~= d);
            lemma_chain_end_of_span(s, i + 2, d);
        },
    }
}

/// A block's encoding is non-empty and opens with an extension introducer or
/// the image descriptor tag — never with the trailer byte.
proof fn lemma_enc_block_first(b: BlockV)
    ensures
        enc_block(b).len() >= 1,
        enc_block(b)[0] == 0x21 || enc_block(b)[0] == 0x2C,
{
    let eb = enc_block(b);
    match b {
        BlockV::GraphicBlock {
            graphic_control_extension: gce,
            image_descriptor: id,
            local_color_table: lct,
            image_data: idata,
        } => {
            match gce {
                None => {
                    assert(eb[0] == enc_image_descriptor(id)[0]);
                },
                Some(g) => {
                    assert(eb[0] == enc_gce(g)[0]);
                },
            }
        },
        BlockV::TextBlock { graphic_control_extension: gce, text } => {
            match gce {
                None => {
                    assert(eb[0] == 0x21);
                },
                Some(g) => {
                    assert(eb[0] == enc_gce(g)[0]);
                },
            }
        },
        BlockV::ApplicationExtension(d) => {
            assert(eb[0] == 0x21);
        },
        BlockV::CommentExtension(d) => {
            assert(eb[0] == 0x21);
        },
    }
}

/// A block sequence's encoding, standing at `i` and reaching exactly to the
/// end of the buffer, decodes to exactly that sequence.
pub proof fn lemma_parse_blocks_of_enc(s: Seq<u8>, i: int, bs: Seq<BlockV>)
    requires
        forall|k: int| 0 <= k < bs.len() ==> wf_block(#[trigger] bs[k]),
        0 <= i,
        i + enc_blocks(bs).len() == s.len(),
        s.subrange(i, s.len() as int) == enc_blocks(bs),
    ensures
        spec_parse_blocks(s, i) == Ok::<Seq<BlockV>, DecodeError>(bs),
    decreases bs.len(),
{
    if bs.len() == 0 {
        assert(bs =~= Seq::<BlockV>::empty());
    } else {
        let b0 = bs[0];
        let rest = bs.drop_first();
        let e0 = enc_block(b0);
        assert(enc_blocks(bs) == e0 + enc_blocks(rest));
        lemma_enc_block_first(b0);
        lemma_split_subrange(s, i, enc_blocks(bs), 0, e0.len() as int);
        assert((e0 + enc_blocks(rest)).subrange(0, e0.len() as int) =~= e0);
        lemma_parse_block_of_enc(s, i, b0);
        lemma_bytes_of_subrange(s, i, enc_blocks(bs));
        assert(s[i] == enc_blocks(bs)[0]);
        assert(enc_blocks(bs)[0] == e0[0]);
        let j = i + e0.len();
        lemma_split_subrange(s, i, enc_blocks(bs), e0.len() as int, enc_blocks(bs).len() as int);
        let whole = e0 + enc_blocks(rest);
        assert(whole.subrange(e0.len() as int, enc_blocks(bs).len() as int) =~= enc_blocks(rest));
        assert(s.subrange(j, s.len() as int) == enc_blocks(rest));
        assert(forall|k: int| 0 <= k < rest.len() ==> rest[k] == bs[k + 1]);
        lemma_parse_blocks_of_enc(s, j, rest);
        assert(seq![b0] + rest =~= bs);
    }
}

/// Round trip: a buffer built by encoding a well-formed container with the
/// documented wire format — with any flags byte that agrees with the global
/// color table, and any background color index and pixel aspect ratio bytes —
/// decodes to exactly the original structured values: version, dimensions,
/// table contents, block sequence and payload bytes.
pub proof fn lemma_round_trip(g: GifV, flags: u8, background: u8, aspect: u8)
    requires
        wf_gif(g, flags),
    ensures
        spec_parse_gif(enc_gif(g, flags, background, aspect)) == Ok::<GifV, DecodeError>(g),
{
    let s = enc_gif(g, flags, background, aspect);
    let hd = enc_header(g, flags, background, aspect);
    let tbl = enc_opt_table(g.global_color_table);
    let blks = enc_blocks(g.data);
    assert(s == hd + tbl + blks);
    assert(s.len() == 13 + tbl.len() + blks.len());
    assert(s.subrange(0, s.len() as int) =~= s);
    lemma_split_subrange(s, 0, s, 0, 13);
    assert(s.subrange(0, 13) =~= hd);
    lemma_bytes_of_subrange(s, 0, hd);
    assert(hd[0] == 0x47 && hd[1] == 0x49 && hd[2] == 0x46);
    assert(s[0] == 0x47 && s[1] == 0x49 && s[2] == 0x46);
    match g.version {
        Version::GIF87a => {
            assert(hd[3] == 0x38 && hd[4] == 0x37 && hd[5] == 0x61);
            assert(s[3] == 0x38 && s[4] == 0x37 && s[5] == 0x61);
        },
        Version::GIF89a => {
            assert(hd[3] == 0x38 && hd[4] == 0x39 && hd[5] == 0x61);
            assert(s[3] == 0x38 && s[4] == 0x39 && s[5] == 0x61);
            assert(s[4] != 0x37);
        },
    }
    assert(hd[6] == lo16(g.width) && hd[7] == hi16(g.width) && hd[8] == lo16(g.height) && hd[9]
        == hi16(g.height) && hd[10] == flags && hd[11] == background && hd[12] == aspect);
    lemma_le16_round(g.width);
    lemma_le16_round(g.height);
    // the optional global color table
    let hdr_end = 13 + tbl.len() as int;
    match g.global_color_table {
        None => {
            assert(spec_parse_color_table(s, 13, flags) == Ok::<
                (Option<Seq<u8>>, int),
                DecodeError,
            >((None, 13)));
        },
        Some(t) => {
            assert(spec_size_of(flags) == Some(t.len()));
            lemma_split_subrange(s, 0, s, 13, hdr_end);
            assert(s.subrange(13, hdr_end) =~= t);
            assert(spec_parse_color_table(s, 13, flags) == Ok::<
                (Option<Seq<u8>>, int),
                DecodeError,
            >((Some(t), hdr_end)));
        },
    }
    // the block sequence fills the rest of the buffer exactly
    lemma_split_subrange(s, 0, s, hdr_end, s.len() as int);
    assert(s.subrange(hdr_end, s.len() as int) =~= blks);
    lemma_parse_blocks_of_enc(s, hdr_end, g.data);
}

} // verus!
