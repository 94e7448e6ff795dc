//! The decoded in-memory representation: the container, its blocks, and the
//! mathematical views that the contracts are stated over.

use vstd::prelude::*;

verus! {

/// The version tag from the header: one of the two recognized version strings.
#[derive(Clone, Copy, Debug, PartialEq, Eq, Structural)]
pub enum Version {
    GIF89a,
    GIF87a,
}

/// A typed decode failure. Every decoding function fails fast and propagates
/// one of these upward unchanged.
#[derive(Clone, Copy, Debug, PartialEq, Eq, Structural)]
pub enum DecodeError {
    /// Fewer bytes remain than a field or a sub-block chain requires.
    Truncated,
    /// Expected fixed marker bytes were not found.
    TagMismatch,
    /// The version string is not one of the two recognized literals.
    UnknownVersion,
    /// A mandatory zero terminator byte is non-zero.
    MalformedTerminator,
    /// None of the four block variants matched at the current position.
    UnrecognizedBlock,
}

/// The fixed fields of a graphic control extension. The mandatory trailing
/// zero terminator is consumed by the decoder but not stored.
#[derive(Clone, Copy, Debug, PartialEq, Eq, Structural)]
pub struct GraphicControlExtension {
    pub byte_size: u8,
    pub packed_field: u8,
    pub delay_time: u16,
    pub transparent_color_index: u8,
}

/// The fixed fields of an image descriptor. The packed flags byte sizes an
/// optional local color table exactly as the header's flags byte sizes the
/// global one.
#[derive(Clone, Copy, Debug, PartialEq, Eq, Structural)]
pub struct ImageDescriptor {
    pub left: u16,
    pub top: u16,
    pub width: u16,
    pub height: u16,
    pub packed_field: u8,
}

/// A sub-block chain: the exact byte span of zero or more length-prefixed,
/// non-empty chunks followed by the zero-length terminator chunk, terminator
/// included. The chunk framing is an encoding artifact; the logical payload
/// is the concatenation of the chunk bodies.
#[derive(Clone, Debug)]
pub struct SubBlocks(pub Vec<u8>);

impl View for SubBlocks {
    type V = Seq<u8>;

    open spec fn view(&self) -> Seq<u8> {
        self.0@
    }
}

/// Raw, undecoded compressed pixel data: the LZW minimum code size byte
/// followed by the sub-block chain that carries the stream.
#[derive(Clone, Debug)]
pub struct ImageData {
    pub lzw_minimum_code_size: u8,
    pub data: SubBlocks,
}

/// Mathematical view of `ImageData`.
pub struct ImageDataV {
    pub lzw_minimum_code_size: u8,
    pub data: Seq<u8>,
}

impl View for ImageData {
    type V = ImageDataV;

    open spec fn view(&self) -> ImageDataV {
        ImageDataV { lzw_minimum_code_size: self.lzw_minimum_code_size, data: self.data@ }
    }
}

/// One self-contained, tag-prefixed unit of container content. Exactly one
/// variant is active per decoded block.
#[derive(Clone, Debug)]
pub enum Block {
    GraphicBlock {
        graphic_control_extension: Option<GraphicControlExtension>,
        image_descriptor: ImageDescriptor,
        local_color_table: Option<Vec<u8>>,
        image_data: ImageData,
    },
    TextBlock {
        graphic_control_extension: Option<GraphicControlExtension>,
        text: SubBlocks,
    },
    ApplicationExtension(SubBlocks),
    CommentExtension(SubBlocks),
}

/// Mathematical view of `Block`.
pub enum BlockV {
    GraphicBlock {
        graphic_control_extension: Option<GraphicControlExtension>,
        image_descriptor: ImageDescriptor,
        local_color_table: Option<Seq<u8>>,
        image_data: ImageDataV,
    },
    TextBlock {
        graphic_control_extension: Option<GraphicControlExtension>,
        text: Seq<u8>,
    },
    ApplicationExtension(Seq<u8>),
    CommentExtension(Seq<u8>),
}

impl View for Block {
    type V = BlockV;

    open spec fn view(&self) -> BlockV {
        match self {
            Block::GraphicBlock {
                graphic_control_extension,
                image_descriptor,
                local_color_table,
                image_data,
            } => BlockV::GraphicBlock {
                graphic_control_extension: *graphic_control_extension,
                image_descriptor: *image_descriptor,
                local_color_table: match local_color_table {
                    Some(t) => Some(t@),
                    None => None,
                },
                image_data: image_data@,
            },
            Block::TextBlock { graphic_control_extension, text } => BlockV::TextBlock {
                graphic_control_extension: *graphic_control_extension,
                text: text@,
            },
            Block::ApplicationExtension(d) => BlockV::ApplicationExtension(d@),
            Block::CommentExtension(d) => BlockV::CommentExtension(d@),
        }
    }
}

/// The fully decoded container: canvas metadata, the optional global color
/// table, and the block sequence in encounter order.
#[derive(Clone, Debug)]
pub struct GIF {
    pub version: Version,
    pub width: u16,
    pub height: u16,
    pub global_color_table: Option<Vec<u8>>,
    pub data: Vec<Block>,
}

/// Mathematical view of `GIF`.
pub struct GifV {
    pub version: Version,
    pub width: u16,
    pub height: u16,
    pub global_color_table: Option<Seq<u8>>,
    pub data: Seq<BlockV>,
}

impl View for GIF {
    type V = GifV;

    open spec fn view(&self) -> GifV {
        GifV {
            version: self.version,
            width: self.width,
            height: self.height,
            global_color_table: match &self.global_color_table {
                Some(t) => Some(t@),
                None => None,
            },
            data: self.data@.map_values(|b: Block| b@),
        }
    }
}

/// Byte-for-byte equality of two owned buffers.
fn eq_bytes(a: &Vec<u8>, b: &Vec<u8>) -> (r: bool)
    ensures
        r == (a@ == b@),
{
    if a.len() != b.len() {
        return false;
    }
    let mut i: usize = 0;
    while i < a.len()
        invariant
            i <= a.len(),
            a.len() == b.len(),
            forall|k: int| 0 <= k < i ==> a@[k] == b@[k],
        decreases a.len() - i,
    {
        if a[i] != b[i] {
            return false;
        }
        i = i + 1;
    }
    proof {
        assert(a@ =~= b@);
    }
    true
}

/// Equality of two optional owned buffers, compared by contents.
fn eq_opt_bytes(a: &Option<Vec<u8>>, b: &Option<Vec<u8>>) -> (r: bool)
    ensures
        r == ((match a {
            Some(v) => Some(v@),
            None => None,
        }) == (match b {
            Some(v) => Some(v@),
            None => None,
        })),
{
    match (a, b) {
        (None, None) => true,
        (Some(x), Some(y)) => eq_bytes(x, y),
        _ => false,
    }
}

/// Equality of two optional graphic control extensions.
fn eq_opt_gce(a: &Option<GraphicControlExtension>, b: &Option<GraphicControlExtension>) -> (r:
    bool)
    ensures
        r == (a == b),
{
    match (a, b) {
        (None, None) => true,
        (Some(x), Some(y)) => x == y,
        _ => false,
    }
}

impl PartialEq for SubBlocks {
    fn eq(&self, other: &SubBlocks) -> (r: bool) {
        eq_bytes(&self.0, &other.0)
    }
}

impl vstd::std_specs::cmp::PartialEqSpecImpl for SubBlocks {
    open spec fn obeys_eq_spec() -> bool {
        true
    }

    open spec fn eq_spec(&self, other: &SubBlocks) -> bool {
        self@ == other@
    }
}

impl PartialEq for ImageData {
    fn eq(&self, other: &ImageData) -> (r: bool) {
        self.lzw_minimum_code_size == other.lzw_minimum_code_size && self.data == other.data
    }
}

impl vstd::std_specs::cmp::PartialEqSpecImpl for ImageData {
    open spec fn obeys_eq_spec() -> bool {
        true
    }

    open spec fn eq_spec(&self, other: &ImageData) -> bool {
        self@ == other@
    }
}

impl PartialEq for Block {
    fn eq(&self, other: &Block) -> (r: bool) {
        match (self, other) {
            (
                Block::GraphicBlock {
                    graphic_control_extension: g1,
                    image_descriptor: d1,
                    local_color_table: t1,
                    image_data: i1,
                },
                Block::GraphicBlock {
                    graphic_control_extension: g2,
                    image_descriptor: d2,
                    local_color_table: t2,
                    image_data: i2,
                },
            ) => eq_opt_gce(g1, g2) && d1 == d2 && eq_opt_bytes(t1, t2) && i1 == i2,
            (
                Block::TextBlock { graphic_control_extension: g1, text: t1 },
                Block::TextBlock { graphic_control_extension: g2, text: t2 },
            ) => eq_opt_gce(g1, g2) && t1 == t2,
            (Block::ApplicationExtension(a), Block::ApplicationExtension(b)) => a == b,
            (Block::CommentExtension(a), Block::CommentExtension(b)) => a == b,
            _ => false,
        }
    }
}

impl vstd::std_specs::cmp::PartialEqSpecImpl for Block {
    open spec fn obeys_eq_spec() -> bool {
        true
    }

    open spec fn eq_spec(&self, other: &Block) -> bool {
        self@ == other@
    }
}

impl PartialEq for GIF {
    fn eq(&self, other: &GIF) -> (r: bool) {
        if !(self.version == other.version && self.width == other.width && self.height
            == other.height && eq_opt_bytes(&self.global_color_table, &other.global_color_table)) {
            return false;
        }
        if self.data.len() != other.data.len() {
            proof {
                assert(self@.data.len() != other@.data.len());
            }
            return false;
        }
        let mut i: usize = 0;
        while i < self.data.len()
            invariant
                i <= self.data.len(),
                self.data.len() == other.data.len(),
                forall|k: int| 0 <= k < i ==> self.data@[k]@ == other.data@[k]@,
            decreases self.data.len() - i,
        {
            if !(self.data[i] == other.data[i]) {
                proof {
                    assert(self@.data[i as int] != other@.data[i as int]);
                }
                return false;
            }
            i = i + 1;
        }
        proof {
            assert(self@.data =~= other@.data);
        }
        true
    }
}

impl vstd::std_specs::cmp::PartialEqSpecImpl for GIF {
    open spec fn obeys_eq_spec() -> bool {
        true
    }

    open spec fn eq_spec(&self, other: &GIF) -> bool {
        self@ == other@
    }
}

} // verus!
