//! Decoder for the GIF container format at the block level.
//!
//! The decoder walks an in-memory byte buffer once, from the fixed header
//! through the sequence of tag-prefixed data blocks, and returns a structured
//! value holding the canvas metadata, the color tables and the raw encoded
//! payloads. It performs no pixel decompression: image data is handed back as
//! the undecoded sub-block chain that carries it.

pub mod model;
pub mod subblocks;
pub mod header;
pub mod blocks;
pub mod parser;
pub mod codec;

pub use crate::model::{
    Block, DecodeError, GraphicControlExtension, ImageData, ImageDescriptor, SubBlocks, Version,
    GIF,
};
pub use crate::parser::parse_gif;
pub use crate::subblocks::{data_subblocks, SubBlocksIterator};
