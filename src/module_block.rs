//! Block entries: the raw or compressed segments that make up one file entry.

use vstd::prelude::*;

use crate::errors::Error;
use crate::extensions::{fits, get_u32, u32_at, window, ByteReader, Readable};

verus! {

/// One segment of an entry's data: where its bytes lie in the module and where
/// they land in the entry's decompressed buffer.
#[derive(Debug, Clone, Copy, PartialEq, Eq, Default)]
pub struct ModuleBlockEntry {
    /// Offset of the segment's bytes after the start of the entry's data.
    pub compressed_offset: u32,
    /// Number of bytes stored for the segment.
    pub compressed_size: u32,
    /// Offset of the segment in the entry's decompressed buffer.
    pub decompressed_offset: u32,
    /// Number of bytes the segment fills in the decompressed buffer.
    pub decompressed_size: u32,
    /// Whether the stored bytes must be decompressed.
    pub is_compressed: bool,
}

/// The block entry that 20 bytes hold.
pub open spec fn block_from(b: Seq<u8>) -> ModuleBlockEntry {
    ModuleBlockEntry {
        compressed_offset: u32_at(b, 0),
        compressed_size: u32_at(b, 4),
        decompressed_offset: u32_at(b, 8),
        decompressed_size: u32_at(b, 12),
        is_compressed: u32_at(b, 16) != 0,
    }
}

impl Readable for ModuleBlockEntry {
    open spec fn error_at(data: Seq<u8>, pos: int) -> Option<Error> {
        if fits(data, pos, 20) { None } else { Some(Error::ReadError) }
    }

    open spec fn end_of(data: Seq<u8>, pos: int) -> int {
        pos + 20
    }

    open spec fn reads_as(data: Seq<u8>, pos: int, v: Self) -> bool {
        v == block_from(window(data, pos, 20))
    }

    fn read(&mut self, reader: &mut ByteReader) -> (r: Result<(), Error>) {
        let b = reader.read_bytes(20)?;
        let b = b.as_slice();
        self.compressed_offset = get_u32(b, 0);
        self.compressed_size = get_u32(b, 4);
        self.decompressed_offset = get_u32(b, 8);
        self.decompressed_size = get_u32(b, 12);
        self.is_compressed = get_u32(b, 16) != 0;
        Ok(())
    }
}

} // verus!
