//! The tag header: the sizes of the tables that follow it and of the tag's data.

use vstd::prelude::*;

use crate::errors::{Error, TagError};
use crate::extensions::{fits, get_i32, get_i64, get_u32, get_u8, i32_at, i64_at, u32_at, u8_at, window, ByteReader};

verus! {

/// "ucsh" read as a little-endian `u32`.
pub const TAG_MAGIC: u32 = 0x6873_6375;

/// The only tag version this library reads.
pub const TAG_VERSION: i32 = 27;

/// Tag header: counts of the five tables and sizes of the tag's sections.
#[derive(Debug, Clone, Copy, PartialEq, Eq, Default)]
pub struct TagHeader {
    /// Should be "ucsh".
    pub magic: u32,
    /// Should be 27.
    pub version: i32,
    /// Identifier of the root structure.
    pub root_struct_guid: i64,
    /// Checksum of unknown algorithm.
    pub checksum: i64,
    /// Number of dependency records.
    pub dependency_count: u32,
    /// Number of datablock records.
    pub datablock_count: u32,
    /// Number of struct definition records.
    pub tagstruct_count: u32,
    /// Number of data reference records.
    pub data_reference_count: u32,
    /// Number of tag reference records.
    pub tag_reference_count: u32,
    /// Size in bytes of the string table.
    pub string_table_size: u32,
    /// Size in bytes of the zoneset section.
    pub zoneset_size: u32,
    /// Unknown, kept as read.
    pub unknown: u32,
    /// Offset at which the tag's data begins, whatever the tables before it took.
    pub header_size: u32,
    /// Size of the tag's data.
    pub data_size: u32,
    /// Size of the resource data after it.
    pub resource_size: u32,
    /// Size of the external resource data.
    pub actual_resource_size: u32,
    /// Power of two that the header is aligned to.
    pub header_alignment: u8,
    /// Power of two that the tag data is aligned to.
    pub tag_alignment: u8,
    /// Power of two that the resource data is aligned to.
    pub resource_alignment: u8,
    /// Power of two that the external resource data is aligned to.
    pub actual_resource_alignment: u8,
    /// Whether the tag is a resource.
    pub is_resource: bool,
}

/// The header that 80 bytes hold, once magic and version are known to be right.
pub open spec fn tag_header_from(b: Seq<u8>) -> TagHeader {
    TagHeader {
        magic: TAG_MAGIC,
        version: TAG_VERSION,
        root_struct_guid: i64_at(b, 8),
        checksum: i64_at(b, 16),
        dependency_count: u32_at(b, 24),
        datablock_count: u32_at(b, 28),
        tagstruct_count: u32_at(b, 32),
        data_reference_count: u32_at(b, 36),
        tag_reference_count: u32_at(b, 40),
        string_table_size: u32_at(b, 44),
        zoneset_size: u32_at(b, 48),
        unknown: u32_at(b, 52),
        header_size: u32_at(b, 56),
        data_size: u32_at(b, 60),
        resource_size: u32_at(b, 64),
        actual_resource_size: u32_at(b, 68),
        header_alignment: u8_at(b, 72),
        tag_alignment: u8_at(b, 73),
        resource_alignment: u8_at(b, 74),
        actual_resource_alignment: u8_at(b, 75),
        is_resource: u32_at(b, 76) != 0,
    }
}

/// The first error met reading a tag header at `pos`: the magic is checked
/// first, then the version, and only then are the other fields read.
pub open spec fn tag_header_error(data: Seq<u8>, pos: int) -> Option<Error> {
    if !fits(data, pos, 4) {
        Some(Error::ReadError)
    } else if u32_at(data, pos) != TAG_MAGIC {
        Some(Error::TagError(TagError::IncorrectMagic(u32_at(data, pos))))
    } else if !fits(data, pos, 8) {
        Some(Error::ReadError)
    } else if i32_at(data, pos + 4) != TAG_VERSION {
        Some(Error::TagError(TagError::IncorrectVersion(i32_at(data, pos + 4))))
    } else if !fits(data, pos, 80) {
        Some(Error::ReadError)
    } else {
        None
    }
}

impl TagHeader {
    /// A header with every field zero.
    pub fn new() -> (r: Self)
        ensures
            r.magic == 0 && r.version == 0 && r.header_size == 0,
            r.dependency_count == 0 && r.datablock_count == 0 && r.tagstruct_count == 0,
            r.data_reference_count == 0 && r.tag_reference_count == 0,
    {
        TagHeader {
            magic: 0,
            version: 0,
            root_struct_guid: 0,
            checksum: 0,
            dependency_count: 0,
            datablock_count: 0,
            tagstruct_count: 0,
            data_reference_count: 0,
            tag_reference_count: 0,
            string_table_size: 0,
            zoneset_size: 0,
            unknown: 0,
            header_size: 0,
            data_size: 0,
            resource_size: 0,
            actual_resource_size: 0,
            header_alignment: 0,
            tag_alignment: 0,
            resource_alignment: 0,
            actual_resource_alignment: 0,
            is_resource: false,
        }
    }

    /// Reads the header, rejecting a wrong magic or version before reading anything else.
    pub fn read(&mut self, reader: &mut ByteReader) -> (r: Result<(), Error>)
        ensures
            final(reader).bytes() == old(reader).bytes(),
            match tag_header_error(old(reader).bytes(), old(reader).at()) {
                Some(e) => r == Err::<(), Error>(e),
                None => r is Ok && *final(self) == tag_header_from(window(old(reader).bytes(), old(reader).at(), 80))
                    && final(reader).at() == old(reader).at() + 80,
            },
            r is Err ==> *final(self) == *old(self),
    {
        let start = reader.stream_position();
        let magic = reader.read_u32()?;
        if magic != TAG_MAGIC {
            return Err(Error::TagError(TagError::IncorrectMagic(magic)));
        }
        let version = reader.read_i32()?;
        if version != TAG_VERSION {
            return Err(Error::TagError(TagError::IncorrectVersion(version)));
        }
        reader.seek(start);
        let b = reader.read_bytes(80)?;
        let b = b.as_slice();
        self.magic = magic;
        self.version = version;
        self.root_struct_guid = get_i64(b, 8);
        self.checksum = get_i64(b, 16);
        self.dependency_count = get_u32(b, 24);
        self.datablock_count = get_u32(b, 28);
        self.tagstruct_count = get_u32(b, 32);
        self.data_reference_count = get_u32(b, 36);
        self.tag_reference_count = get_u32(b, 40);
        self.string_table_size = get_u32(b, 44);
        self.zoneset_size = get_u32(b, 48);
        self.unknown = get_u32(b, 52);
        self.header_size = get_u32(b, 56);
        self.data_size = get_u32(b, 60);
        self.resource_size = get_u32(b, 64);
        self.actual_resource_size = get_u32(b, 68);
        self.header_alignment = get_u8(b, 72);
        self.tag_alignment = get_u8(b, 73);
        self.resource_alignment = get_u8(b, 74);
        self.actual_resource_alignment = get_u8(b, 75);
        self.is_resource = get_u32(b, 76) != 0;
        Ok(())
    }
}

/// A tag whose first four bytes are not "ucsh" is refused for its magic,
/// whatever follows; one with the right magic and a version other than 27 is
/// refused for its version, whatever follows.
pub proof fn lemma_tag_header_checked_first(data: Seq<u8>, pos: int)
    requires
        fits(data, pos, 8),
    ensures
        u32_at(data, pos) != TAG_MAGIC ==> tag_header_error(data, pos)
            == Some(Error::TagError(TagError::IncorrectMagic(u32_at(data, pos)))),
        u32_at(data, pos) == TAG_MAGIC && i32_at(data, pos + 4) != TAG_VERSION ==> tag_header_error(data, pos)
            == Some(Error::TagError(TagError::IncorrectVersion(i32_at(data, pos + 4)))),
{
}

} // verus!
