//! The cross-reference records of a tag: datablocks, struct definitions,
//! dependencies, tag references and data references.

use vstd::prelude::*;

use crate::errors::{Error, TagError};
use crate::extensions::{
    fits, get_i32, get_u128, get_u16, get_u32, get_u64, group_at, group_text, i32_at, u128_at, u16_at,
    u32_at, u64_at, window, ByteReader, Readable,
};

verus! {

/// Section of a tag that a datablock lies in.
#[derive(Debug, Clone, Copy, PartialEq, Eq, Default)]
pub enum TagSectionType {
    /// The tag header.
    #[default]
    Header,
    /// The tag's own data.
    TagData,
    /// A child resource's data.
    ResourceData,
    /// External resource data.
    ActualResource,
}

/// The section kind that a stored number stands for, if any.
pub open spec fn section_of(n: u16) -> Option<TagSectionType> {
    if n == 0 {
        Some(TagSectionType::Header)
    } else if n == 1 {
        Some(TagSectionType::TagData)
    } else if n == 2 {
        Some(TagSectionType::ResourceData)
    } else if n == 3 {
        Some(TagSectionType::ActualResource)
    } else {
        None
    }
}

impl TagSectionType {
    /// The section kind that `n` stands for; fails for numbers past the known four.
    pub fn try_from_primitive(n: u16) -> (r: Result<TagSectionType, TagError>)
        ensures
            match section_of(n) {
                Some(s) => r == Ok::<TagSectionType, TagError>(s),
                None => r == Err::<TagSectionType, TagError>(TagError::InvalidTagSection(n)),
            },
    {
        if n == 0 {
            Ok(TagSectionType::Header)
        } else if n == 1 {
            Ok(TagSectionType::TagData)
        } else if n == 2 {
            Ok(TagSectionType::ResourceData)
        } else if n == 3 {
            Ok(TagSectionType::ActualResource)
        } else {
            Err(TagError::InvalidTagSection(n))
        }
    }
}

/// A described byte region of a tag's decompressed buffer.
#[derive(Debug, Clone, Copy, PartialEq, Eq, Default)]
pub struct TagDataBlock {
    /// Length of the region in bytes.
    pub entry_size: u32,
    /// Unused bytes before the offset.
    pub padding: u16,
    /// Section the region lies in.
    pub section_type: TagSectionType,
    /// Offset of the region from the start of the tag's buffer.
    pub offset: u64,
}

impl TagDataBlock {
    /// A datablock with every field zero.
    pub fn new() -> (r: Self)
        ensures
            r.entry_size == 0 && r.padding == 0 && r.offset == 0,
            r.section_type == TagSectionType::Header,
    {
        TagDataBlock { entry_size: 0, padding: 0, section_type: TagSectionType::Header, offset: 0 }
    }
}

impl Readable for TagDataBlock {
    open spec fn error_at(data: Seq<u8>, pos: int) -> Option<Error> {
        if !fits(data, pos, 8) {
            Some(Error::ReadError)
        } else if section_of(u16_at(data, pos + 6)) is None {
            Some(Error::TagError(TagError::InvalidTagSection(u16_at(data, pos + 6))))
        } else if !fits(data, pos, 16) {
            Some(Error::ReadError)
        } else {
            None
        }
    }

    open spec fn end_of(data: Seq<u8>, pos: int) -> int {
        pos + 16
    }

    open spec fn reads_as(data: Seq<u8>, pos: int, v: Self) -> bool {
        let b = window(data, pos, 16);
        v == TagDataBlock {
            entry_size: u32_at(b, 0),
            padding: u16_at(b, 4),
            section_type: section_of(u16_at(b, 6))->0,
            offset: u64_at(b, 8),
        }
    }

    fn read(&mut self, reader: &mut ByteReader) -> (r: Result<(), Error>) {
        let ghost data = reader.bytes();
        let ghost pos = reader.at();
        let head = reader.read_bytes(8)?;
        let section = match TagSectionType::try_from_primitive(get_u16(head.as_slice(), 6)) {
            Ok(s) => s,
            Err(e) => {
                assert(window(data, pos, 8).subrange(6, 8) =~= window(data, pos + 6, 2));
                return Err(Error::TagError(e));
            },
        };
        reader.seek(reader.stream_position() - 8);
        let b = reader.read_bytes(16)?;
        let b = b.as_slice();
        assert(window(data, pos, 8).subrange(6, 8) =~= window(data, pos + 6, 2));
        assert(window(data, pos, 16).subrange(6, 8) =~= window(data, pos + 6, 2));
        self.entry_size = get_u32(b, 0);
        self.padding = get_u16(b, 4);
        self.section_type = section;
        self.offset = get_u64(b, 8);
        Ok(())
    }
}

/// What a struct definition points at.
#[derive(Debug, Clone, Copy, PartialEq, Eq, Default)]
pub enum TagStructType {
    /// The root of the tag's structure.
    #[default]
    MainStruct,
    /// The elements of an out-of-line array.
    TagBlock,
    /// A child resource.
    Resource,
    /// External resource data.
    Custom,
    /// Unknown.
    Literal,
}

/// The struct kind that a stored number stands for, if any.
pub open spec fn struct_type_of(n: u16) -> Option<TagStructType> {
    if n == 0 {
        Some(TagStructType::MainStruct)
    } else if n == 1 {
        Some(TagStructType::TagBlock)
    } else if n == 2 {
        Some(TagStructType::Resource)
    } else if n == 3 {
        Some(TagStructType::Custom)
    } else if n == 4 {
        Some(TagStructType::Literal)
    } else {
        None
    }
}

impl TagStructType {
    /// The struct kind that `n` stands for; fails for numbers past the known five.
    pub fn try_from_primitive(n: u16) -> (r: Result<TagStructType, TagError>)
        ensures
            match struct_type_of(n) {
                Some(s) => r == Ok::<TagStructType, TagError>(s),
                None => r == Err::<TagStructType, TagError>(TagError::InvalidTagStruct(n)),
            },
    {
        if n == 0 {
            Ok(TagStructType::MainStruct)
        } else if n == 1 {
            Ok(TagStructType::TagBlock)
        } else if n == 2 {
            Ok(TagStructType::Resource)
        } else if n == 3 {
            Ok(TagStructType::Custom)
        } else if n == 4 {
            Ok(TagStructType::Literal)
        } else {
            Err(TagError::InvalidTagStruct(n))
        }
    }
}

/// A struct definition: links the field at `(field_block, field_offset)` to
/// the datablock (or resource) at `target_index`.
#[derive(Debug, Clone, Copy, PartialEq, Eq, Default)]
pub struct TagStruct {
    /// Identifier of the structure.
    pub guid: u128,
    /// What the definition points at.
    pub struct_type: TagStructType,
    /// Unknown, kept as read.
    pub unknown: u16,
    /// Index of the datablock (or resource) pointed at; -1 where it points at nothing.
    pub target_index: i32,
    /// Index of the datablock holding the field that refers to this struct; -1 for the root.
    pub field_block: i32,
    /// Offset of that field inside its datablock.
    pub field_offset: u32,
}

impl Readable for TagStruct {
    open spec fn error_at(data: Seq<u8>, pos: int) -> Option<Error> {
        if !fits(data, pos, 18) {
            Some(Error::ReadError)
        } else if struct_type_of(u16_at(data, pos + 16)) is None {
            Some(Error::TagError(TagError::InvalidTagStruct(u16_at(data, pos + 16))))
        } else if !fits(data, pos, 32) {
            Some(Error::ReadError)
        } else {
            None
        }
    }

    open spec fn end_of(data: Seq<u8>, pos: int) -> int {
        pos + 32
    }

    open spec fn reads_as(data: Seq<u8>, pos: int, v: Self) -> bool {
        let b = window(data, pos, 32);
        v == TagStruct {
            guid: u128_at(b, 0),
            struct_type: struct_type_of(u16_at(b, 16))->0,
            unknown: u16_at(b, 18),
            target_index: i32_at(b, 20),
            field_block: i32_at(b, 24),
            field_offset: u32_at(b, 28),
        }
    }

    fn read(&mut self, reader: &mut ByteReader) -> (r: Result<(), Error>) {
        let ghost data = reader.bytes();
        let ghost pos = reader.at();
        let head = reader.read_bytes(18)?;
        let kind = match TagStructType::try_from_primitive(get_u16(head.as_slice(), 16)) {
            Ok(s) => s,
            Err(e) => {
                assert(window(data, pos, 18).subrange(16, 18) =~= window(data, pos + 16, 2));
                return Err(Error::TagError(e));
            },
        };
        reader.seek(reader.stream_position() - 18);
        let b = reader.read_bytes(32)?;
        let b = b.as_slice();
        assert(window(data, pos, 18).subrange(16, 18) =~= window(data, pos + 16, 2));
        assert(window(data, pos, 32).subrange(16, 18) =~= window(data, pos + 16, 2));
        self.guid = get_u128(b, 0);
        self.struct_type = kind;
        self.unknown = get_u16(b, 18);
        self.target_index = get_i32(b, 20);
        self.field_block = get_i32(b, 24);
        self.field_offset = get_u32(b, 28);
        Ok(())
    }
}

/// A tag that this tag depends on.
#[derive(Debug, Clone, PartialEq, Eq, Default)]
pub struct TagDependency {
    /// Four-character group code of the tag.
    pub tag_group: String,
    /// Offset of the tag's name in the string table (versions before Season 3).
    pub name_offset: u32,
    /// Asset identifier.
    pub asset_id: u64,
    /// Global identifier of the tag.
    pub tag_id: i32,
    /// Index of the parent.
    pub parent_index: i32,
    /// Name from the string table, where the version has one.
    pub name: Option<String>,
}

impl Readable for TagDependency {
    open spec fn error_at(data: Seq<u8>, pos: int) -> Option<Error> {
        if !fits(data, pos, 24) {
            Some(Error::ReadError)
        } else if group_text(window(data, pos, 4)) is None {
            Some(Error::Utf8ReadingError)
        } else {
            None
        }
    }

    open spec fn end_of(data: Seq<u8>, pos: int) -> int {
        pos + 24
    }

    open spec fn reads_as(data: Seq<u8>, pos: int, v: Self) -> bool {
        let b = window(data, pos, 24);
        &&& v.tag_group@ == group_text(window(b, 0, 4))->0
        &&& v.name_offset == u32_at(b, 4)
        &&& v.asset_id == u64_at(b, 8)
        &&& v.tag_id == i32_at(b, 16)
        &&& v.parent_index == i32_at(b, 20)
        &&& v.name is None
    }

    fn read(&mut self, reader: &mut ByteReader) -> (r: Result<(), Error>) {
        let ghost data = reader.bytes();
        let ghost pos = reader.at();
        let b = reader.read_bytes(24)?;
        let b = b.as_slice();
        assert(window(b@, 0, 4) =~= window(data, pos, 4));
        self.tag_group = group_at(b, 0)?;
        self.name_offset = get_u32(b, 4);
        self.asset_id = get_u64(b, 8);
        self.tag_id = get_i32(b, 16);
        self.parent_index = get_i32(b, 20);
        self.name = None;
        Ok(())
    }
}

/// A reference from a field of this tag to another tag.
#[derive(Debug, Clone, PartialEq, Eq, Default)]
pub struct TagReference {
    /// Index of the datablock holding the field.
    pub field_block: i32,
    /// Offset of the field inside its datablock.
    pub field_offset: u32,
    /// Offset of the name in the string table (versions before Season 3).
    pub name_offset: u32,
    /// Index of the dependency referred to; -1 for none.
    pub dependency_index: i32,
    /// Name from the string table, where the version has one.
    pub name: Option<String>,
}

impl Readable for TagReference {
    open spec fn error_at(data: Seq<u8>, pos: int) -> Option<Error> {
        if fits(data, pos, 16) { None } else { Some(Error::ReadError) }
    }

    open spec fn end_of(data: Seq<u8>, pos: int) -> int {
        pos + 16
    }

    open spec fn reads_as(data: Seq<u8>, pos: int, v: Self) -> bool {
        let b = window(data, pos, 16);
        v == TagReference {
            field_block: i32_at(b, 0),
            field_offset: u32_at(b, 4),
            name_offset: u32_at(b, 8),
            dependency_index: i32_at(b, 12),
            name: None,
        }
    }

    fn read(&mut self, reader: &mut ByteReader) -> (r: Result<(), Error>) {
        let b = reader.read_bytes(16)?;
        let b = b.as_slice();
        self.field_block = get_i32(b, 0);
        self.field_offset = get_u32(b, 4);
        self.name_offset = get_u32(b, 8);
        self.dependency_index = get_i32(b, 12);
        self.name = None;
        Ok(())
    }
}

/// A reference from a field of this tag to a blob of data.
#[derive(Debug, Clone, Copy, PartialEq, Eq, Default)]
pub struct TagDataReference {
    /// Index of the struct holding the field.
    pub parent_struct_index: i32,
    /// Unknown, kept as read.
    pub unknown: i32,
    /// Index of the struct holding the data; -1 for none.
    pub target_index: i32,
    /// Index of the datablock holding the field.
    pub field_block: u32,
    /// Offset of the field inside its datablock.
    pub field_offset: u32,
}

impl TagDataReference {
    /// A data reference with every field zero.
    pub fn new() -> (r: Self)
        ensures
            r.parent_struct_index == 0 && r.unknown == 0 && r.target_index == 0,
            r.field_block == 0 && r.field_offset == 0,
    {
        TagDataReference { parent_struct_index: 0, unknown: 0, target_index: 0, field_block: 0, field_offset: 0 }
    }
}

impl Readable for TagDataReference {
    open spec fn error_at(data: Seq<u8>, pos: int) -> Option<Error> {
        if fits(data, pos, 20) { None } else { Some(Error::ReadError) }
    }

    open spec fn end_of(data: Seq<u8>, pos: int) -> int {
        pos + 20
    }

    open spec fn reads_as(data: Seq<u8>, pos: int, v: Self) -> bool {
        let b = window(data, pos, 20);
        v == TagDataReference {
            parent_struct_index: i32_at(b, 0),
            unknown: i32_at(b, 4),
            target_index: i32_at(b, 8),
            field_block: u32_at(b, 12),
            field_offset: u32_at(b, 16),
        }
    }

    fn read(&mut self, reader: &mut ByteReader) -> (r: Result<(), Error>) {
        let b = reader.read_bytes(20)?;
        let b = b.as_slice();
        self.parent_struct_index = get_i32(b, 0);
        self.unknown = get_i32(b, 4);
        self.target_index = get_i32(b, 8);
        self.field_block = get_u32(b, 12);
        self.field_offset = get_u32(b, 16);
        Ok(())
    }
}

} // verus!
