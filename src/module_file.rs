//! Module file entries: one per archived blob, with its flags, sizes and place.

use vstd::prelude::*;

use crate::errors::{Error, TagError};
use crate::resolver::{main_struct, record_ok, resolve_root, Record, Shape};
use crate::extensions::{
    fits, get_i128, get_i32, get_u16, get_u32, get_u64, get_u8, group_at, group_text, i32_at, u128_at, u16_at,
    u32_at, u64_at, u8_at, window, ByteReader, Readable,
};
use crate::module_header::{version_number, ModuleVersion};
use crate::tag_header::tag_header_error;
use crate::tag_loader::{tag_file_read, tag_reads, TagFile};

verus! {

/// The entry's data is compressed.
pub const COMPRESSED: u8 = 0b001;
/// The entry is assembled from several blocks.
pub const HAS_BLOCKS: u8 = 0b010;
/// The entry is raw data without a tag header.
pub const RAW_FILE: u8 = 0b100;

/// Flags that say how an entry is to be read.
#[derive(Debug, Clone, Copy, PartialEq, Eq, Default)]
pub struct FileEntryFlags {
    /// The known flag bits.
    pub bits: u8,
}

impl FileEntryFlags {
    /// The flags of `bits`, unknown bits dropped.
    pub fn from_bits_truncate(bits: u8) -> (r: Self)
        ensures
            r.bits == bits % 8,
    {
        FileEntryFlags { bits: bits % 8 }
    }

    /// Whether every bit of `flag` is set.
    pub fn contains(&self, flag: u8) -> (r: bool)
        ensures
            r == (self.bits & flag == flag),
    {
        self.bits & flag == flag
    }
}

/// The data lies in the auxiliary ("hd1") file.
pub const USE_HD1: u16 = 0b01;
/// The data lies in a reserved location that this library has no file for.
pub const USE_HD2: u16 = 0b10;

/// Where an entry's data lies: the two flag bits above its 48-bit offset.
#[derive(Debug, Clone, Copy, PartialEq, Eq, Default)]
pub struct DataOffsetType {
    /// The known flag bits.
    pub bits: u16,
}

impl DataOffsetType {
    /// The location flags of `bits`, unknown bits dropped.
    pub fn from_bits_truncate(bits: u16) -> (r: Self)
        ensures
            r.bits == bits % 4,
    {
        DataOffsetType { bits: bits % 4 }
    }

    /// Whether the data lies in the auxiliary file.
    pub fn uses_hd1(&self) -> (r: bool)
        ensures
            r == (self.bits % 2 == 1),
    {
        self.bits % 2 == 1
    }

    /// Whether the data lies in the reserved location, which cannot be read.
    pub fn is_invalid(&self) -> (r: bool)
        ensures
            r == (self.bits / 2 % 2 == 1),
    {
        self.bits / 2 % 2 == 1
    }
}

/// Number of bytes of a stored entry.
pub const ENTRY_SIZE: usize = 88;

/// One archived blob: its flags, blocks, resources, sizes and place in the module.
#[derive(Debug, Default)]
pub struct ModuleFileEntry {
    /// Unknown, kept as read.
    pub unknown: u8,
    /// How the entry is to be read.
    pub flags: FileEntryFlags,
    /// Number of blocks that make up the entry.
    pub block_count: u16,
    /// Index of the entry's first block in the module's block table.
    pub block_index: i32,
    /// Index of the entry's first resource in the module's resource table.
    pub resource_index: i32,
    /// Four-character group code.
    pub tag_group: String,
    /// Offset of the entry's data after the start of the module's data (48 bits).
    pub data_offset: u64,
    /// Where the data lies.
    pub data_offset_flags: DataOffsetType,
    /// Number of bytes stored.
    pub total_compressed_size: u32,
    /// Number of bytes once decompressed.
    pub total_uncompressed_size: u32,
    /// Global identifier; -1 for a resource.
    pub tag_id: i32,
    /// Size of the header in the decompressed buffer.
    pub uncompressed_header_size: u32,
    /// Size of the tag data in the decompressed buffer.
    pub uncompressed_tag_data_size: u32,
    /// Size of the resource data in the decompressed buffer.
    pub uncompressed_resource_data_size: u32,
    /// Size of the external resource data in the decompressed buffer.
    pub uncompressed_actual_resource_size: u32,
    /// Power of two that the header is aligned to.
    pub header_alignment: u8,
    /// Power of two that the tag data is aligned to.
    pub tag_data_alignment: u8,
    /// Power of two that the resource data is aligned to.
    pub resource_data_alignment: u8,
    /// Power of two that the external resource data is aligned to.
    pub actual_resource_data_alignment: u8,
    /// Offset of the entry's name in the string table (versions before Season 3).
    pub name_offset: u32,
    /// Index of the owning entry; -1 for none.
    pub parent_index: i32,
    /// Hash of the asset the entry was built from.
    pub asset_hash: i128,
    /// Number of resources the entry owns.
    pub resource_count: i32,
    /// Readable path of the entry.
    pub tag_name: String,
    /// The entry's decompressed data, once loaded.
    pub data_stream: Option<Vec<u8>>,
    /// The entry's tag file, once loaded; none for resources.
    pub tag_info: Option<TagFile>,
    /// Whether the entry has been loaded.
    pub is_loaded: bool,
}

/// Whether `v` is the entry that the 88 bytes `b` hold, not yet loaded; its name aside.
pub open spec fn entry_from(b: Seq<u8>, v: ModuleFileEntry) -> bool {
    &&& v.unknown == u8_at(b, 0)
    &&& v.flags.bits == u8_at(b, 1) % 8
    &&& v.block_count == u16_at(b, 2)
    &&& v.block_index == i32_at(b, 4)
    &&& v.resource_index == i32_at(b, 8)
    &&& v.tag_group@ == group_text(window(b, 12, 4))->0
    &&& v.data_offset == u64_at(b, 16) % 0x1_0000_0000_0000
    &&& v.data_offset_flags.bits == u64_at(b, 16) / 0x1_0000_0000_0000 % 4
    &&& v.total_compressed_size == u32_at(b, 24)
    &&& v.total_uncompressed_size == u32_at(b, 28)
    &&& v.tag_id == i32_at(b, 32)
    &&& v.uncompressed_header_size == u32_at(b, 36)
    &&& v.uncompressed_tag_data_size == u32_at(b, 40)
    &&& v.uncompressed_resource_data_size == u32_at(b, 44)
    &&& v.uncompressed_actual_resource_size == u32_at(b, 48)
    &&& v.header_alignment == u8_at(b, 52)
    &&& v.tag_data_alignment == u8_at(b, 53)
    &&& v.resource_data_alignment == u8_at(b, 54)
    &&& v.actual_resource_data_alignment == u8_at(b, 55)
    &&& v.name_offset == u32_at(b, 56)
    &&& v.parent_index == i32_at(b, 60)
    &&& v.asset_hash == u128_at(b, 64) as i128
    &&& v.resource_count == i32_at(b, 80)
    &&& v.data_stream is None
    &&& v.tag_info is None
    &&& !v.is_loaded
}

impl Readable for ModuleFileEntry {
    open spec fn error_at(data: Seq<u8>, pos: int) -> Option<Error> {
        if !fits(data, pos, 88) {
            Some(Error::ReadError)
        } else if group_text(window(data, pos + 12, 4)) is None {
            Some(Error::Utf8ReadingError)
        } else {
            None
        }
    }

    open spec fn end_of(data: Seq<u8>, pos: int) -> int {
        pos + 88
    }

    open spec fn reads_as(data: Seq<u8>, pos: int, v: Self) -> bool {
        entry_from(window(data, pos, 88), v) && v.tag_name@ == Seq::<char>::empty()
    }

    fn read(&mut self, reader: &mut ByteReader) -> (r: Result<(), Error>) {
        let ghost data = reader.bytes();
        let ghost pos = reader.at();
        let b = reader.read_bytes(ENTRY_SIZE)?;
        let b = b.as_slice();
        assert(window(b@, 12, 4) =~= window(data, pos + 12, 4));
        self.tag_group = group_at(b, 12)?;
        self.unknown = get_u8(b, 0);
        self.flags = FileEntryFlags::from_bits_truncate(get_u8(b, 1));
        self.block_count = get_u16(b, 2);
        self.block_index = get_i32(b, 4);
        self.resource_index = get_i32(b, 8);
        let raw_offset = get_u64(b, 16);
        self.data_offset = raw_offset % 0x1_0000_0000_0000;
        self.data_offset_flags = DataOffsetType::from_bits_truncate((raw_offset / 0x1_0000_0000_0000) as u16);
        self.total_compressed_size = get_u32(b, 24);
        self.total_uncompressed_size = get_u32(b, 28);
        self.tag_id = get_i32(b, 32);
        self.uncompressed_header_size = get_u32(b, 36);
        self.uncompressed_tag_data_size = get_u32(b, 40);
        self.uncompressed_resource_data_size = get_u32(b, 44);
        self.uncompressed_actual_resource_size = get_u32(b, 48);
        self.header_alignment = get_u8(b, 52);
        self.tag_data_alignment = get_u8(b, 53);
        self.resource_data_alignment = get_u8(b, 54);
        self.actual_resource_data_alignment = get_u8(b, 55);
        self.name_offset = get_u32(b, 56);
        self.parent_index = get_i32(b, 60);
        self.asset_hash = get_i128(b, 64);
        self.resource_count = get_i32(b, 80);
        self.tag_name = String::new();
        self.data_stream = None;
        self.tag_info = None;
        self.is_loaded = false;
        Ok(())
    }
}

impl ModuleFileEntry {
    /// An entry with every field at its default.
    pub fn new() -> (r: Self)
        ensures
            r.tag_id == 0 && r.parent_index == 0 && r.block_count == 0,
            r.data_stream is None && r.tag_info is None && !r.is_loaded,
    {
        ModuleFileEntry {
            unknown: 0,
            flags: FileEntryFlags { bits: 0 },
            block_count: 0,
            block_index: 0,
            resource_index: 0,
            tag_group: String::new(),
            data_offset: 0,
            data_offset_flags: DataOffsetType { bits: 0 },
            total_compressed_size: 0,
            total_uncompressed_size: 0,
            tag_id: 0,
            uncompressed_header_size: 0,
            uncompressed_tag_data_size: 0,
            uncompressed_resource_data_size: 0,
            uncompressed_actual_resource_size: 0,
            header_alignment: 0,
            tag_data_alignment: 0,
            resource_data_alignment: 0,
            actual_resource_data_alignment: 0,
            name_offset: 0,
            parent_index: 0,
            asset_hash: 0,
            resource_count: 0,
            tag_name: String::new(),
            data_stream: None,
            tag_info: None,
            is_loaded: false,
        }
    }
}

impl ModuleFileEntry {
    /// Takes the entry's assembled buffer: keeps it and, for an entry with an
    /// identifier, reads its tag file from it. Loading happens once: on an
    /// entry already loaded it does nothing. A tag file that fails to read
    /// leaves the entry as it was.
    pub fn load(&mut self, data: Vec<u8>, version: &ModuleVersion) -> (r: Result<(), Error>)
        ensures
            old(self).is_loaded ==> r is Ok && *final(self) == *old(self),
            !old(self).is_loaded && old(self).tag_id != -1 && tag_header_error(data@, 0) is Some
                ==> r == Err::<(), Error>(tag_header_error(data@, 0)->0),
            r is Err ==> *final(self) == *old(self),
            !old(self).is_loaded && (old(self).tag_id == -1 || tag_reads(data@, version_number(*version) < 53)) ==> r is Ok,
            !old(self).is_loaded && r is Ok ==> final(self).is_loaded,
            !old(self).is_loaded && r is Ok ==> (final(self).data_stream matches Some(d) && d@ == data@),
            !old(self).is_loaded && r is Ok && old(self).tag_id == -1 ==> final(self).tag_info is None,
            !old(self).is_loaded && r is Ok && old(self).tag_id != -1 ==> (final(self).tag_info matches Some(t)
                && tag_file_read(data@, 0, version_number(*version) < 53, t)),
            final(self).tag_id == old(self).tag_id,
            final(self).block_count == old(self).block_count,
            final(self).tag_name == old(self).tag_name,
    {
        if self.is_loaded {
            return Ok(());
        }
        if self.tag_id != -1 {
            let mut reader = ByteReader::new(data);
            let mut tag = TagFile {
                header: crate::tag_header::TagHeader::new(),
                dependencies: Vec::new(),
                datablock_definitions: Vec::new(),
                struct_definitions: Vec::new(),
                data_references: Vec::new(),
                tag_references: Vec::new(),
                zoneset_header: crate::tag_zoneset::TagZonesetHeader { string_id: 0, zoneset_count: 0, footer_count: 0, parents: 0 },
                zonesets: Vec::new(),
                structure: None,
            };
            tag.read(&mut reader, version)?;
            self.data_stream = Some(reader.into_bytes());
            self.tag_info = Some(tag);
        } else {
            self.data_stream = Some(data);
            self.tag_info = None;
        }
        self.is_loaded = true;
        Ok(())
    }
}

impl ModuleFileEntry {
    /// Resolves the loaded tag's root structure against shape `shape` of
    /// `shapes`: fixed fields are read where the shapes put them, arrays and
    /// resources are found through the tag's struct and datablock tables.
    pub fn read_metadata(&self, shapes: &Vec<Shape>, shape: usize) -> (r: Result<Record, Error>)
        ensures
            self.data_stream is None ==> r == Err::<Record, Error>(Error::TagError(TagError::NotLoaded)),
            self.data_stream is Some && self.tag_info is None ==> r == Err::<Record, Error>(Error::TagError(TagError::NoTagInfo)),
            r matches Ok(rec) ==> (self.data_stream matches Some(data) && self.tag_info matches Some(t)
                && main_struct(t.struct_definitions@) matches Some(k) && {
                    let target = t.struct_definitions@[k].target_index as int;
                    &&& 0 <= target < t.datablock_definitions@.len()
                    &&& record_ok(shapes@, shape as int, data@, data@.len() as int, t.datablock_definitions@[target].offset as int,
                        target, t.struct_definitions@, t.datablock_definitions@, rec)
                }),
            self.tag_info matches Some(t) && main_struct(t.struct_definitions@) is None && self.data_stream is Some
                ==> r == Err::<Record, Error>(Error::TagError(TagError::MainStructNotFound)),
            (self.data_stream matches Some(data) && self.tag_info matches Some(t)
                && main_struct(t.struct_definitions@) matches Some(k) && {
                    let target = t.struct_definitions@[k].target_index as int;
                    &&& 0 <= target < t.datablock_definitions@.len()
                    &&& exists|rec: Record| record_ok(shapes@, shape as int, data@, data@.len() as int,
                        t.datablock_definitions@[target].offset as int, target, t.struct_definitions@, t.datablock_definitions@, rec)
                }) ==> r is Ok,
    {
        let data = match &self.data_stream {
            Some(d) => d,
            None => return Err(Error::TagError(TagError::NotLoaded)),
        };
        let tag = match &self.tag_info {
            Some(t) => t,
            None => return Err(Error::TagError(TagError::NoTagInfo)),
        };
        resolve_root(shapes, shape, data, &tag.struct_definitions, &tag.datablock_definitions)
    }
}

} // verus!
