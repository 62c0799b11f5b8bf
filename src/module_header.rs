//! The module header: the layout of the whole module file.

use vstd::prelude::*;

use crate::errors::{Error, ModuleError};
use crate::extensions::{fits, get_i32, get_i64, get_u32, get_u64, i32_at, i64_at, u32_at, u64_at, window, ByteReader};

verus! {

/// "mohd" read as a little-endian `u32`.
pub const HEADER_MAGIC: u32 = 0x6468_6F6D;

/// Revision of a module file; it decides how entries are read.
#[derive(Debug, Clone, Copy, PartialEq, Eq, Default)]
pub enum ModuleVersion {
    /// First technical preview (July 2021): 48.
    Flight1,
    /// Second technical preview and release (November 2021): 51.
    Release,
    /// Co-op campaign flight: 52.
    CampaignFlight,
    /// Season 3 onwards: 53.
    #[default]
    Season3,
}

/// The number that stands for a version on disk.
pub open spec fn version_number(v: ModuleVersion) -> i32 {
    match v {
        ModuleVersion::Flight1 => 48,
        ModuleVersion::Release => 51,
        ModuleVersion::CampaignFlight => 52,
        ModuleVersion::Season3 => 53,
    }
}

/// The version that a number on disk stands for, if any.
pub open spec fn version_of(n: i32) -> Option<ModuleVersion> {
    if n == 48 {
        Some(ModuleVersion::Flight1)
    } else if n == 51 {
        Some(ModuleVersion::Release)
    } else if n == 52 {
        Some(ModuleVersion::CampaignFlight)
    } else if n == 53 {
        Some(ModuleVersion::Season3)
    } else {
        None
    }
}

impl ModuleVersion {
    /// The number that stands for this version on disk; later versions have larger numbers.
    pub fn number(&self) -> (r: i32)
        ensures
            r == version_number(*self),
    {
        match self {
            ModuleVersion::Flight1 => 48,
            ModuleVersion::Release => 51,
            ModuleVersion::CampaignFlight => 52,
            ModuleVersion::Season3 => 53,
        }
    }

    /// The version that `n` stands for; fails for numbers of no known revision.
    pub fn try_from_primitive(n: i32) -> (r: Result<ModuleVersion, ModuleError>)
        ensures
            match version_of(n) {
                Some(v) => r == Ok::<ModuleVersion, ModuleError>(v),
                None => r == Err::<ModuleVersion, ModuleError>(ModuleError::IncorrectVersion(n)),
            },
    {
        if n == 48 {
            Ok(ModuleVersion::Flight1)
        } else if n == 51 {
            Ok(ModuleVersion::Release)
        } else if n == 52 {
            Ok(ModuleVersion::CampaignFlight)
        } else if n == 53 {
            Ok(ModuleVersion::Season3)
        } else {
            Err(ModuleError::IncorrectVersion(n))
        }
    }
}

/// Size of the header fields common to all versions.
pub const MODULE_HEADER_SIZE: u64 = 72;

/// Module header: counts and sizes that lay out the rest of the module file.
#[derive(Debug, Clone, Default)]
pub struct ModuleHeader {
    /// Should be "mohd".
    pub magic: u32,
    /// Revision of the module.
    pub version: ModuleVersion,
    /// Identifier of the module.
    pub module_id: i64,
    /// Number of file entries.
    pub file_count: u32,
    /// Unknown count, kept as read.
    pub manifest0_count: u32,
    /// Unknown count, kept as read.
    pub manifest1_count: u32,
    /// Unknown count, kept as read.
    pub manifest2_count: u32,
    /// Index of the first resource entry.
    pub resource_index: i32,
    /// Size in bytes of the string table (versions before Season 3).
    pub strings_size: u32,
    /// Number of entries of the resource table.
    pub resource_count: u32,
    /// Number of entries of the block table.
    pub block_count: u32,
    /// Build identifier.
    pub build_version: u64,
    /// Non-zero where an auxiliary ("hd1") file holds part of the data.
    pub hd1_delta: u64,
    /// Total size of the packed data.
    pub data_size: u64,
}

/// What a module header at `pos` reads as, and where it ends: the magic is
/// checked first, then the version, and only then are the other fields read.
pub open spec fn decode_module_header(data: Seq<u8>, pos: int) -> Result<(ModuleHeader, int), Error> {
    if !fits(data, pos, 4) {
        Err(Error::ReadError)
    } else if u32_at(data, pos) != HEADER_MAGIC {
        Err(Error::ModuleError(ModuleError::IncorrectMagic(u32_at(data, pos))))
    } else if !fits(data, pos, 8) {
        Err(Error::ReadError)
    } else {
        match version_of(i32_at(data, pos + 4)) {
            None => Err(Error::ModuleError(ModuleError::IncorrectVersion(i32_at(data, pos + 4)))),
            Some(version) => if !fits(data, pos, 72) || (version_number(version) >= 51 && pos + 80 > u64::MAX) {
                Err(Error::ReadError)
            } else {
                let b = window(data, pos, 72);
                Ok((ModuleHeader {
                    magic: HEADER_MAGIC,
                    version,
                    module_id: i64_at(b, 8),
                    file_count: u32_at(b, 16),
                    manifest0_count: u32_at(b, 20),
                    manifest1_count: u32_at(b, 24),
                    manifest2_count: u32_at(b, 28),
                    resource_index: i32_at(b, 32),
                    strings_size: u32_at(b, 36),
                    resource_count: u32_at(b, 40),
                    block_count: u32_at(b, 44),
                    build_version: u64_at(b, 48),
                    hd1_delta: u64_at(b, 56),
                    data_size: u64_at(b, 64),
                }, pos + 72 + if version_number(version) >= 51 { 8int } else { 0int }))
            },
        }
    }
}

impl ModuleHeader {
    /// A header with every field at its default.
    pub fn new() -> (r: Self)
        ensures
            r.magic == 0,
            r.version == ModuleVersion::Season3,
            r.file_count == 0,
            r.resource_count == 0,
            r.block_count == 0,
            r.hd1_delta == 0,
    {
        ModuleHeader {
            magic: 0,
            version: ModuleVersion::Season3,
            module_id: 0,
            file_count: 0,
            manifest0_count: 0,
            manifest1_count: 0,
            manifest2_count: 0,
            resource_index: 0,
            strings_size: 0,
            resource_count: 0,
            block_count: 0,
            build_version: 0,
            hd1_delta: 0,
            data_size: 0,
        }
    }

    /// Number of bytes from the start of the module to the end of its block
    /// table: the header (and its padding), the entries, the string table,
    /// the resource table and the block table.
    pub fn tables_size(&self) -> (r: u64)
        ensures
            r == (if version_number(self.version) >= 51 { 80int } else { 72int }) + 88 * self.file_count
                + self.strings_size + 4 * self.resource_count + 20 * self.block_count,
    {
        let head: u64 = if self.version.number() >= 51 { 80 } else { 72 };
        head + 88 * (self.file_count as u64) + self.strings_size as u64 + 4 * (self.resource_count as u64)
            + 20 * (self.block_count as u64)
    }

    /// Reads the header; versions from Release on are followed by 8 bytes of padding, skipped.
    pub fn read(&mut self, reader: &mut ByteReader) -> (r: Result<(), Error>)
        ensures
            final(reader).bytes() == old(reader).bytes(),
            match decode_module_header(old(reader).bytes(), old(reader).at()) {
                Ok((h, end)) => r is Ok && *final(self) == h && final(reader).at() == end,
                Err(e) => r == Err::<(), Error>(e),
            },
            r is Err ==> *final(self) == *old(self),
    {
        let ghost data = reader.bytes();
        let ghost pos = reader.at();
        let start = reader.stream_position();
        let magic = reader.read_u32()?;
        if magic != HEADER_MAGIC {
            return Err(Error::ModuleError(ModuleError::IncorrectMagic(magic)));
        }
        let raw_version = reader.read_i32()?;
        let version = match ModuleVersion::try_from_primitive(raw_version) {
            Ok(v) => v,
            Err(e) => return Err(Error::ModuleError(e)),
        };
        reader.seek(start);
        let b = reader.read_bytes(72)?;
        let b = b.as_slice();
        let header = ModuleHeader {
            magic,
            version,
            module_id: get_i64(b, 8),
            file_count: get_u32(b, 16),
            manifest0_count: get_u32(b, 20),
            manifest1_count: get_u32(b, 24),
            manifest2_count: get_u32(b, 28),
            resource_index: get_i32(b, 32),
            strings_size: get_u32(b, 36),
            resource_count: get_u32(b, 40),
            block_count: get_u32(b, 44),
            build_version: get_u64(b, 48),
            hd1_delta: get_u64(b, 56),
            data_size: get_u64(b, 64),
        };
        if version.number() >= 51 {
            reader.seek_relative(8)?;
        }
        *self = header;
        Ok(())
    }
}

/// A module whose first four bytes are not "mohd" is refused for its magic,
/// whatever follows; one with the right magic and an unknown version is
/// refused for its version, whatever follows. No other field is read first.
pub proof fn lemma_module_header_checked_first(data: Seq<u8>, pos: int)
    requires
        fits(data, pos, 8),
    ensures
        u32_at(data, pos) != HEADER_MAGIC ==> decode_module_header(data, pos)
            == Err::<(ModuleHeader, int), Error>(Error::ModuleError(ModuleError::IncorrectMagic(u32_at(data, pos)))),
        u32_at(data, pos) == HEADER_MAGIC && version_of(i32_at(data, pos + 4)) is None ==> decode_module_header(data, pos)
            == Err::<(ModuleHeader, int), Error>(Error::ModuleError(ModuleError::IncorrectVersion(i32_at(data, pos + 4)))),
{
}

} // verus!
