//! Errors reported while reading modules and tags.

use vstd::prelude::*;

verus! {

/// Errors that can occur when reading a module file.
#[derive(Debug, Clone, Copy, PartialEq, Eq)]
pub enum ModuleError {
    /// The module does not start with "mohd" (0x64686F6D); holds the magic found.
    IncorrectMagic(u32),
    /// The module version is none of the known revisions; holds the version found.
    IncorrectVersion(i32),
    /// A file entry with blocks names a negative first block: the module is corrupt.
    NegativeBlockIndex(i32),
    /// A file entry names blocks past the end of the module's block table.
    BlockOutOfRange(i32),
    /// An entry or resource span names an index past the end of its table.
    EntryOutOfRange(i32),
}

/// Errors that can occur when reading a tag file.
#[derive(Debug, Clone, Copy, PartialEq, Eq)]
pub enum TagError {
    /// The tag does not start with "ucsh" (0x68736375); holds the magic found.
    IncorrectMagic(u32),
    /// The tag version is not 27; holds the version found.
    IncorrectVersion(i32),
    /// The entry has no decompressed data yet.
    NotLoaded,
    /// No struct definition of the root kind exists in the tag.
    MainStructNotFound,
    /// The entry has no tag header (it is raw resource data).
    NoTagInfo,
    /// A datablock names a section kind outside the known four; holds the raw value.
    InvalidTagSection(u16),
    /// A struct definition names a kind outside the known five; holds the raw value.
    InvalidTagStruct(u16),
    /// Resolving an entry's path walked more parents than allowed.
    RecursionDepth,
    /// A struct definition points at a datablock or resource that does not exist.
    TargetOutOfRange(i32),
}

/// Errors that can occur when decompressing data.
#[derive(Debug, Clone, Copy, PartialEq, Eq)]
pub enum DecompressionError {
    /// The decompressed data does not fit the space reserved for it.
    BufferSizeOverflow,
    /// The decompressor failed with this (negative) code.
    DecompressionFailed(i32),
}

/// Standard error type of the library.
#[derive(Debug, Clone, Copy, PartialEq, Eq)]
pub enum Error {
    /// The data ended before a value could be read.
    ReadError,
    /// A fixed-length string held bytes that are not UTF-8.
    Utf8ReadingError,
    /// Decompressing a segment failed.
    DecompressionError(DecompressionError),
    /// The module container is malformed.
    ModuleError(ModuleError),
    /// An index or size does not fit the integer type it is converted to.
    TryFromIntError,
    /// A tag is malformed.
    TagError(TagError),
}

} // verus!
