//! The leaf field types that tag structures are built from: fixed-width
//! integers, fixed-length strings, references and padding.

use vstd::prelude::*;

use crate::errors::Error;
use crate::extensions::{
    fits, fixed_string_text, get_i16, get_i32, get_i64, get_i8, get_u16, get_u32, get_u64, get_u8, group_at,
    group_text, i32_at, i64_at, u16_at, u32_at, u64_at, u8_at, window, ByteReader, Readable,
};

verus! {

/// A 32-byte string, usually a short name.
#[derive(Debug, Clone, PartialEq, Eq, Default)]
pub struct FieldString {
    /// The text.
    pub string: String,
}

impl Readable for FieldString {
    open spec fn error_at(data: Seq<u8>, pos: int) -> Option<Error> {
        if !fits(data, pos, 32) {
            Some(Error::ReadError)
        } else if fixed_string_text(window(data, pos, 32)) is None {
            Some(Error::Utf8ReadingError)
        } else {
            None
        }
    }

    open spec fn end_of(data: Seq<u8>, pos: int) -> int {
        pos + 32
    }

    open spec fn reads_as(data: Seq<u8>, pos: int, v: Self) -> bool {
        Some(v.string@) == fixed_string_text(window(data, pos, 32))
    }

    fn read(&mut self, reader: &mut ByteReader) -> (r: Result<(), Error>) {
        FieldString::read(self, reader)
    }
}

impl FieldString {
    /// Reads the value at the reader's position.
    pub fn read(&mut self, reader: &mut ByteReader) -> (r: Result<(), Error>)
        ensures
            final(reader).bytes() == old(reader).bytes(),
            match <FieldString as Readable>::error_at(old(reader).bytes(), old(reader).at()) {
                Some(e) => r == Err::<(), Error>(e),
                None => r is Ok && <FieldString as Readable>::reads_as(old(reader).bytes(), old(reader).at(), *final(self))
                    && final(reader).at() == <FieldString as Readable>::end_of(old(reader).bytes(), old(reader).at()),
            },
            r is Err ==> *final(self) == *old(self),
    {
        self.string = reader.read_fixed_string(32)?;
        Ok(())
    }
}

/// A 256-byte string, usually a path.
#[derive(Debug, Clone, PartialEq, Eq, Default)]
pub struct FieldLongString {
    /// The text.
    pub long_string: String,
}

impl Readable for FieldLongString {
    open spec fn error_at(data: Seq<u8>, pos: int) -> Option<Error> {
        if !fits(data, pos, 256) {
            Some(Error::ReadError)
        } else if fixed_string_text(window(data, pos, 256)) is None {
            Some(Error::Utf8ReadingError)
        } else {
            None
        }
    }

    open spec fn end_of(data: Seq<u8>, pos: int) -> int {
        pos + 256
    }

    open spec fn reads_as(data: Seq<u8>, pos: int, v: Self) -> bool {
        Some(v.long_string@) == fixed_string_text(window(data, pos, 256))
    }

    fn read(&mut self, reader: &mut ByteReader) -> (r: Result<(), Error>) {
        FieldLongString::read(self, reader)
    }
}

impl FieldLongString {
    /// Reads the value at the reader's position.
    pub fn read(&mut self, reader: &mut ByteReader) -> (r: Result<(), Error>)
        ensures
            final(reader).bytes() == old(reader).bytes(),
            match <FieldLongString as Readable>::error_at(old(reader).bytes(), old(reader).at()) {
                Some(e) => r == Err::<(), Error>(e),
                None => r is Ok && <FieldLongString as Readable>::reads_as(old(reader).bytes(), old(reader).at(), *final(self))
                    && final(reader).at() == <FieldLongString as Readable>::end_of(old(reader).bytes(), old(reader).at()),
            },
            r is Err ==> *final(self) == *old(self),
    {
        self.long_string = reader.read_fixed_string(256)?;
        Ok(())
    }
}

/// Four unused bytes, kept as read.
#[derive(Debug, Clone, Copy, PartialEq, Eq, Default)]
pub struct FieldUnused1 {
    /// The bytes.
    pub unused: [u8; 4],
}

impl Readable for FieldUnused1 {
    open spec fn error_at(data: Seq<u8>, pos: int) -> Option<Error> {
        if fits(data, pos, 4) { None } else { Some(Error::ReadError) }
    }

    open spec fn end_of(data: Seq<u8>, pos: int) -> int {
        pos + 4
    }

    open spec fn reads_as(data: Seq<u8>, pos: int, v: Self) -> bool {
        v.unused@ == window(data, pos, 4)
    }

    fn read(&mut self, reader: &mut ByteReader) -> (r: Result<(), Error>) {
        FieldUnused1::read(self, reader)
    }
}

impl FieldUnused1 {
    /// Reads the value at the reader's position.
    pub fn read(&mut self, reader: &mut ByteReader) -> (r: Result<(), Error>)
        ensures
            final(reader).bytes() == old(reader).bytes(),
            match <FieldUnused1 as Readable>::error_at(old(reader).bytes(), old(reader).at()) {
                Some(e) => r == Err::<(), Error>(e),
                None => r is Ok && <FieldUnused1 as Readable>::reads_as(old(reader).bytes(), old(reader).at(), *final(self))
                    && final(reader).at() == <FieldUnused1 as Readable>::end_of(old(reader).bytes(), old(reader).at()),
            },
            r is Err ==> *final(self) == *old(self),
    {
        let b = reader.read_bytes(4)?;
        let unused = [b[0], b[1], b[2], b[3]];
        assert(unused@ =~= b@);
        self.unused = unused;
        Ok(())
    }
}

/// A reference to another tag.
#[derive(Debug, Clone, PartialEq, Eq, Default)]
pub struct FieldReference {
    /// Runtime type pointer, kept as read.
    pub type_info: u64,
    /// Global identifier of the tag referred to.
    pub global_id: i32,
    /// Asset identifier of the tag referred to.
    pub asset_id: u64,
    /// Four-character group code of the tag referred to.
    pub group: String,
    /// Local handle, kept as read.
    pub local_handle: i32,
}

impl Readable for FieldReference {
    open spec fn error_at(data: Seq<u8>, pos: int) -> Option<Error> {
        if !fits(data, pos, 28) {
            Some(Error::ReadError)
        } else if group_text(window(data, pos + 20, 4)) is None {
            Some(Error::Utf8ReadingError)
        } else {
            None
        }
    }

    open spec fn end_of(data: Seq<u8>, pos: int) -> int {
        pos + 28
    }

    open spec fn reads_as(data: Seq<u8>, pos: int, v: Self) -> bool {
        &&& v.type_info == u64_at(data, pos)
        &&& v.global_id == i32_at(data, pos + 8)
        &&& v.asset_id == u64_at(data, pos + 12)
        &&& Some(v.group@) == group_text(window(data, pos + 20, 4))
        &&& v.local_handle == i32_at(data, pos + 24)
    }

    fn read(&mut self, reader: &mut ByteReader) -> (r: Result<(), Error>) {
        FieldReference::read(self, reader)
    }
}

impl FieldReference {
    /// Reads the value at the reader's position.
    pub fn read(&mut self, reader: &mut ByteReader) -> (r: Result<(), Error>)
        ensures
            final(reader).bytes() == old(reader).bytes(),
            match <FieldReference as Readable>::error_at(old(reader).bytes(), old(reader).at()) {
                Some(e) => r == Err::<(), Error>(e),
                None => r is Ok && <FieldReference as Readable>::reads_as(old(reader).bytes(), old(reader).at(), *final(self))
                    && final(reader).at() == <FieldReference as Readable>::end_of(old(reader).bytes(), old(reader).at()),
            },
            r is Err ==> *final(self) == *old(self),
    {
        let ghost data = reader.bytes();
        let ghost pos = reader.at();
        let b = reader.read_bytes(28)?;
        let b = b.as_slice();
        assert(window(b@, 0, 8) =~= window(data, pos, 8));
        assert(window(b@, 8, 4) =~= window(data, pos + 8, 4));
        assert(window(b@, 12, 8) =~= window(data, pos + 12, 8));
        assert(window(b@, 20, 4) =~= window(data, pos + 20, 4));
        assert(window(b@, 24, 4) =~= window(data, pos + 24, 4));
        self.group = group_at(b, 20)?;
        self.type_info = get_u64(b, 0);
        self.global_id = get_i32(b, 8);
        self.asset_id = get_u64(b, 12);
        self.local_handle = get_i32(b, 24);
        Ok(())
    }
}

/// The head of every tag's root structure: space for a vtable pointer, then
/// the tag's identifier and local handle.
#[derive(Debug, Clone, Copy, PartialEq, Eq, Default)]
pub struct AnyTag {
    /// Space of the runtime vtable pointer.
    pub vtable_space: u64,
    /// Identifier and handle.
    pub internal_struct: AnyTagGuts,
}

impl Readable for AnyTag {
    open spec fn error_at(data: Seq<u8>, pos: int) -> Option<Error> {
        if fits(data, pos, 16) { None } else { Some(Error::ReadError) }
    }

    open spec fn end_of(data: Seq<u8>, pos: int) -> int {
        pos + 16
    }

    open spec fn reads_as(data: Seq<u8>, pos: int, v: Self) -> bool {
        v == AnyTag {
            vtable_space: u64_at(data, pos),
            internal_struct: AnyTagGuts { tag_id: i32_at(data, pos + 8), local_tag_handle: i32_at(data, pos + 12) },
        }
    }

    fn read(&mut self, reader: &mut ByteReader) -> (r: Result<(), Error>) {
        AnyTag::read(self, reader)
    }
}

impl AnyTag {
    /// Reads the value at the reader's position.
    pub fn read(&mut self, reader: &mut ByteReader) -> (r: Result<(), Error>)
        ensures
            final(reader).bytes() == old(reader).bytes(),
            match <AnyTag as Readable>::error_at(old(reader).bytes(), old(reader).at()) {
                Some(e) => r == Err::<(), Error>(e),
                None => r is Ok && <AnyTag as Readable>::reads_as(old(reader).bytes(), old(reader).at(), *final(self))
                    && final(reader).at() == <AnyTag as Readable>::end_of(old(reader).bytes(), old(reader).at()),
            },
            r is Err ==> *final(self) == *old(self),
    {
        let ghost data = reader.bytes();
        let ghost pos = reader.at();
        let b = reader.read_bytes(8)?;
        assert(window(b@, 0, 8) =~= window(data, pos, 8));
        let vtable_space = get_u64(b.as_slice(), 0);
        let mut guts = AnyTagGuts { tag_id: 0, local_tag_handle: 0 };
        guts.read(reader)?;
        self.vtable_space = vtable_space;
        self.internal_struct = guts;
        Ok(())
    }
}

/// Padding between fields.
#[derive(Debug, Clone, Copy, PartialEq, Eq, Default)]
pub struct FieldPad;

impl FieldPad {
    /// Skips `length` bytes of padding.
    pub fn read(&mut self, reader: &mut ByteReader, length: u8) -> (r: Result<(), Error>)
        ensures
            final(reader).bytes() == old(reader).bytes(),
            r is Ok <==> 0 <= old(reader).at() + length <= u64::MAX,
            r is Ok ==> final(reader).at() == old(reader).at() + length,
    {
        reader.seek_relative(length as i64)
    }
}

/// A field kind that holds no data.
#[derive(Debug, Clone, Copy, PartialEq, Eq, Default)]
pub struct FieldSkip;

/// An explanation shown by editors; holds no data.
#[derive(Debug, Clone, Copy, PartialEq, Eq, Default)]
pub struct FieldExplanation;

/// A custom editor field; holds no data.
#[derive(Debug, Clone, Copy, PartialEq, Eq, Default)]
pub struct FieldCustom;

/// Marks an inline structure; holds no data.
#[derive(Debug, Clone, Copy, PartialEq, Eq, Default)]
pub struct FieldStruct;

/// Marks an inline array; holds no data.
#[derive(Debug, Clone, Copy, PartialEq, Eq, Default)]
pub struct FieldArray;

/// Marks the end of a structure; holds no data.
#[derive(Debug, Clone, Copy, PartialEq, Eq, Default)]
pub struct FieldEndOfStruct;

/// A 32-bit string identifier (a hash of the string).
#[derive(Debug, Clone, Copy, PartialEq, Eq, Default)]
pub struct FieldStringId {
    /// Value as read.
    pub string_id: u32,
}

impl Readable for FieldStringId {
    open spec fn error_at(data: Seq<u8>, pos: int) -> Option<Error> {
        if fits(data, pos, 4) { None } else { Some(Error::ReadError) }
    }

    open spec fn end_of(data: Seq<u8>, pos: int) -> int {
        pos + 4
    }

    open spec fn reads_as(data: Seq<u8>, pos: int, v: Self) -> bool {
        v == FieldStringId { string_id: u32_at(data, pos) }
    }

    fn read(&mut self, reader: &mut ByteReader) -> (r: Result<(), Error>) {
        FieldStringId::read(self, reader)
    }
}

impl FieldStringId {
    /// Reads the value at the reader's position.
    pub fn read(&mut self, reader: &mut ByteReader) -> (r: Result<(), Error>)
        ensures
            final(reader).bytes() == old(reader).bytes(),
            match <FieldStringId as Readable>::error_at(old(reader).bytes(), old(reader).at()) {
                Some(e) => r == Err::<(), Error>(e),
                None => r is Ok && <FieldStringId as Readable>::reads_as(old(reader).bytes(), old(reader).at(), *final(self))
                    && final(reader).at() == <FieldStringId as Readable>::end_of(old(reader).bytes(), old(reader).at()),
            },
            r is Err ==> *final(self) == *old(self),
    {
        let ghost data = reader.bytes();
        let ghost pos = reader.at();
        let b = reader.read_bytes(4)?;
        let b = b.as_slice();
        assert(window(b@, 0, 4) =~= window(data, pos + 0, 4));
        self.string_id = get_u32(b, 0);
        Ok(())
    }
}

/// A signed 8-bit integer.
#[derive(Debug, Clone, Copy, PartialEq, Eq, Default)]
pub struct FieldCharInteger {
    /// Value as read.
    pub char_integer: i8,
}

impl Readable for FieldCharInteger {
    open spec fn error_at(data: Seq<u8>, pos: int) -> Option<Error> {
        if fits(data, pos, 1) { None } else { Some(Error::ReadError) }
    }

    open spec fn end_of(data: Seq<u8>, pos: int) -> int {
        pos + 1
    }

    open spec fn reads_as(data: Seq<u8>, pos: int, v: Self) -> bool {
        v == FieldCharInteger { char_integer: u8_at(data, pos) as i8 }
    }

    fn read(&mut self, reader: &mut ByteReader) -> (r: Result<(), Error>) {
        FieldCharInteger::read(self, reader)
    }
}

impl FieldCharInteger {
    /// Reads the value at the reader's position.
    pub fn read(&mut self, reader: &mut ByteReader) -> (r: Result<(), Error>)
        ensures
            final(reader).bytes() == old(reader).bytes(),
            match <FieldCharInteger as Readable>::error_at(old(reader).bytes(), old(reader).at()) {
                Some(e) => r == Err::<(), Error>(e),
                None => r is Ok && <FieldCharInteger as Readable>::reads_as(old(reader).bytes(), old(reader).at(), *final(self))
                    && final(reader).at() == <FieldCharInteger as Readable>::end_of(old(reader).bytes(), old(reader).at()),
            },
            r is Err ==> *final(self) == *old(self),
    {
        let ghost data = reader.bytes();
        let ghost pos = reader.at();
        let b = reader.read_bytes(1)?;
        let b = b.as_slice();
        assert(window(b@, 0, 1) =~= window(data, pos + 0, 1));
        self.char_integer = get_i8(b, 0);
        Ok(())
    }
}

/// A signed 16-bit integer.
#[derive(Debug, Clone, Copy, PartialEq, Eq, Default)]
pub struct FieldShortInteger {
    /// Value as read.
    pub short_integer: i16,
}

impl Readable for FieldShortInteger {
    open spec fn error_at(data: Seq<u8>, pos: int) -> Option<Error> {
        if fits(data, pos, 2) { None } else { Some(Error::ReadError) }
    }

    open spec fn end_of(data: Seq<u8>, pos: int) -> int {
        pos + 2
    }

    open spec fn reads_as(data: Seq<u8>, pos: int, v: Self) -> bool {
        v == FieldShortInteger { short_integer: u16_at(data, pos) as i16 }
    }

    fn read(&mut self, reader: &mut ByteReader) -> (r: Result<(), Error>) {
        FieldShortInteger::read(self, reader)
    }
}

impl FieldShortInteger {
    /// Reads the value at the reader's position.
    pub fn read(&mut self, reader: &mut ByteReader) -> (r: Result<(), Error>)
        ensures
            final(reader).bytes() == old(reader).bytes(),
            match <FieldShortInteger as Readable>::error_at(old(reader).bytes(), old(reader).at()) {
                Some(e) => r == Err::<(), Error>(e),
                None => r is Ok && <FieldShortInteger as Readable>::reads_as(old(reader).bytes(), old(reader).at(), *final(self))
                    && final(reader).at() == <FieldShortInteger as Readable>::end_of(old(reader).bytes(), old(reader).at()),
            },
            r is Err ==> *final(self) == *old(self),
    {
        let ghost data = reader.bytes();
        let ghost pos = reader.at();
        let b = reader.read_bytes(2)?;
        let b = b.as_slice();
        assert(window(b@, 0, 2) =~= window(data, pos + 0, 2));
        self.short_integer = get_i16(b, 0);
        Ok(())
    }
}

/// A signed 32-bit integer.
#[derive(Debug, Clone, Copy, PartialEq, Eq, Default)]
pub struct FieldLongInteger {
    /// Value as read.
    pub long_integer: i32,
}

impl Readable for FieldLongInteger {
    open spec fn error_at(data: Seq<u8>, pos: int) -> Option<Error> {
        if fits(data, pos, 4) { None } else { Some(Error::ReadError) }
    }

    open spec fn end_of(data: Seq<u8>, pos: int) -> int {
        pos + 4
    }

    open spec fn reads_as(data: Seq<u8>, pos: int, v: Self) -> bool {
        v == FieldLongInteger { long_integer: i32_at(data, pos) }
    }

    fn read(&mut self, reader: &mut ByteReader) -> (r: Result<(), Error>) {
        FieldLongInteger::read(self, reader)
    }
}

impl FieldLongInteger {
    /// Reads the value at the reader's position.
    pub fn read(&mut self, reader: &mut ByteReader) -> (r: Result<(), Error>)
        ensures
            final(reader).bytes() == old(reader).bytes(),
            match <FieldLongInteger as Readable>::error_at(old(reader).bytes(), old(reader).at()) {
                Some(e) => r == Err::<(), Error>(e),
                None => r is Ok && <FieldLongInteger as Readable>::reads_as(old(reader).bytes(), old(reader).at(), *final(self))
                    && final(reader).at() == <FieldLongInteger as Readable>::end_of(old(reader).bytes(), old(reader).at()),
            },
            r is Err ==> *final(self) == *old(self),
    {
        let ghost data = reader.bytes();
        let ghost pos = reader.at();
        let b = reader.read_bytes(4)?;
        let b = b.as_slice();
        assert(window(b@, 0, 4) =~= window(data, pos + 0, 4));
        self.long_integer = get_i32(b, 0);
        Ok(())
    }
}

/// A signed 64-bit integer.
#[derive(Debug, Clone, Copy, PartialEq, Eq, Default)]
pub struct FieldInt64Integer {
    /// Value as read.
    pub int64_integer: i64,
}

impl Readable for FieldInt64Integer {
    open spec fn error_at(data: Seq<u8>, pos: int) -> Option<Error> {
        if fits(data, pos, 8) { None } else { Some(Error::ReadError) }
    }

    open spec fn end_of(data: Seq<u8>, pos: int) -> int {
        pos + 8
    }

    open spec fn reads_as(data: Seq<u8>, pos: int, v: Self) -> bool {
        v == FieldInt64Integer { int64_integer: i64_at(data, pos) }
    }

    fn read(&mut self, reader: &mut ByteReader) -> (r: Result<(), Error>) {
        FieldInt64Integer::read(self, reader)
    }
}

impl FieldInt64Integer {
    /// Reads the value at the reader's position.
    pub fn read(&mut self, reader: &mut ByteReader) -> (r: Result<(), Error>)
        ensures
            final(reader).bytes() == old(reader).bytes(),
            match <FieldInt64Integer as Readable>::error_at(old(reader).bytes(), old(reader).at()) {
                Some(e) => r == Err::<(), Error>(e),
                None => r is Ok && <FieldInt64Integer as Readable>::reads_as(old(reader).bytes(), old(reader).at(), *final(self))
                    && final(reader).at() == <FieldInt64Integer as Readable>::end_of(old(reader).bytes(), old(reader).at()),
            },
            r is Err ==> *final(self) == *old(self),
    {
        let ghost data = reader.bytes();
        let ghost pos = reader.at();
        let b = reader.read_bytes(8)?;
        let b = b.as_slice();
        assert(window(b@, 0, 8) =~= window(data, pos + 0, 8));
        self.int64_integer = get_i64(b, 0);
        Ok(())
    }
}

/// The global identifier of a tag.
#[derive(Debug, Clone, Copy, PartialEq, Eq, Default)]
pub struct FieldTag {
    /// Value as read.
    pub tag: i32,
}

impl Readable for FieldTag {
    open spec fn error_at(data: Seq<u8>, pos: int) -> Option<Error> {
        if fits(data, pos, 4) { None } else { Some(Error::ReadError) }
    }

    open spec fn end_of(data: Seq<u8>, pos: int) -> int {
        pos + 4
    }

    open spec fn reads_as(data: Seq<u8>, pos: int, v: Self) -> bool {
        v == FieldTag { tag: i32_at(data, pos) }
    }

    fn read(&mut self, reader: &mut ByteReader) -> (r: Result<(), Error>) {
        FieldTag::read(self, reader)
    }
}

impl FieldTag {
    /// Reads the value at the reader's position.
    pub fn read(&mut self, reader: &mut ByteReader) -> (r: Result<(), Error>)
        ensures
            final(reader).bytes() == old(reader).bytes(),
            match <FieldTag as Readable>::error_at(old(reader).bytes(), old(reader).at()) {
                Some(e) => r == Err::<(), Error>(e),
                None => r is Ok && <FieldTag as Readable>::reads_as(old(reader).bytes(), old(reader).at(), *final(self))
                    && final(reader).at() == <FieldTag as Readable>::end_of(old(reader).bytes(), old(reader).at()),
            },
            r is Err ==> *final(self) == *old(self),
    {
        let ghost data = reader.bytes();
        let ghost pos = reader.at();
        let b = reader.read_bytes(4)?;
        let b = b.as_slice();
        assert(window(b@, 0, 4) =~= window(data, pos + 0, 4));
        self.tag = get_i32(b, 0);
        Ok(())
    }
}

/// An 8-bit enumeration value.
#[derive(Debug, Clone, Copy, PartialEq, Eq, Default)]
pub struct FieldCharEnum {
    /// Value as read.
    pub char_enum: u8,
}

impl Readable for FieldCharEnum {
    open spec fn error_at(data: Seq<u8>, pos: int) -> Option<Error> {
        if fits(data, pos, 1) { None } else { Some(Error::ReadError) }
    }

    open spec fn end_of(data: Seq<u8>, pos: int) -> int {
        pos + 1
    }

    open spec fn reads_as(data: Seq<u8>, pos: int, v: Self) -> bool {
        v == FieldCharEnum { char_enum: u8_at(data, pos) }
    }

    fn read(&mut self, reader: &mut ByteReader) -> (r: Result<(), Error>) {
        FieldCharEnum::read(self, reader)
    }
}

impl FieldCharEnum {
    /// Reads the value at the reader's position.
    pub fn read(&mut self, reader: &mut ByteReader) -> (r: Result<(), Error>)
        ensures
            final(reader).bytes() == old(reader).bytes(),
            match <FieldCharEnum as Readable>::error_at(old(reader).bytes(), old(reader).at()) {
                Some(e) => r == Err::<(), Error>(e),
                None => r is Ok && <FieldCharEnum as Readable>::reads_as(old(reader).bytes(), old(reader).at(), *final(self))
                    && final(reader).at() == <FieldCharEnum as Readable>::end_of(old(reader).bytes(), old(reader).at()),
            },
            r is Err ==> *final(self) == *old(self),
    {
        let ghost data = reader.bytes();
        let ghost pos = reader.at();
        let b = reader.read_bytes(1)?;
        let b = b.as_slice();
        assert(window(b@, 0, 1) =~= window(data, pos + 0, 1));
        self.char_enum = get_u8(b, 0);
        Ok(())
    }
}

/// A 16-bit enumeration value.
#[derive(Debug, Clone, Copy, PartialEq, Eq, Default)]
pub struct FieldShortEnum {
    /// Value as read.
    pub short_enum: u16,
}

impl Readable for FieldShortEnum {
    open spec fn error_at(data: Seq<u8>, pos: int) -> Option<Error> {
        if fits(data, pos, 2) { None } else { Some(Error::ReadError) }
    }

    open spec fn end_of(data: Seq<u8>, pos: int) -> int {
        pos + 2
    }

    open spec fn reads_as(data: Seq<u8>, pos: int, v: Self) -> bool {
        v == FieldShortEnum { short_enum: u16_at(data, pos) }
    }

    fn read(&mut self, reader: &mut ByteReader) -> (r: Result<(), Error>) {
        FieldShortEnum::read(self, reader)
    }
}

impl FieldShortEnum {
    /// Reads the value at the reader's position.
    pub fn read(&mut self, reader: &mut ByteReader) -> (r: Result<(), Error>)
        ensures
            final(reader).bytes() == old(reader).bytes(),
            match <FieldShortEnum as Readable>::error_at(old(reader).bytes(), old(reader).at()) {
                Some(e) => r == Err::<(), Error>(e),
                None => r is Ok && <FieldShortEnum as Readable>::reads_as(old(reader).bytes(), old(reader).at(), *final(self))
                    && final(reader).at() == <FieldShortEnum as Readable>::end_of(old(reader).bytes(), old(reader).at()),
            },
            r is Err ==> *final(self) == *old(self),
    {
        let ghost data = reader.bytes();
        let ghost pos = reader.at();
        let b = reader.read_bytes(2)?;
        let b = b.as_slice();
        assert(window(b@, 0, 2) =~= window(data, pos + 0, 2));
        self.short_enum = get_u16(b, 0);
        Ok(())
    }
}

/// A 32-bit enumeration value.
#[derive(Debug, Clone, Copy, PartialEq, Eq, Default)]
pub struct FieldLongEnum {
    /// Value as read.
    pub long_enum: u32,
}

impl Readable for FieldLongEnum {
    open spec fn error_at(data: Seq<u8>, pos: int) -> Option<Error> {
        if fits(data, pos, 4) { None } else { Some(Error::ReadError) }
    }

    open spec fn end_of(data: Seq<u8>, pos: int) -> int {
        pos + 4
    }

    open spec fn reads_as(data: Seq<u8>, pos: int, v: Self) -> bool {
        v == FieldLongEnum { long_enum: u32_at(data, pos) }
    }

    fn read(&mut self, reader: &mut ByteReader) -> (r: Result<(), Error>) {
        FieldLongEnum::read(self, reader)
    }
}

impl FieldLongEnum {
    /// Reads the value at the reader's position.
    pub fn read(&mut self, reader: &mut ByteReader) -> (r: Result<(), Error>)
        ensures
            final(reader).bytes() == old(reader).bytes(),
            match <FieldLongEnum as Readable>::error_at(old(reader).bytes(), old(reader).at()) {
                Some(e) => r == Err::<(), Error>(e),
                None => r is Ok && <FieldLongEnum as Readable>::reads_as(old(reader).bytes(), old(reader).at(), *final(self))
                    && final(reader).at() == <FieldLongEnum as Readable>::end_of(old(reader).bytes(), old(reader).at()),
            },
            r is Err ==> *final(self) == *old(self),
    {
        let ghost data = reader.bytes();
        let ghost pos = reader.at();
        let b = reader.read_bytes(4)?;
        let b = b.as_slice();
        assert(window(b@, 0, 4) =~= window(data, pos + 0, 4));
        self.long_enum = get_u32(b, 0);
        Ok(())
    }
}

/// 32 flag bits.
#[derive(Debug, Clone, Copy, PartialEq, Eq, Default)]
pub struct FieldLongFlags {
    /// Value as read.
    pub long_flags: u32,
}

impl Readable for FieldLongFlags {
    open spec fn error_at(data: Seq<u8>, pos: int) -> Option<Error> {
        if fits(data, pos, 4) { None } else { Some(Error::ReadError) }
    }

    open spec fn end_of(data: Seq<u8>, pos: int) -> int {
        pos + 4
    }

    open spec fn reads_as(data: Seq<u8>, pos: int, v: Self) -> bool {
        v == FieldLongFlags { long_flags: u32_at(data, pos) }
    }

    fn read(&mut self, reader: &mut ByteReader) -> (r: Result<(), Error>) {
        FieldLongFlags::read(self, reader)
    }
}

impl FieldLongFlags {
    /// Reads the value at the reader's position.
    pub fn read(&mut self, reader: &mut ByteReader) -> (r: Result<(), Error>)
        ensures
            final(reader).bytes() == old(reader).bytes(),
            match <FieldLongFlags as Readable>::error_at(old(reader).bytes(), old(reader).at()) {
                Some(e) => r == Err::<(), Error>(e),
                None => r is Ok && <FieldLongFlags as Readable>::reads_as(old(reader).bytes(), old(reader).at(), *final(self))
                    && final(reader).at() == <FieldLongFlags as Readable>::end_of(old(reader).bytes(), old(reader).at()),
            },
            r is Err ==> *final(self) == *old(self),
    {
        let ghost data = reader.bytes();
        let ghost pos = reader.at();
        let b = reader.read_bytes(4)?;
        let b = b.as_slice();
        assert(window(b@, 0, 4) =~= window(data, pos + 0, 4));
        self.long_flags = get_u32(b, 0);
        Ok(())
    }
}

/// 16 flag bits.
#[derive(Debug, Clone, Copy, PartialEq, Eq, Default)]
pub struct FieldWordFlags {
    /// Value as read.
    pub word_flags: u16,
}

impl Readable for FieldWordFlags {
    open spec fn error_at(data: Seq<u8>, pos: int) -> Option<Error> {
        if fits(data, pos, 2) { None } else { Some(Error::ReadError) }
    }

    open spec fn end_of(data: Seq<u8>, pos: int) -> int {
        pos + 2
    }

    open spec fn reads_as(data: Seq<u8>, pos: int, v: Self) -> bool {
        v == FieldWordFlags { word_flags: u16_at(data, pos) }
    }

    fn read(&mut self, reader: &mut ByteReader) -> (r: Result<(), Error>) {
        FieldWordFlags::read(self, reader)
    }
}

impl FieldWordFlags {
    /// Reads the value at the reader's position.
    pub fn read(&mut self, reader: &mut ByteReader) -> (r: Result<(), Error>)
        ensures
            final(reader).bytes() == old(reader).bytes(),
            match <FieldWordFlags as Readable>::error_at(old(reader).bytes(), old(reader).at()) {
                Some(e) => r == Err::<(), Error>(e),
                None => r is Ok && <FieldWordFlags as Readable>::reads_as(old(reader).bytes(), old(reader).at(), *final(self))
                    && final(reader).at() == <FieldWordFlags as Readable>::end_of(old(reader).bytes(), old(reader).at()),
            },
            r is Err ==> *final(self) == *old(self),
    {
        let ghost data = reader.bytes();
        let ghost pos = reader.at();
        let b = reader.read_bytes(2)?;
        let b = b.as_slice();
        assert(window(b@, 0, 2) =~= window(data, pos + 0, 2));
        self.word_flags = get_u16(b, 0);
        Ok(())
    }
}

/// 8 flag bits.
#[derive(Debug, Clone, Copy, PartialEq, Eq, Default)]
pub struct FieldByteFlags {
    /// Value as read.
    pub byte_flags: u8,
}

impl Readable for FieldByteFlags {
    open spec fn error_at(data: Seq<u8>, pos: int) -> Option<Error> {
        if fits(data, pos, 1) { None } else { Some(Error::ReadError) }
    }

    open spec fn end_of(data: Seq<u8>, pos: int) -> int {
        pos + 1
    }

    open spec fn reads_as(data: Seq<u8>, pos: int, v: Self) -> bool {
        v == FieldByteFlags { byte_flags: u8_at(data, pos) }
    }

    fn read(&mut self, reader: &mut ByteReader) -> (r: Result<(), Error>) {
        FieldByteFlags::read(self, reader)
    }
}

impl FieldByteFlags {
    /// Reads the value at the reader's position.
    pub fn read(&mut self, reader: &mut ByteReader) -> (r: Result<(), Error>)
        ensures
            final(reader).bytes() == old(reader).bytes(),
            match <FieldByteFlags as Readable>::error_at(old(reader).bytes(), old(reader).at()) {
                Some(e) => r == Err::<(), Error>(e),
                None => r is Ok && <FieldByteFlags as Readable>::reads_as(old(reader).bytes(), old(reader).at(), *final(self))
                    && final(reader).at() == <FieldByteFlags as Readable>::end_of(old(reader).bytes(), old(reader).at()),
            },
            r is Err ==> *final(self) == *old(self),
    {
        let ghost data = reader.bytes();
        let ghost pos = reader.at();
        let b = reader.read_bytes(1)?;
        let b = b.as_slice();
        assert(window(b@, 0, 1) =~= window(data, pos + 0, 1));
        self.byte_flags = get_u8(b, 0);
        Ok(())
    }
}

/// A point in 2D.
#[derive(Debug, Clone, Copy, PartialEq, Eq, Default)]
pub struct FieldPoint2D {
    /// Value as read.
    pub x: u16,
    /// Value as read.
    pub y: u16,
}

impl Readable for FieldPoint2D {
    open spec fn error_at(data: Seq<u8>, pos: int) -> Option<Error> {
        if fits(data, pos, 4) { None } else { Some(Error::ReadError) }
    }

    open spec fn end_of(data: Seq<u8>, pos: int) -> int {
        pos + 4
    }

    open spec fn reads_as(data: Seq<u8>, pos: int, v: Self) -> bool {
        v == FieldPoint2D { x: u16_at(data, pos), y: u16_at(data, pos + 2) }
    }

    fn read(&mut self, reader: &mut ByteReader) -> (r: Result<(), Error>) {
        FieldPoint2D::read(self, reader)
    }
}

impl FieldPoint2D {
    /// Reads the value at the reader's position.
    pub fn read(&mut self, reader: &mut ByteReader) -> (r: Result<(), Error>)
        ensures
            final(reader).bytes() == old(reader).bytes(),
            match <FieldPoint2D as Readable>::error_at(old(reader).bytes(), old(reader).at()) {
                Some(e) => r == Err::<(), Error>(e),
                None => r is Ok && <FieldPoint2D as Readable>::reads_as(old(reader).bytes(), old(reader).at(), *final(self))
                    && final(reader).at() == <FieldPoint2D as Readable>::end_of(old(reader).bytes(), old(reader).at()),
            },
            r is Err ==> *final(self) == *old(self),
    {
        let ghost data = reader.bytes();
        let ghost pos = reader.at();
        let b = reader.read_bytes(4)?;
        let b = b.as_slice();
        assert(window(b@, 0, 2) =~= window(data, pos + 0, 2));
        self.x = get_u16(b, 0);
        assert(window(b@, 2, 2) =~= window(data, pos + 2, 2));
        self.y = get_u16(b, 2);
        Ok(())
    }
}

/// A rectangle in 2D.
#[derive(Debug, Clone, Copy, PartialEq, Eq, Default)]
pub struct FieldRectangle2D {
    /// Value as read.
    pub x: u16,
    /// Value as read.
    pub y: u16,
}

impl Readable for FieldRectangle2D {
    open spec fn error_at(data: Seq<u8>, pos: int) -> Option<Error> {
        if fits(data, pos, 4) { None } else { Some(Error::ReadError) }
    }

    open spec fn end_of(data: Seq<u8>, pos: int) -> int {
        pos + 4
    }

    open spec fn reads_as(data: Seq<u8>, pos: int, v: Self) -> bool {
        v == FieldRectangle2D { x: u16_at(data, pos), y: u16_at(data, pos + 2) }
    }

    fn read(&mut self, reader: &mut ByteReader) -> (r: Result<(), Error>) {
        FieldRectangle2D::read(self, reader)
    }
}

impl FieldRectangle2D {
    /// Reads the value at the reader's position.
    pub fn read(&mut self, reader: &mut ByteReader) -> (r: Result<(), Error>)
        ensures
            final(reader).bytes() == old(reader).bytes(),
            match <FieldRectangle2D as Readable>::error_at(old(reader).bytes(), old(reader).at()) {
                Some(e) => r == Err::<(), Error>(e),
                None => r is Ok && <FieldRectangle2D as Readable>::reads_as(old(reader).bytes(), old(reader).at(), *final(self))
                    && final(reader).at() == <FieldRectangle2D as Readable>::end_of(old(reader).bytes(), old(reader).at()),
            },
            r is Err ==> *final(self) == *old(self),
    {
        let ghost data = reader.bytes();
        let ghost pos = reader.at();
        let b = reader.read_bytes(4)?;
        let b = b.as_slice();
        assert(window(b@, 0, 2) =~= window(data, pos + 0, 2));
        self.x = get_u16(b, 0);
        assert(window(b@, 2, 2) =~= window(data, pos + 2, 2));
        self.y = get_u16(b, 2);
        Ok(())
    }
}

/// A color as red, green, blue and an unused byte.
#[derive(Debug, Clone, Copy, PartialEq, Eq, Default)]
pub struct FieldRGBColor {
    /// Value as read.
    pub r: u8,
    /// Value as read.
    pub g: u8,
    /// Value as read.
    pub b: u8,
    /// Value as read.
    pub a: u8,
}

impl Readable for FieldRGBColor {
    open spec fn error_at(data: Seq<u8>, pos: int) -> Option<Error> {
        if fits(data, pos, 4) { None } else { Some(Error::ReadError) }
    }

    open spec fn end_of(data: Seq<u8>, pos: int) -> int {
        pos + 4
    }

    open spec fn reads_as(data: Seq<u8>, pos: int, v: Self) -> bool {
        v == FieldRGBColor { r: u8_at(data, pos), g: u8_at(data, pos + 1), b: u8_at(data, pos + 2), a: u8_at(data, pos + 3) }
    }

    fn read(&mut self, reader: &mut ByteReader) -> (r: Result<(), Error>) {
        FieldRGBColor::read(self, reader)
    }
}

impl FieldRGBColor {
    /// Reads the value at the reader's position.
    pub fn read(&mut self, reader: &mut ByteReader) -> (r: Result<(), Error>)
        ensures
            final(reader).bytes() == old(reader).bytes(),
            match <FieldRGBColor as Readable>::error_at(old(reader).bytes(), old(reader).at()) {
                Some(e) => r == Err::<(), Error>(e),
                None => r is Ok && <FieldRGBColor as Readable>::reads_as(old(reader).bytes(), old(reader).at(), *final(self))
                    && final(reader).at() == <FieldRGBColor as Readable>::end_of(old(reader).bytes(), old(reader).at()),
            },
            r is Err ==> *final(self) == *old(self),
    {
        let ghost data = reader.bytes();
        let ghost pos = reader.at();
        let b = reader.read_bytes(4)?;
        let b = b.as_slice();
        assert(window(b@, 0, 1) =~= window(data, pos + 0, 1));
        self.r = get_u8(b, 0);
        assert(window(b@, 1, 1) =~= window(data, pos + 1, 1));
        self.g = get_u8(b, 1);
        assert(window(b@, 2, 1) =~= window(data, pos + 2, 1));
        self.b = get_u8(b, 2);
        assert(window(b@, 3, 1) =~= window(data, pos + 3, 1));
        self.a = get_u8(b, 3);
        Ok(())
    }
}

/// A color as four bytes.
#[derive(Debug, Clone, Copy, PartialEq, Eq, Default)]
pub struct FieldARGBColor {
    /// Value as read.
    pub r: u8,
    /// Value as read.
    pub g: u8,
    /// Value as read.
    pub b: u8,
    /// Value as read.
    pub a: u8,
}

impl Readable for FieldARGBColor {
    open spec fn error_at(data: Seq<u8>, pos: int) -> Option<Error> {
        if fits(data, pos, 4) { None } else { Some(Error::ReadError) }
    }

    open spec fn end_of(data: Seq<u8>, pos: int) -> int {
        pos + 4
    }

    open spec fn reads_as(data: Seq<u8>, pos: int, v: Self) -> bool {
        v == FieldARGBColor { r: u8_at(data, pos), g: u8_at(data, pos + 1), b: u8_at(data, pos + 2), a: u8_at(data, pos + 3) }
    }

    fn read(&mut self, reader: &mut ByteReader) -> (r: Result<(), Error>) {
        FieldARGBColor::read(self, reader)
    }
}

impl FieldARGBColor {
    /// Reads the value at the reader's position.
    pub fn read(&mut self, reader: &mut ByteReader) -> (r: Result<(), Error>)
        ensures
            final(reader).bytes() == old(reader).bytes(),
            match <FieldARGBColor as Readable>::error_at(old(reader).bytes(), old(reader).at()) {
                Some(e) => r == Err::<(), Error>(e),
                None => r is Ok && <FieldARGBColor as Readable>::reads_as(old(reader).bytes(), old(reader).at(), *final(self))
                    && final(reader).at() == <FieldARGBColor as Readable>::end_of(old(reader).bytes(), old(reader).at()),
            },
            r is Err ==> *final(self) == *old(self),
    {
        let ghost data = reader.bytes();
        let ghost pos = reader.at();
        let b = reader.read_bytes(4)?;
        let b = b.as_slice();
        assert(window(b@, 0, 1) =~= window(data, pos + 0, 1));
        self.r = get_u8(b, 0);
        assert(window(b@, 1, 1) =~= window(data, pos + 1, 1));
        self.g = get_u8(b, 1);
        assert(window(b@, 2, 1) =~= window(data, pos + 2, 1));
        self.b = get_u8(b, 2);
        assert(window(b@, 3, 1) =~= window(data, pos + 3, 1));
        self.a = get_u8(b, 3);
        Ok(())
    }
}

/// Bounds as two 16-bit values.
#[derive(Debug, Clone, Copy, PartialEq, Eq, Default)]
pub struct FieldShortBounds {
    /// Value as read.
    pub min: u16,
    /// Value as read.
    pub max: u16,
}

impl Readable for FieldShortBounds {
    open spec fn error_at(data: Seq<u8>, pos: int) -> Option<Error> {
        if fits(data, pos, 4) { None } else { Some(Error::ReadError) }
    }

    open spec fn end_of(data: Seq<u8>, pos: int) -> int {
        pos + 4
    }

    open spec fn reads_as(data: Seq<u8>, pos: int, v: Self) -> bool {
        v == FieldShortBounds { min: u16_at(data, pos), max: u16_at(data, pos + 2) }
    }

    fn read(&mut self, reader: &mut ByteReader) -> (r: Result<(), Error>) {
        FieldShortBounds::read(self, reader)
    }
}

impl FieldShortBounds {
    /// Reads the value at the reader's position.
    pub fn read(&mut self, reader: &mut ByteReader) -> (r: Result<(), Error>)
        ensures
            final(reader).bytes() == old(reader).bytes(),
            match <FieldShortBounds as Readable>::error_at(old(reader).bytes(), old(reader).at()) {
                Some(e) => r == Err::<(), Error>(e),
                None => r is Ok && <FieldShortBounds as Readable>::reads_as(old(reader).bytes(), old(reader).at(), *final(self))
                    && final(reader).at() == <FieldShortBounds as Readable>::end_of(old(reader).bytes(), old(reader).at()),
            },
            r is Err ==> *final(self) == *old(self),
    {
        let ghost data = reader.bytes();
        let ghost pos = reader.at();
        let b = reader.read_bytes(4)?;
        let b = b.as_slice();
        assert(window(b@, 0, 2) =~= window(data, pos + 0, 2));
        self.min = get_u16(b, 0);
        assert(window(b@, 2, 2) =~= window(data, pos + 2, 2));
        self.max = get_u16(b, 2);
        Ok(())
    }
}

/// Unused 32 bits, kept as read.
#[derive(Debug, Clone, Copy, PartialEq, Eq, Default)]
pub struct FieldUnused2 {
    /// Value as read.
    pub unused: u32,
}

impl Readable for FieldUnused2 {
    open spec fn error_at(data: Seq<u8>, pos: int) -> Option<Error> {
        if fits(data, pos, 4) { None } else { Some(Error::ReadError) }
    }

    open spec fn end_of(data: Seq<u8>, pos: int) -> int {
        pos + 4
    }

    open spec fn reads_as(data: Seq<u8>, pos: int, v: Self) -> bool {
        v == FieldUnused2 { unused: u32_at(data, pos) }
    }

    fn read(&mut self, reader: &mut ByteReader) -> (r: Result<(), Error>) {
        FieldUnused2::read(self, reader)
    }
}

impl FieldUnused2 {
    /// Reads the value at the reader's position.
    pub fn read(&mut self, reader: &mut ByteReader) -> (r: Result<(), Error>)
        ensures
            final(reader).bytes() == old(reader).bytes(),
            match <FieldUnused2 as Readable>::error_at(old(reader).bytes(), old(reader).at()) {
                Some(e) => r == Err::<(), Error>(e),
                None => r is Ok && <FieldUnused2 as Readable>::reads_as(old(reader).bytes(), old(reader).at(), *final(self))
                    && final(reader).at() == <FieldUnused2 as Readable>::end_of(old(reader).bytes(), old(reader).at()),
            },
            r is Err ==> *final(self) == *old(self),
    {
        let ghost data = reader.bytes();
        let ghost pos = reader.at();
        let b = reader.read_bytes(4)?;
        let b = b.as_slice();
        assert(window(b@, 0, 4) =~= window(data, pos + 0, 4));
        self.unused = get_u32(b, 0);
        Ok(())
    }
}

/// Unused 32 bits, kept as read.
#[derive(Debug, Clone, Copy, PartialEq, Eq, Default)]
pub struct FieldUnused3 {
    /// Value as read.
    pub unused: u32,
}

impl Readable for FieldUnused3 {
    open spec fn error_at(data: Seq<u8>, pos: int) -> Option<Error> {
        if fits(data, pos, 4) { None } else { Some(Error::ReadError) }
    }

    open spec fn end_of(data: Seq<u8>, pos: int) -> int {
        pos + 4
    }

    open spec fn reads_as(data: Seq<u8>, pos: int, v: Self) -> bool {
        v == FieldUnused3 { unused: u32_at(data, pos) }
    }

    fn read(&mut self, reader: &mut ByteReader) -> (r: Result<(), Error>) {
        FieldUnused3::read(self, reader)
    }
}

impl FieldUnused3 {
    /// Reads the value at the reader's position.
    pub fn read(&mut self, reader: &mut ByteReader) -> (r: Result<(), Error>)
        ensures
            final(reader).bytes() == old(reader).bytes(),
            match <FieldUnused3 as Readable>::error_at(old(reader).bytes(), old(reader).at()) {
                Some(e) => r == Err::<(), Error>(e),
                None => r is Ok && <FieldUnused3 as Readable>::reads_as(old(reader).bytes(), old(reader).at(), *final(self))
                    && final(reader).at() == <FieldUnused3 as Readable>::end_of(old(reader).bytes(), old(reader).at()),
            },
            r is Err ==> *final(self) == *old(self),
    {
        let ghost data = reader.bytes();
        let ghost pos = reader.at();
        let b = reader.read_bytes(4)?;
        let b = b.as_slice();
        assert(window(b@, 0, 4) =~= window(data, pos + 0, 4));
        self.unused = get_u32(b, 0);
        Ok(())
    }
}

/// Flags over the elements of an array.
#[derive(Debug, Clone, Copy, PartialEq, Eq, Default)]
pub struct FieldLongBlockFlags {
    /// Value as read.
    pub flags: u32,
}

impl Readable for FieldLongBlockFlags {
    open spec fn error_at(data: Seq<u8>, pos: int) -> Option<Error> {
        if fits(data, pos, 4) { None } else { Some(Error::ReadError) }
    }

    open spec fn end_of(data: Seq<u8>, pos: int) -> int {
        pos + 4
    }

    open spec fn reads_as(data: Seq<u8>, pos: int, v: Self) -> bool {
        v == FieldLongBlockFlags { flags: u32_at(data, pos) }
    }

    fn read(&mut self, reader: &mut ByteReader) -> (r: Result<(), Error>) {
        FieldLongBlockFlags::read(self, reader)
    }
}

impl FieldLongBlockFlags {
    /// Reads the value at the reader's position.
    pub fn read(&mut self, reader: &mut ByteReader) -> (r: Result<(), Error>)
        ensures
            final(reader).bytes() == old(reader).bytes(),
            match <FieldLongBlockFlags as Readable>::error_at(old(reader).bytes(), old(reader).at()) {
                Some(e) => r == Err::<(), Error>(e),
                None => r is Ok && <FieldLongBlockFlags as Readable>::reads_as(old(reader).bytes(), old(reader).at(), *final(self))
                    && final(reader).at() == <FieldLongBlockFlags as Readable>::end_of(old(reader).bytes(), old(reader).at()),
            },
            r is Err ==> *final(self) == *old(self),
    {
        let ghost data = reader.bytes();
        let ghost pos = reader.at();
        let b = reader.read_bytes(4)?;
        let b = b.as_slice();
        assert(window(b@, 0, 4) =~= window(data, pos + 0, 4));
        self.flags = get_u32(b, 0);
        Ok(())
    }
}

/// Flags over the elements of an array.
#[derive(Debug, Clone, Copy, PartialEq, Eq, Default)]
pub struct FieldWordBlockFlags {
    /// Value as read.
    pub flags: u32,
}

impl Readable for FieldWordBlockFlags {
    open spec fn error_at(data: Seq<u8>, pos: int) -> Option<Error> {
        if fits(data, pos, 4) { None } else { Some(Error::ReadError) }
    }

    open spec fn end_of(data: Seq<u8>, pos: int) -> int {
        pos + 4
    }

    open spec fn reads_as(data: Seq<u8>, pos: int, v: Self) -> bool {
        v == FieldWordBlockFlags { flags: u32_at(data, pos) }
    }

    fn read(&mut self, reader: &mut ByteReader) -> (r: Result<(), Error>) {
        FieldWordBlockFlags::read(self, reader)
    }
}

impl FieldWordBlockFlags {
    /// Reads the value at the reader's position.
    pub fn read(&mut self, reader: &mut ByteReader) -> (r: Result<(), Error>)
        ensures
            final(reader).bytes() == old(reader).bytes(),
            match <FieldWordBlockFlags as Readable>::error_at(old(reader).bytes(), old(reader).at()) {
                Some(e) => r == Err::<(), Error>(e),
                None => r is Ok && <FieldWordBlockFlags as Readable>::reads_as(old(reader).bytes(), old(reader).at(), *final(self))
                    && final(reader).at() == <FieldWordBlockFlags as Readable>::end_of(old(reader).bytes(), old(reader).at()),
            },
            r is Err ==> *final(self) == *old(self),
    {
        let ghost data = reader.bytes();
        let ghost pos = reader.at();
        let b = reader.read_bytes(4)?;
        let b = b.as_slice();
        assert(window(b@, 0, 4) =~= window(data, pos + 0, 4));
        self.flags = get_u32(b, 0);
        Ok(())
    }
}

/// Flags over the elements of an array.
#[derive(Debug, Clone, Copy, PartialEq, Eq, Default)]
pub struct FieldByteBlockFlags {
    /// Value as read.
    pub flags: u32,
}

impl Readable for FieldByteBlockFlags {
    open spec fn error_at(data: Seq<u8>, pos: int) -> Option<Error> {
        if fits(data, pos, 4) { None } else { Some(Error::ReadError) }
    }

    open spec fn end_of(data: Seq<u8>, pos: int) -> int {
        pos + 4
    }

    open spec fn reads_as(data: Seq<u8>, pos: int, v: Self) -> bool {
        v == FieldByteBlockFlags { flags: u32_at(data, pos) }
    }

    fn read(&mut self, reader: &mut ByteReader) -> (r: Result<(), Error>) {
        FieldByteBlockFlags::read(self, reader)
    }
}

impl FieldByteBlockFlags {
    /// Reads the value at the reader's position.
    pub fn read(&mut self, reader: &mut ByteReader) -> (r: Result<(), Error>)
        ensures
            final(reader).bytes() == old(reader).bytes(),
            match <FieldByteBlockFlags as Readable>::error_at(old(reader).bytes(), old(reader).at()) {
                Some(e) => r == Err::<(), Error>(e),
                None => r is Ok && <FieldByteBlockFlags as Readable>::reads_as(old(reader).bytes(), old(reader).at(), *final(self))
                    && final(reader).at() == <FieldByteBlockFlags as Readable>::end_of(old(reader).bytes(), old(reader).at()),
            },
            r is Err ==> *final(self) == *old(self),
    {
        let ghost data = reader.bytes();
        let ghost pos = reader.at();
        let b = reader.read_bytes(4)?;
        let b = b.as_slice();
        assert(window(b@, 0, 4) =~= window(data, pos + 0, 4));
        self.flags = get_u32(b, 0);
        Ok(())
    }
}

/// An 8-bit index into an array.
#[derive(Debug, Clone, Copy, PartialEq, Eq, Default)]
pub struct FieldCharBlockIndex {
    /// Value as read.
    pub index: u8,
}

impl Readable for FieldCharBlockIndex {
    open spec fn error_at(data: Seq<u8>, pos: int) -> Option<Error> {
        if fits(data, pos, 1) { None } else { Some(Error::ReadError) }
    }

    open spec fn end_of(data: Seq<u8>, pos: int) -> int {
        pos + 1
    }

    open spec fn reads_as(data: Seq<u8>, pos: int, v: Self) -> bool {
        v == FieldCharBlockIndex { index: u8_at(data, pos) }
    }

    fn read(&mut self, reader: &mut ByteReader) -> (r: Result<(), Error>) {
        FieldCharBlockIndex::read(self, reader)
    }
}

impl FieldCharBlockIndex {
    /// Reads the value at the reader's position.
    pub fn read(&mut self, reader: &mut ByteReader) -> (r: Result<(), Error>)
        ensures
            final(reader).bytes() == old(reader).bytes(),
            match <FieldCharBlockIndex as Readable>::error_at(old(reader).bytes(), old(reader).at()) {
                Some(e) => r == Err::<(), Error>(e),
                None => r is Ok && <FieldCharBlockIndex as Readable>::reads_as(old(reader).bytes(), old(reader).at(), *final(self))
                    && final(reader).at() == <FieldCharBlockIndex as Readable>::end_of(old(reader).bytes(), old(reader).at()),
            },
            r is Err ==> *final(self) == *old(self),
    {
        let ghost data = reader.bytes();
        let ghost pos = reader.at();
        let b = reader.read_bytes(1)?;
        let b = b.as_slice();
        assert(window(b@, 0, 1) =~= window(data, pos + 0, 1));
        self.index = get_u8(b, 0);
        Ok(())
    }
}

/// An 8-bit index into an array.
#[derive(Debug, Clone, Copy, PartialEq, Eq, Default)]
pub struct FieldCustomCharBlockIndex {
    /// Value as read.
    pub index: u8,
}

impl Readable for FieldCustomCharBlockIndex {
    open spec fn error_at(data: Seq<u8>, pos: int) -> Option<Error> {
        if fits(data, pos, 1) { None } else { Some(Error::ReadError) }
    }

    open spec fn end_of(data: Seq<u8>, pos: int) -> int {
        pos + 1
    }

    open spec fn reads_as(data: Seq<u8>, pos: int, v: Self) -> bool {
        v == FieldCustomCharBlockIndex { index: u8_at(data, pos) }
    }

    fn read(&mut self, reader: &mut ByteReader) -> (r: Result<(), Error>) {
        FieldCustomCharBlockIndex::read(self, reader)
    }
}

impl FieldCustomCharBlockIndex {
    /// Reads the value at the reader's position.
    pub fn read(&mut self, reader: &mut ByteReader) -> (r: Result<(), Error>)
        ensures
            final(reader).bytes() == old(reader).bytes(),
            match <FieldCustomCharBlockIndex as Readable>::error_at(old(reader).bytes(), old(reader).at()) {
                Some(e) => r == Err::<(), Error>(e),
                None => r is Ok && <FieldCustomCharBlockIndex as Readable>::reads_as(old(reader).bytes(), old(reader).at(), *final(self))
                    && final(reader).at() == <FieldCustomCharBlockIndex as Readable>::end_of(old(reader).bytes(), old(reader).at()),
            },
            r is Err ==> *final(self) == *old(self),
    {
        let ghost data = reader.bytes();
        let ghost pos = reader.at();
        let b = reader.read_bytes(1)?;
        let b = b.as_slice();
        assert(window(b@, 0, 1) =~= window(data, pos + 0, 1));
        self.index = get_u8(b, 0);
        Ok(())
    }
}

/// A 16-bit index into an array.
#[derive(Debug, Clone, Copy, PartialEq, Eq, Default)]
pub struct FieldShortBlockIndex {
    /// Value as read.
    pub index: u16,
}

impl Readable for FieldShortBlockIndex {
    open spec fn error_at(data: Seq<u8>, pos: int) -> Option<Error> {
        if fits(data, pos, 2) { None } else { Some(Error::ReadError) }
    }

    open spec fn end_of(data: Seq<u8>, pos: int) -> int {
        pos + 2
    }

    open spec fn reads_as(data: Seq<u8>, pos: int, v: Self) -> bool {
        v == FieldShortBlockIndex { index: u16_at(data, pos) }
    }

    fn read(&mut self, reader: &mut ByteReader) -> (r: Result<(), Error>) {
        FieldShortBlockIndex::read(self, reader)
    }
}

impl FieldShortBlockIndex {
    /// Reads the value at the reader's position.
    pub fn read(&mut self, reader: &mut ByteReader) -> (r: Result<(), Error>)
        ensures
            final(reader).bytes() == old(reader).bytes(),
            match <FieldShortBlockIndex as Readable>::error_at(old(reader).bytes(), old(reader).at()) {
                Some(e) => r == Err::<(), Error>(e),
                None => r is Ok && <FieldShortBlockIndex as Readable>::reads_as(old(reader).bytes(), old(reader).at(), *final(self))
                    && final(reader).at() == <FieldShortBlockIndex as Readable>::end_of(old(reader).bytes(), old(reader).at()),
            },
            r is Err ==> *final(self) == *old(self),
    {
        let ghost data = reader.bytes();
        let ghost pos = reader.at();
        let b = reader.read_bytes(2)?;
        let b = b.as_slice();
        assert(window(b@, 0, 2) =~= window(data, pos + 0, 2));
        self.index = get_u16(b, 0);
        Ok(())
    }
}

/// A 16-bit index into an array.
#[derive(Debug, Clone, Copy, PartialEq, Eq, Default)]
pub struct FieldCustomShortBlockIndex {
    /// Value as read.
    pub index: u16,
}

impl Readable for FieldCustomShortBlockIndex {
    open spec fn error_at(data: Seq<u8>, pos: int) -> Option<Error> {
        if fits(data, pos, 2) { None } else { Some(Error::ReadError) }
    }

    open spec fn end_of(data: Seq<u8>, pos: int) -> int {
        pos + 2
    }

    open spec fn reads_as(data: Seq<u8>, pos: int, v: Self) -> bool {
        v == FieldCustomShortBlockIndex { index: u16_at(data, pos) }
    }

    fn read(&mut self, reader: &mut ByteReader) -> (r: Result<(), Error>) {
        FieldCustomShortBlockIndex::read(self, reader)
    }
}

impl FieldCustomShortBlockIndex {
    /// Reads the value at the reader's position.
    pub fn read(&mut self, reader: &mut ByteReader) -> (r: Result<(), Error>)
        ensures
            final(reader).bytes() == old(reader).bytes(),
            match <FieldCustomShortBlockIndex as Readable>::error_at(old(reader).bytes(), old(reader).at()) {
                Some(e) => r == Err::<(), Error>(e),
                None => r is Ok && <FieldCustomShortBlockIndex as Readable>::reads_as(old(reader).bytes(), old(reader).at(), *final(self))
                    && final(reader).at() == <FieldCustomShortBlockIndex as Readable>::end_of(old(reader).bytes(), old(reader).at()),
            },
            r is Err ==> *final(self) == *old(self),
    {
        let ghost data = reader.bytes();
        let ghost pos = reader.at();
        let b = reader.read_bytes(2)?;
        let b = b.as_slice();
        assert(window(b@, 0, 2) =~= window(data, pos + 0, 2));
        self.index = get_u16(b, 0);
        Ok(())
    }
}

/// A 32-bit index into an array.
#[derive(Debug, Clone, Copy, PartialEq, Eq, Default)]
pub struct FieldLongBlockIndex {
    /// Value as read.
    pub index: u32,
}

impl Readable for FieldLongBlockIndex {
    open spec fn error_at(data: Seq<u8>, pos: int) -> Option<Error> {
        if fits(data, pos, 4) { None } else { Some(Error::ReadError) }
    }

    open spec fn end_of(data: Seq<u8>, pos: int) -> int {
        pos + 4
    }

    open spec fn reads_as(data: Seq<u8>, pos: int, v: Self) -> bool {
        v == FieldLongBlockIndex { index: u32_at(data, pos) }
    }

    fn read(&mut self, reader: &mut ByteReader) -> (r: Result<(), Error>) {
        FieldLongBlockIndex::read(self, reader)
    }
}

impl FieldLongBlockIndex {
    /// Reads the value at the reader's position.
    pub fn read(&mut self, reader: &mut ByteReader) -> (r: Result<(), Error>)
        ensures
            final(reader).bytes() == old(reader).bytes(),
            match <FieldLongBlockIndex as Readable>::error_at(old(reader).bytes(), old(reader).at()) {
                Some(e) => r == Err::<(), Error>(e),
                None => r is Ok && <FieldLongBlockIndex as Readable>::reads_as(old(reader).bytes(), old(reader).at(), *final(self))
                    && final(reader).at() == <FieldLongBlockIndex as Readable>::end_of(old(reader).bytes(), old(reader).at()),
            },
            r is Err ==> *final(self) == *old(self),
    {
        let ghost data = reader.bytes();
        let ghost pos = reader.at();
        let b = reader.read_bytes(4)?;
        let b = b.as_slice();
        assert(window(b@, 0, 4) =~= window(data, pos + 0, 4));
        self.index = get_u32(b, 0);
        Ok(())
    }
}

/// A 32-bit index into an array.
#[derive(Debug, Clone, Copy, PartialEq, Eq, Default)]
pub struct FieldCustomLongBlockIndex {
    /// Value as read.
    pub index: u32,
}

impl Readable for FieldCustomLongBlockIndex {
    open spec fn error_at(data: Seq<u8>, pos: int) -> Option<Error> {
        if fits(data, pos, 4) { None } else { Some(Error::ReadError) }
    }

    open spec fn end_of(data: Seq<u8>, pos: int) -> int {
        pos + 4
    }

    open spec fn reads_as(data: Seq<u8>, pos: int, v: Self) -> bool {
        v == FieldCustomLongBlockIndex { index: u32_at(data, pos) }
    }

    fn read(&mut self, reader: &mut ByteReader) -> (r: Result<(), Error>) {
        FieldCustomLongBlockIndex::read(self, reader)
    }
}

impl FieldCustomLongBlockIndex {
    /// Reads the value at the reader's position.
    pub fn read(&mut self, reader: &mut ByteReader) -> (r: Result<(), Error>)
        ensures
            final(reader).bytes() == old(reader).bytes(),
            match <FieldCustomLongBlockIndex as Readable>::error_at(old(reader).bytes(), old(reader).at()) {
                Some(e) => r == Err::<(), Error>(e),
                None => r is Ok && <FieldCustomLongBlockIndex as Readable>::reads_as(old(reader).bytes(), old(reader).at(), *final(self))
                    && final(reader).at() == <FieldCustomLongBlockIndex as Readable>::end_of(old(reader).bytes(), old(reader).at()),
            },
            r is Err ==> *final(self) == *old(self),
    {
        let ghost data = reader.bytes();
        let ghost pos = reader.at();
        let b = reader.read_bytes(4)?;
        let b = b.as_slice();
        assert(window(b@, 0, 4) =~= window(data, pos + 0, 4));
        self.index = get_u32(b, 0);
        Ok(())
    }
}

/// Unused 32 bits, kept as read.
#[derive(Debug, Clone, Copy, PartialEq, Eq, Default)]
pub struct FieldUnused4 {
    /// Value as read.
    pub unused: u32,
}

impl Readable for FieldUnused4 {
    open spec fn error_at(data: Seq<u8>, pos: int) -> Option<Error> {
        if fits(data, pos, 4) { None } else { Some(Error::ReadError) }
    }

    open spec fn end_of(data: Seq<u8>, pos: int) -> int {
        pos + 4
    }

    open spec fn reads_as(data: Seq<u8>, pos: int, v: Self) -> bool {
        v == FieldUnused4 { unused: u32_at(data, pos) }
    }

    fn read(&mut self, reader: &mut ByteReader) -> (r: Result<(), Error>) {
        FieldUnused4::read(self, reader)
    }
}

impl FieldUnused4 {
    /// Reads the value at the reader's position.
    pub fn read(&mut self, reader: &mut ByteReader) -> (r: Result<(), Error>)
        ensures
            final(reader).bytes() == old(reader).bytes(),
            match <FieldUnused4 as Readable>::error_at(old(reader).bytes(), old(reader).at()) {
                Some(e) => r == Err::<(), Error>(e),
                None => r is Ok && <FieldUnused4 as Readable>::reads_as(old(reader).bytes(), old(reader).at(), *final(self))
                    && final(reader).at() == <FieldUnused4 as Readable>::end_of(old(reader).bytes(), old(reader).at()),
            },
            r is Err ==> *final(self) == *old(self),
    {
        let ghost data = reader.bytes();
        let ghost pos = reader.at();
        let b = reader.read_bytes(4)?;
        let b = b.as_slice();
        assert(window(b@, 0, 4) =~= window(data, pos + 0, 4));
        self.unused = get_u32(b, 0);
        Ok(())
    }
}

/// Unused 32 bits, kept as read.
#[derive(Debug, Clone, Copy, PartialEq, Eq, Default)]
pub struct FieldUnused5 {
    /// Value as read.
    pub unused: u32,
}

impl Readable for FieldUnused5 {
    open spec fn error_at(data: Seq<u8>, pos: int) -> Option<Error> {
        if fits(data, pos, 4) { None } else { Some(Error::ReadError) }
    }

    open spec fn end_of(data: Seq<u8>, pos: int) -> int {
        pos + 4
    }

    open spec fn reads_as(data: Seq<u8>, pos: int, v: Self) -> bool {
        v == FieldUnused5 { unused: u32_at(data, pos) }
    }

    fn read(&mut self, reader: &mut ByteReader) -> (r: Result<(), Error>) {
        FieldUnused5::read(self, reader)
    }
}

impl FieldUnused5 {
    /// Reads the value at the reader's position.
    pub fn read(&mut self, reader: &mut ByteReader) -> (r: Result<(), Error>)
        ensures
            final(reader).bytes() == old(reader).bytes(),
            match <FieldUnused5 as Readable>::error_at(old(reader).bytes(), old(reader).at()) {
                Some(e) => r == Err::<(), Error>(e),
                None => r is Ok && <FieldUnused5 as Readable>::reads_as(old(reader).bytes(), old(reader).at(), *final(self))
                    && final(reader).at() == <FieldUnused5 as Readable>::end_of(old(reader).bytes(), old(reader).at()),
            },
            r is Err ==> *final(self) == *old(self),
    {
        let ghost data = reader.bytes();
        let ghost pos = reader.at();
        let b = reader.read_bytes(4)?;
        let b = b.as_slice();
        assert(window(b@, 0, 4) =~= window(data, pos + 0, 4));
        self.unused = get_u32(b, 0);
        Ok(())
    }
}

/// Unused 32 bits, kept as read.
#[derive(Debug, Clone, Copy, PartialEq, Eq, Default)]
pub struct FieldUnused6 {
    /// Value as read.
    pub unused: u32,
}

impl Readable for FieldUnused6 {
    open spec fn error_at(data: Seq<u8>, pos: int) -> Option<Error> {
        if fits(data, pos, 4) { None } else { Some(Error::ReadError) }
    }

    open spec fn end_of(data: Seq<u8>, pos: int) -> int {
        pos + 4
    }

    open spec fn reads_as(data: Seq<u8>, pos: int, v: Self) -> bool {
        v == FieldUnused6 { unused: u32_at(data, pos) }
    }

    fn read(&mut self, reader: &mut ByteReader) -> (r: Result<(), Error>) {
        FieldUnused6::read(self, reader)
    }
}

impl FieldUnused6 {
    /// Reads the value at the reader's position.
    pub fn read(&mut self, reader: &mut ByteReader) -> (r: Result<(), Error>)
        ensures
            final(reader).bytes() == old(reader).bytes(),
            match <FieldUnused6 as Readable>::error_at(old(reader).bytes(), old(reader).at()) {
                Some(e) => r == Err::<(), Error>(e),
                None => r is Ok && <FieldUnused6 as Readable>::reads_as(old(reader).bytes(), old(reader).at(), *final(self))
                    && final(reader).at() == <FieldUnused6 as Readable>::end_of(old(reader).bytes(), old(reader).at()),
            },
            r is Err ==> *final(self) == *old(self),
    {
        let ghost data = reader.bytes();
        let ghost pos = reader.at();
        let b = reader.read_bytes(4)?;
        let b = b.as_slice();
        assert(window(b@, 0, 4) =~= window(data, pos + 0, 4));
        self.unused = get_u32(b, 0);
        Ok(())
    }
}

/// An unsigned 8-bit integer.
#[derive(Debug, Clone, Copy, PartialEq, Eq, Default)]
pub struct FieldByteInteger {
    /// Value as read.
    pub byte_integer: u8,
}

impl Readable for FieldByteInteger {
    open spec fn error_at(data: Seq<u8>, pos: int) -> Option<Error> {
        if fits(data, pos, 1) { None } else { Some(Error::ReadError) }
    }

    open spec fn end_of(data: Seq<u8>, pos: int) -> int {
        pos + 1
    }

    open spec fn reads_as(data: Seq<u8>, pos: int, v: Self) -> bool {
        v == FieldByteInteger { byte_integer: u8_at(data, pos) }
    }

    fn read(&mut self, reader: &mut ByteReader) -> (r: Result<(), Error>) {
        FieldByteInteger::read(self, reader)
    }
}

impl FieldByteInteger {
    /// Reads the value at the reader's position.
    pub fn read(&mut self, reader: &mut ByteReader) -> (r: Result<(), Error>)
        ensures
            final(reader).bytes() == old(reader).bytes(),
            match <FieldByteInteger as Readable>::error_at(old(reader).bytes(), old(reader).at()) {
                Some(e) => r == Err::<(), Error>(e),
                None => r is Ok && <FieldByteInteger as Readable>::reads_as(old(reader).bytes(), old(reader).at(), *final(self))
                    && final(reader).at() == <FieldByteInteger as Readable>::end_of(old(reader).bytes(), old(reader).at()),
            },
            r is Err ==> *final(self) == *old(self),
    {
        let ghost data = reader.bytes();
        let ghost pos = reader.at();
        let b = reader.read_bytes(1)?;
        let b = b.as_slice();
        assert(window(b@, 0, 1) =~= window(data, pos + 0, 1));
        self.byte_integer = get_u8(b, 0);
        Ok(())
    }
}

/// An unsigned 16-bit integer.
#[derive(Debug, Clone, Copy, PartialEq, Eq, Default)]
pub struct FieldWordInteger {
    /// Value as read.
    pub word_integer: u16,
}

impl Readable for FieldWordInteger {
    open spec fn error_at(data: Seq<u8>, pos: int) -> Option<Error> {
        if fits(data, pos, 2) { None } else { Some(Error::ReadError) }
    }

    open spec fn end_of(data: Seq<u8>, pos: int) -> int {
        pos + 2
    }

    open spec fn reads_as(data: Seq<u8>, pos: int, v: Self) -> bool {
        v == FieldWordInteger { word_integer: u16_at(data, pos) }
    }

    fn read(&mut self, reader: &mut ByteReader) -> (r: Result<(), Error>) {
        FieldWordInteger::read(self, reader)
    }
}

impl FieldWordInteger {
    /// Reads the value at the reader's position.
    pub fn read(&mut self, reader: &mut ByteReader) -> (r: Result<(), Error>)
        ensures
            final(reader).bytes() == old(reader).bytes(),
            match <FieldWordInteger as Readable>::error_at(old(reader).bytes(), old(reader).at()) {
                Some(e) => r == Err::<(), Error>(e),
                None => r is Ok && <FieldWordInteger as Readable>::reads_as(old(reader).bytes(), old(reader).at(), *final(self))
                    && final(reader).at() == <FieldWordInteger as Readable>::end_of(old(reader).bytes(), old(reader).at()),
            },
            r is Err ==> *final(self) == *old(self),
    {
        let ghost data = reader.bytes();
        let ghost pos = reader.at();
        let b = reader.read_bytes(2)?;
        let b = b.as_slice();
        assert(window(b@, 0, 2) =~= window(data, pos + 0, 2));
        self.word_integer = get_u16(b, 0);
        Ok(())
    }
}

/// An unsigned 32-bit integer.
#[derive(Debug, Clone, Copy, PartialEq, Eq, Default)]
pub struct FieldDwordInteger {
    /// Value as read.
    pub dword_integer: u32,
}

impl Readable for FieldDwordInteger {
    open spec fn error_at(data: Seq<u8>, pos: int) -> Option<Error> {
        if fits(data, pos, 4) { None } else { Some(Error::ReadError) }
    }

    open spec fn end_of(data: Seq<u8>, pos: int) -> int {
        pos + 4
    }

    open spec fn reads_as(data: Seq<u8>, pos: int, v: Self) -> bool {
        v == FieldDwordInteger { dword_integer: u32_at(data, pos) }
    }

    fn read(&mut self, reader: &mut ByteReader) -> (r: Result<(), Error>) {
        FieldDwordInteger::read(self, reader)
    }
}

impl FieldDwordInteger {
    /// Reads the value at the reader's position.
    pub fn read(&mut self, reader: &mut ByteReader) -> (r: Result<(), Error>)
        ensures
            final(reader).bytes() == old(reader).bytes(),
            match <FieldDwordInteger as Readable>::error_at(old(reader).bytes(), old(reader).at()) {
                Some(e) => r == Err::<(), Error>(e),
                None => r is Ok && <FieldDwordInteger as Readable>::reads_as(old(reader).bytes(), old(reader).at(), *final(self))
                    && final(reader).at() == <FieldDwordInteger as Readable>::end_of(old(reader).bytes(), old(reader).at()),
            },
            r is Err ==> *final(self) == *old(self),
    {
        let ghost data = reader.bytes();
        let ghost pos = reader.at();
        let b = reader.read_bytes(4)?;
        let b = b.as_slice();
        assert(window(b@, 0, 4) =~= window(data, pos + 0, 4));
        self.dword_integer = get_u32(b, 0);
        Ok(())
    }
}

/// An unsigned 64-bit integer.
#[derive(Debug, Clone, Copy, PartialEq, Eq, Default)]
pub struct FieldQwordInteger {
    /// Value as read.
    pub qword_integer: u64,
}

impl Readable for FieldQwordInteger {
    open spec fn error_at(data: Seq<u8>, pos: int) -> Option<Error> {
        if fits(data, pos, 8) { None } else { Some(Error::ReadError) }
    }

    open spec fn end_of(data: Seq<u8>, pos: int) -> int {
        pos + 8
    }

    open spec fn reads_as(data: Seq<u8>, pos: int, v: Self) -> bool {
        v == FieldQwordInteger { qword_integer: u64_at(data, pos) }
    }

    fn read(&mut self, reader: &mut ByteReader) -> (r: Result<(), Error>) {
        FieldQwordInteger::read(self, reader)
    }
}

impl FieldQwordInteger {
    /// Reads the value at the reader's position.
    pub fn read(&mut self, reader: &mut ByteReader) -> (r: Result<(), Error>)
        ensures
            final(reader).bytes() == old(reader).bytes(),
            match <FieldQwordInteger as Readable>::error_at(old(reader).bytes(), old(reader).at()) {
                Some(e) => r == Err::<(), Error>(e),
                None => r is Ok && <FieldQwordInteger as Readable>::reads_as(old(reader).bytes(), old(reader).at(), *final(self))
                    && final(reader).at() == <FieldQwordInteger as Readable>::end_of(old(reader).bytes(), old(reader).at()),
            },
            r is Err ==> *final(self) == *old(self),
    {
        let ghost data = reader.bytes();
        let ghost pos = reader.at();
        let b = reader.read_bytes(8)?;
        let b = b.as_slice();
        assert(window(b@, 0, 8) =~= window(data, pos + 0, 8));
        self.qword_integer = get_u64(b, 0);
        Ok(())
    }
}

/// A reference to a blob of data and its size.
#[derive(Debug, Clone, Copy, PartialEq, Eq, Default)]
pub struct FieldData {
    /// Value as read.
    pub data: u64,
    /// Value as read.
    pub type_info: u64,
    /// Value as read.
    pub unknown: u32,
    /// Value as read.
    pub size: u32,
}

impl Readable for FieldData {
    open spec fn error_at(data: Seq<u8>, pos: int) -> Option<Error> {
        if fits(data, pos, 24) { None } else { Some(Error::ReadError) }
    }

    open spec fn end_of(data: Seq<u8>, pos: int) -> int {
        pos + 24
    }

    open spec fn reads_as(data: Seq<u8>, pos: int, v: Self) -> bool {
        v == FieldData { data: u64_at(data, pos), type_info: u64_at(data, pos + 8), unknown: u32_at(data, pos + 16), size: u32_at(data, pos + 20) }
    }

    fn read(&mut self, reader: &mut ByteReader) -> (r: Result<(), Error>) {
        FieldData::read(self, reader)
    }
}

impl FieldData {
    /// Reads the value at the reader's position.
    pub fn read(&mut self, reader: &mut ByteReader) -> (r: Result<(), Error>)
        ensures
            final(reader).bytes() == old(reader).bytes(),
            match <FieldData as Readable>::error_at(old(reader).bytes(), old(reader).at()) {
                Some(e) => r == Err::<(), Error>(e),
                None => r is Ok && <FieldData as Readable>::reads_as(old(reader).bytes(), old(reader).at(), *final(self))
                    && final(reader).at() == <FieldData as Readable>::end_of(old(reader).bytes(), old(reader).at()),
            },
            r is Err ==> *final(self) == *old(self),
    {
        let ghost data = reader.bytes();
        let ghost pos = reader.at();
        let b = reader.read_bytes(24)?;
        let b = b.as_slice();
        assert(window(b@, 0, 8) =~= window(data, pos + 0, 8));
        self.data = get_u64(b, 0);
        assert(window(b@, 8, 8) =~= window(data, pos + 8, 8));
        self.type_info = get_u64(b, 8);
        assert(window(b@, 16, 4) =~= window(data, pos + 16, 4));
        self.unknown = get_u32(b, 16);
        assert(window(b@, 20, 4) =~= window(data, pos + 20, 4));
        self.size = get_u32(b, 20);
        Ok(())
    }
}

/// The identifier and local handle of a tag.
#[derive(Debug, Clone, Copy, PartialEq, Eq, Default)]
pub struct AnyTagGuts {
    /// Value as read.
    pub tag_id: i32,
    /// Value as read.
    pub local_tag_handle: i32,
}

impl Readable for AnyTagGuts {
    open spec fn error_at(data: Seq<u8>, pos: int) -> Option<Error> {
        if fits(data, pos, 8) { None } else { Some(Error::ReadError) }
    }

    open spec fn end_of(data: Seq<u8>, pos: int) -> int {
        pos + 8
    }

    open spec fn reads_as(data: Seq<u8>, pos: int, v: Self) -> bool {
        v == AnyTagGuts { tag_id: i32_at(data, pos), local_tag_handle: i32_at(data, pos + 4) }
    }

    fn read(&mut self, reader: &mut ByteReader) -> (r: Result<(), Error>) {
        AnyTagGuts::read(self, reader)
    }
}

impl AnyTagGuts {
    /// Reads the value at the reader's position.
    pub fn read(&mut self, reader: &mut ByteReader) -> (r: Result<(), Error>)
        ensures
            final(reader).bytes() == old(reader).bytes(),
            match <AnyTagGuts as Readable>::error_at(old(reader).bytes(), old(reader).at()) {
                Some(e) => r == Err::<(), Error>(e),
                None => r is Ok && <AnyTagGuts as Readable>::reads_as(old(reader).bytes(), old(reader).at(), *final(self))
                    && final(reader).at() == <AnyTagGuts as Readable>::end_of(old(reader).bytes(), old(reader).at()),
            },
            r is Err ==> *final(self) == *old(self),
    {
        let ghost data = reader.bytes();
        let ghost pos = reader.at();
        let b = reader.read_bytes(8)?;
        let b = b.as_slice();
        assert(window(b@, 0, 4) =~= window(data, pos + 0, 4));
        self.tag_id = get_i32(b, 0);
        assert(window(b@, 4, 4) =~= window(data, pos + 4, 4));
        self.local_tag_handle = get_i32(b, 4);
        Ok(())
    }
}

} // verus!
