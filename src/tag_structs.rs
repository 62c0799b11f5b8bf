//! Structures of two tag groups that are read field after field: "jssc"
//! (a JSON source file) and "luas" (a compiled Lua script).

use vstd::prelude::*;

use crate::common_types::{AnyTag, AnyTagGuts, FieldData, FieldLongString, FieldReference, FieldStringId};
use crate::errors::Error;
use crate::extensions::{decode_fixed_string, fits, many_end, many_error, u32_at, ByteReader, Readable};
use crate::resolver::FieldBlock;

verus! {

/// A JSON (with comments) source file and where it came from.
#[derive(Debug, Clone, PartialEq, Eq, Default)]
pub struct JsonSourceFileTagDefinition {
    /// Head of the structure.
    pub any_tag: AnyTag,
    /// Tag the file comes from.
    pub schema_file_reference: FieldReference,
    /// String identifier of the file name.
    pub schema_file_name: FieldStringId,
    /// Path the file comes from.
    pub schema_file_name_string: FieldLongString,
    /// Where and how large the JSON text is.
    pub schema_file_data: FieldData,
    /// The JSON text, without its terminating zero byte.
    pub data: String,
}

/// Where the JSON text of a "jssc" structure at `pos` starts.
pub open spec fn jssc_text_at(pos: int) -> int {
    pos + 328
}

/// Number of bytes of the JSON text, whose stored size counts a terminating zero byte.
pub open spec fn jssc_text_len(size: u32) -> int {
    if size == 0 { 0 } else { size - 1 }
}

impl JsonSourceFileTagDefinition {
    /// A definition with every field empty.
    pub fn new() -> (r: Self)
        ensures
            r.data@.len() == 0,
            r.schema_file_data.size == 0,
    {
        JsonSourceFileTagDefinition {
            any_tag: AnyTag { vtable_space: 0, internal_struct: AnyTagGuts { tag_id: 0, local_tag_handle: 0 } },
            schema_file_reference: FieldReference { type_info: 0, global_id: 0, asset_id: 0, group: String::new(), local_handle: 0 },
            schema_file_name: FieldStringId { string_id: 0 },
            schema_file_name_string: FieldLongString { long_string: String::new() },
            schema_file_data: FieldData { data: 0, type_info: 0, unknown: 0, size: 0 },
            data: String::new(),
        }
    }
}

impl Readable for JsonSourceFileTagDefinition {
    open spec fn error_at(data: Seq<u8>, pos: int) -> Option<Error> {
        if AnyTag::error_at(data, pos) is Some {
            AnyTag::error_at(data, pos)
        } else if FieldReference::error_at(data, pos + 16) is Some {
            FieldReference::error_at(data, pos + 16)
        } else if FieldStringId::error_at(data, pos + 44) is Some {
            FieldStringId::error_at(data, pos + 44)
        } else if FieldLongString::error_at(data, pos + 48) is Some {
            FieldLongString::error_at(data, pos + 48)
        } else if FieldData::error_at(data, pos + 304) is Some {
            FieldData::error_at(data, pos + 304)
        } else {
            let size = u32_at(data, pos + 324);
            match decode_fixed_string(data, jssc_text_at(pos), jssc_text_len(size)) {
                Ok(_) => None,
                Err(e) => Some(e),
            }
        }
    }

    open spec fn end_of(data: Seq<u8>, pos: int) -> int {
        jssc_text_at(pos) + jssc_text_len(u32_at(data, pos + 324))
    }

    open spec fn reads_as(data: Seq<u8>, pos: int, v: Self) -> bool {
        &&& AnyTag::reads_as(data, pos, v.any_tag)
        &&& FieldReference::reads_as(data, pos + 16, v.schema_file_reference)
        &&& FieldStringId::reads_as(data, pos + 44, v.schema_file_name)
        &&& FieldLongString::reads_as(data, pos + 48, v.schema_file_name_string)
        &&& FieldData::reads_as(data, pos + 304, v.schema_file_data)
        &&& decode_fixed_string(data, jssc_text_at(pos), jssc_text_len(v.schema_file_data.size))
            == Ok::<(Seq<char>, int), Error>((v.data@, jssc_text_at(pos) + jssc_text_len(v.schema_file_data.size)))
    }

    fn read(&mut self, reader: &mut ByteReader) -> (r: Result<(), Error>) {
        JsonSourceFileTagDefinition::read(self, reader)
    }
}

impl JsonSourceFileTagDefinition {
    /// Reads the value at the reader's position.
    pub fn read(&mut self, reader: &mut ByteReader) -> (r: Result<(), Error>)
        ensures
            final(reader).bytes() == old(reader).bytes(),
            match <JsonSourceFileTagDefinition as Readable>::error_at(old(reader).bytes(), old(reader).at()) {
                Some(e) => r == Err::<(), Error>(e),
                None => r is Ok && <JsonSourceFileTagDefinition as Readable>::reads_as(old(reader).bytes(), old(reader).at(), *final(self))
                    && final(reader).at() == <JsonSourceFileTagDefinition as Readable>::end_of(old(reader).bytes(), old(reader).at()),
            },
            r is Err ==> *final(self) == *old(self),
    {
        let mut any_tag = AnyTag { vtable_space: 0, internal_struct: AnyTagGuts { tag_id: 0, local_tag_handle: 0 } };
        any_tag.read(reader)?;
        let mut reference = FieldReference { type_info: 0, global_id: 0, asset_id: 0, group: String::new(), local_handle: 0 };
        reference.read(reader)?;
        let mut name = FieldStringId { string_id: 0 };
        name.read(reader)?;
        let mut name_string = FieldLongString { long_string: String::new() };
        name_string.read(reader)?;
        let mut file_data = FieldData { data: 0, type_info: 0, unknown: 0, size: 0 };
        file_data.read(reader)?;
        let len = if file_data.size == 0 { 0 } else { file_data.size - 1 };
        let text = reader.read_fixed_string(len as usize)?;
        self.any_tag = any_tag;
        self.schema_file_reference = reference;
        self.schema_file_name = name;
        self.schema_file_name_string = name_string;
        self.schema_file_data = file_data;
        self.data = text;
        Ok(())
    }
}

/// A compiled Lua script and the tags it refers to.
#[derive(Debug)]
pub struct LuaScriptTagDefinition {
    /// Head of the structure.
    pub any_tag: AnyTag,
    /// String identifier of the file name.
    pub lua_file_name: FieldStringId,
    /// How large the script is.
    pub lua_file_data: FieldData,
    /// Path of the source file the script was compiled from.
    pub lua_file_name_string: FieldLongString,
    /// The compiled script.
    pub lua_file: Vec<u8>,
    /// How many tags the script refers to.
    pub referenced_tags_block: FieldBlock,
    /// The tags the script refers to.
    pub referenced_tags: Vec<FieldReference>,
}

/// Where the script bytes of a "luas" structure at `pos` start.
pub open spec fn luas_script_at(pos: int) -> int {
    pos + 320
}

/// Where the referenced tags start: after the script, at the next multiple of four.
pub open spec fn luas_tags_at(pos: int, size: u32) -> int {
    let p = luas_script_at(pos) + size;
    p + (4 - p % 4) % 4
}

impl LuaScriptTagDefinition {
    /// A definition with every field empty.
    pub fn new() -> (r: Self)
        ensures
            r.lua_file@.len() == 0,
            r.referenced_tags@.len() == 0,
            r.referenced_tags_block.size == 0,
    {
        LuaScriptTagDefinition {
            any_tag: AnyTag { vtable_space: 0, internal_struct: AnyTagGuts { tag_id: 0, local_tag_handle: 0 } },
            lua_file_name: FieldStringId { string_id: 0 },
            lua_file_data: FieldData { data: 0, type_info: 0, unknown: 0, size: 0 },
            lua_file_name_string: FieldLongString { long_string: String::new() },
            lua_file: Vec::new(),
            referenced_tags_block: FieldBlock { type_info: 0, unknown: 0, size: 0, elements: Vec::new() },
            referenced_tags: Vec::new(),
        }
    }
}

impl Readable for LuaScriptTagDefinition {
    open spec fn error_at(data: Seq<u8>, pos: int) -> Option<Error> {
        if AnyTag::error_at(data, pos) is Some {
            AnyTag::error_at(data, pos)
        } else if FieldStringId::error_at(data, pos + 16) is Some {
            FieldStringId::error_at(data, pos + 16)
        } else if FieldData::error_at(data, pos + 20) is Some {
            FieldData::error_at(data, pos + 20)
        } else if FieldLongString::error_at(data, pos + 44) is Some {
            FieldLongString::error_at(data, pos + 44)
        } else if FieldBlock::error_at(data, pos + 300) is Some {
            FieldBlock::error_at(data, pos + 300)
        } else {
            let size = u32_at(data, pos + 40);
            let count = u32_at(data, pos + 316);
            if !fits(data, luas_script_at(pos), size as int) || luas_tags_at(pos, size) > u64::MAX {
                Some(Error::ReadError)
            } else {
                many_error::<FieldReference>(data, luas_tags_at(pos, size), count as nat)
            }
        }
    }

    open spec fn end_of(data: Seq<u8>, pos: int) -> int {
        let size = u32_at(data, pos + 40);
        let count = u32_at(data, pos + 316);
        many_end::<FieldReference>(data, luas_tags_at(pos, size), count as nat)
    }

    open spec fn reads_as(data: Seq<u8>, pos: int, v: Self) -> bool {
        let size = v.lua_file_data.size;
        let tags_at = luas_tags_at(pos, size);
        &&& AnyTag::reads_as(data, pos, v.any_tag)
        &&& FieldStringId::reads_as(data, pos + 16, v.lua_file_name)
        &&& FieldData::reads_as(data, pos + 20, v.lua_file_data)
        &&& FieldLongString::reads_as(data, pos + 44, v.lua_file_name_string)
        &&& FieldBlock::reads_as(data, pos + 300, v.referenced_tags_block)
        &&& v.lua_file@ == data.subrange(luas_script_at(pos), luas_script_at(pos) + size)
        &&& v.referenced_tags@.len() == v.referenced_tags_block.size
        &&& forall|i: int| 0 <= i < v.referenced_tags_block.size ==> FieldReference::reads_as(
            data, #[trigger] many_end::<FieldReference>(data, tags_at, i as nat), v.referenced_tags@[i])
    }

    fn read(&mut self, reader: &mut ByteReader) -> (r: Result<(), Error>) {
        LuaScriptTagDefinition::read(self, reader)
    }
}

impl LuaScriptTagDefinition {
    /// Reads the value at the reader's position.
    pub fn read(&mut self, reader: &mut ByteReader) -> (r: Result<(), Error>)
        ensures
            final(reader).bytes() == old(reader).bytes(),
            match <LuaScriptTagDefinition as Readable>::error_at(old(reader).bytes(), old(reader).at()) {
                Some(e) => r == Err::<(), Error>(e),
                None => r is Ok && <LuaScriptTagDefinition as Readable>::reads_as(old(reader).bytes(), old(reader).at(), *final(self))
                    && final(reader).at() == <LuaScriptTagDefinition as Readable>::end_of(old(reader).bytes(), old(reader).at()),
            },
            r is Err ==> *final(self) == *old(self),
    {
        let mut any_tag = AnyTag { vtable_space: 0, internal_struct: AnyTagGuts { tag_id: 0, local_tag_handle: 0 } };
        any_tag.read(reader)?;
        let mut name = FieldStringId { string_id: 0 };
        name.read(reader)?;
        let mut file_data = FieldData { data: 0, type_info: 0, unknown: 0, size: 0 };
        file_data.read(reader)?;
        let mut name_string = FieldLongString { long_string: String::new() };
        name_string.read(reader)?;
        let mut block = FieldBlock { type_info: 0, unknown: 0, size: 0, elements: Vec::new() };
        block.read(reader)?;
        let script = reader.read_bytes(file_data.size as usize)?;
        let p = reader.stream_position();
        let pad = (4 - p % 4) % 4;
        if p > u64::MAX - pad {
            return Err(Error::ReadError);
        }
        reader.seek(p + pad);
        let tags = reader.read_enumerable::<FieldReference>(block.size as u64)?;
        self.any_tag = any_tag;
        self.lua_file_name = name;
        self.lua_file_data = file_data;
        self.lua_file_name_string = name_string;
        self.lua_file = script;
        self.referenced_tags_block = block;
        self.referenced_tags = tags;
        Ok(())
    }
}

/// The structure of a tag of a group this library knows how to read.
#[derive(Debug)]
pub enum AnyStructure {
    /// A "jssc" tag.
    Jssc(JsonSourceFileTagDefinition),
    /// A "luas" tag.
    Luas(LuaScriptTagDefinition),
}

} // verus!
