//! The tag file: header and cross-reference tables at the start of a tag's buffer.

use vstd::prelude::*;
use vstd::utf8::{decode_utf8, valid_utf8};

use crate::errors::Error;
use crate::extensions::{many_end, many_error, terminator_from, u32_at, window, ByteReader, Readable};
use crate::module_header::{version_number, ModuleVersion};
use crate::tag_header::{tag_header_error, tag_header_from, TagHeader};
use crate::tag_tables::{TagDataBlock, TagDataReference, TagDependency, TagReference, TagStruct};
use crate::tag_structs::{AnyStructure, JsonSourceFileTagDefinition, LuaScriptTagDefinition};
use crate::tag_zoneset::{TagZoneset, TagZonesetHeader};

verus! {

/// A tag's header, its five cross-reference tables and its zoneset metadata.
#[derive(Debug, Default)]
pub struct TagFile {
    /// Counts of the tables and sizes of the sections.
    pub header: TagHeader,
    /// Tags that this tag depends on.
    pub dependencies: Vec<TagDependency>,
    /// Described regions of the tag's buffer.
    pub datablock_definitions: Vec<TagDataBlock>,
    /// Links from fields to the regions they point at.
    pub struct_definitions: Vec<TagStruct>,
    /// References from fields to blobs of data.
    pub data_references: Vec<TagDataReference>,
    /// References from fields to other tags.
    pub tag_references: Vec<TagReference>,
    /// Header of the zoneset section.
    pub zoneset_header: TagZonesetHeader,
    /// Zonesets, kept as read.
    pub zonesets: Vec<TagZoneset>,
    /// The tag's structure, for the groups read by [`TagFile::read_struct`].
    pub structure: Option<AnyStructure>,
}

/// Where the dependency table of the tag at `pos` starts: after its 80-byte header.
pub open spec fn dependencies_at(pos: int) -> int {
    pos + 80
}

/// Where the datablock table starts.
pub open spec fn datablocks_at(data: Seq<u8>, pos: int, h: TagHeader) -> int {
    many_end::<TagDependency>(data, dependencies_at(pos), h.dependency_count as nat)
}

/// Where the struct table starts.
pub open spec fn structs_at(data: Seq<u8>, pos: int, h: TagHeader) -> int {
    many_end::<TagDataBlock>(data, datablocks_at(data, pos, h), h.datablock_count as nat)
}

/// Where the data reference table starts.
pub open spec fn data_references_at(data: Seq<u8>, pos: int, h: TagHeader) -> int {
    many_end::<TagStruct>(data, structs_at(data, pos, h), h.tagstruct_count as nat)
}

/// Where the tag reference table starts.
pub open spec fn tag_references_at(data: Seq<u8>, pos: int, h: TagHeader) -> int {
    many_end::<TagDataReference>(data, data_references_at(data, pos, h), h.data_reference_count as nat)
}

/// Where the string table starts.
pub open spec fn strings_at(data: Seq<u8>, pos: int, h: TagHeader) -> int {
    many_end::<TagReference>(data, tag_references_at(data, pos, h), h.tag_reference_count as nat)
}

/// Where the zoneset section starts: after the string table.
pub open spec fn zoneset_at(data: Seq<u8>, pos: int, h: TagHeader) -> int {
    strings_at(data, pos, h) + h.string_table_size
}

/// The first error met reading the five tables of a tag whose header is `h`, if any.
#[verifier::opaque]
pub open spec fn tables_error(data: Seq<u8>, pos: int, h: TagHeader) -> Option<Error> {
    if many_error::<TagDependency>(data, dependencies_at(pos), h.dependency_count as nat) is Some {
        many_error::<TagDependency>(data, dependencies_at(pos), h.dependency_count as nat)
    } else if many_error::<TagDataBlock>(data, datablocks_at(data, pos, h), h.datablock_count as nat) is Some {
        many_error::<TagDataBlock>(data, datablocks_at(data, pos, h), h.datablock_count as nat)
    } else if many_error::<TagStruct>(data, structs_at(data, pos, h), h.tagstruct_count as nat) is Some {
        many_error::<TagStruct>(data, structs_at(data, pos, h), h.tagstruct_count as nat)
    } else if many_error::<TagDataReference>(data, data_references_at(data, pos, h), h.data_reference_count as nat) is Some {
        many_error::<TagDataReference>(data, data_references_at(data, pos, h), h.data_reference_count as nat)
    } else {
        many_error::<TagReference>(data, tag_references_at(data, pos, h), h.tag_reference_count as nat)
    }
}

/// The name that the string table holds at `offset`: the UTF-8 text up to the next zero byte.
pub open spec fn table_name(data: Seq<u8>, strings: int, offset: u32) -> Option<Seq<char>> {
    let start = strings + offset;
    let text = data.subrange(start, terminator_from(data, start));
    if start <= data.len() && valid_utf8(text) {
        Some(decode_utf8(text))
    } else {
        None
    }
}

/// Whether `t` holds, in `items`, what the table of `k` records of type `T` at `at` reads as.
pub open spec fn table_read<T: Readable>(data: Seq<u8>, at: int, k: nat, items: Seq<T>) -> bool {
    &&& items.len() == k
    &&& forall|i: int| 0 <= i < k ==> T::reads_as(data, #[trigger] many_end::<T>(data, at, i as nat), items[i])
}

/// Whether two dependencies agree in all but their names.
pub open spec fn same_but_name_dependency(a: TagDependency, b: TagDependency) -> bool {
    a.tag_group@ == b.tag_group@ && a.name_offset == b.name_offset && a.asset_id == b.asset_id
        && a.tag_id == b.tag_id && a.parent_index == b.parent_index
}

/// Whether two tag references agree in all but their names.
pub open spec fn same_but_name_reference(a: TagReference, b: TagReference) -> bool {
    a.field_block == b.field_block && a.field_offset == b.field_offset && a.name_offset == b.name_offset
        && a.dependency_index == b.dependency_index
}

/// Whether `deps` holds the `k` dependencies of the table at `at`, each named
/// from the string table at `strings` where that is given, else unnamed.
pub open spec fn dependencies_read(data: Seq<u8>, at: int, k: nat, strings: Option<int>, deps: Seq<TagDependency>) -> bool {
    &&& deps.len() == k
    &&& forall|i: int| 0 <= i < k ==> {
        let d = #[trigger] deps[i];
        &&& TagDependency::reads_as(data, many_end::<TagDependency>(data, at, i as nat), TagDependency { name: None, ..d })
        &&& match strings {
            Some(s) => d.name matches Some(n) && Some(n@) == table_name(data, s, d.name_offset),
            None => d.name is None,
        }
    }
}

/// Whether `refs` holds the `k` tag references of the table at `at`, each named
/// from the string table at `strings` where that is given, else unnamed.
pub open spec fn references_read(data: Seq<u8>, at: int, k: nat, strings: Option<int>, refs: Seq<TagReference>) -> bool {
    &&& refs.len() == k
    &&& forall|i: int| 0 <= i < k ==> {
        let t = #[trigger] refs[i];
        &&& TagReference::reads_as(data, many_end::<TagReference>(data, at, i as nat), TagReference { name: None, ..t })
        &&& match strings {
            Some(s) => t.name matches Some(n) && Some(n@) == table_name(data, s, t.name_offset),
            None => t.name is None,
        }
    }
}

/// Whether `f` holds the header and the five tables of the tag at `pos`,
/// names taken from the string table where `named`.
#[verifier::opaque]
pub open spec fn tables_read(data: Seq<u8>, pos: int, named: bool, f: TagFile) -> bool {
    let h = tag_header_from(window(data, pos, 80));
    let strings = if named { Some(strings_at(data, pos, h)) } else { None };
    &&& f.header == h
    &&& dependencies_read(data, dependencies_at(pos), h.dependency_count as nat, strings, f.dependencies@)
    &&& table_read::<TagDataBlock>(data, datablocks_at(data, pos, h), h.datablock_count as nat, f.datablock_definitions@)
    &&& table_read::<TagStruct>(data, structs_at(data, pos, h), h.tagstruct_count as nat, f.struct_definitions@)
    &&& table_read::<TagDataReference>(data, data_references_at(data, pos, h), h.data_reference_count as nat, f.data_references@)
    &&& references_read(data, tag_references_at(data, pos, h), h.tag_reference_count as nat, strings, f.tag_references@)
}

/// Whether `f` is what the tag at `pos` reads as: its header and tables
/// (named from the string table where `named`) and its zoneset section.
#[verifier::opaque]
pub open spec fn tag_file_read(data: Seq<u8>, pos: int, named: bool, f: TagFile) -> bool {
    let h = tag_header_from(window(data, pos, 80));
    &&& tag_header_error(data, pos) is None && tables_error(data, pos, h) is None
    &&& tables_read(data, pos, named, f)
    &&& TagZonesetHeader::reads_as(data, zoneset_at(data, pos, h), f.zoneset_header)
    &&& table_read::<TagZoneset>(data, zoneset_at(data, pos, h) + 16, f.zoneset_header.zoneset_count as nat, f.zonesets@)
}

/// Whether the tag at the start of `data` reads without error.
pub open spec fn tag_reads(data: Seq<u8>, named: bool) -> bool {
    let h = tag_header_from(window(data, 0, 80));
    tag_header_error(data, 0) is None && tables_error(data, 0, h) is None && tail_ok(data, 0, h, named)
}

/// Whether a name can be read from the string table at `strings` at `offset`.
pub open spec fn name_at_ok(data: Seq<u8>, strings: int, offset: u32) -> bool {
    strings + offset <= u64::MAX && table_name(data, strings, offset) is Some
}

/// Whether every dependency and tag reference of the tag at `pos` (header
/// `h`) has a readable name in the string table.
#[verifier::opaque]
pub open spec fn names_ok(data: Seq<u8>, pos: int, h: TagHeader) -> bool {
    let strings = strings_at(data, pos, h);
    &&& forall|i: int| 0 <= i < h.dependency_count ==> name_at_ok(data, strings,
        u32_at(window(data, #[trigger] many_end::<TagDependency>(data, dependencies_at(pos), i as nat), 24), 4))
    &&& forall|i: int| 0 <= i < h.tag_reference_count ==> name_at_ok(data, strings,
        u32_at(window(data, #[trigger] many_end::<TagReference>(data, tag_references_at(data, pos, h), i as nat), 16), 8))
}

/// Whether what follows the tables of the tag at `pos` reads: the names where
/// `named`, the zoneset header and the zonesets.
#[verifier::opaque]
pub open spec fn tail_ok(data: Seq<u8>, pos: int, h: TagHeader, named: bool) -> bool {
    let zs = zoneset_at(data, pos, h);
    &&& named ==> names_ok(data, pos, h)
    &&& zs <= u64::MAX
    &&& TagZonesetHeader::error_at(data, zs) is None
    &&& many_error::<TagZoneset>(data, zs + 16, u32_at(window(data, zs, 16), 4) as nat) is None
}

/// Where the names of a tag can be read, each dependency and tag reference
/// read from its table has a readable name.
pub proof fn lemma_names_of_tables(data: Seq<u8>, pos: int, f: TagFile)
    requires
        tables_read(data, pos, false, f),
        names_ok(data, pos, tag_header_from(window(data, pos, 80))),
    ensures
        forall|j: int| 0 <= j < f.dependencies@.len() ==> name_at_ok(data,
            strings_at(data, pos, tag_header_from(window(data, pos, 80))), (#[trigger] f.dependencies@[j]).name_offset),
        forall|j: int| 0 <= j < f.tag_references@.len() ==> name_at_ok(data,
            strings_at(data, pos, tag_header_from(window(data, pos, 80))), (#[trigger] f.tag_references@[j]).name_offset),
{
    reveal(tables_read);
    reveal(names_ok);
    let h = tag_header_from(window(data, pos, 80));
    assert forall|j: int| 0 <= j < f.dependencies@.len() implies name_at_ok(data, strings_at(data, pos, h),
        (#[trigger] f.dependencies@[j]).name_offset) by {
        let at = many_end::<TagDependency>(data, dependencies_at(pos), j as nat);
        assert(TagDependency::reads_as(data, at, TagDependency { name: None, ..f.dependencies@[j] }));
    }
    assert forall|j: int| 0 <= j < f.tag_references@.len() implies name_at_ok(data, strings_at(data, pos, h),
        (#[trigger] f.tag_references@[j]).name_offset) by {
        let at = many_end::<TagReference>(data, tag_references_at(data, pos, h), j as nat);
        assert(TagReference::reads_as(data, at, TagReference { name: None, ..f.tag_references@[j] }));
    }
}

/// Naming the dependencies and tag references of tables read without names
/// gives the tables read with names.
pub proof fn lemma_named_tables(data: Seq<u8>, pos: int, a: TagFile, b: TagFile)
    requires
        tables_read(data, pos, false, a),
        b.header == a.header,
        b.datablock_definitions@ == a.datablock_definitions@,
        b.struct_definitions@ == a.struct_definitions@,
        b.data_references@ == a.data_references@,
        b.dependencies@.len() == a.dependencies@.len(),
        forall|j: int| 0 <= j < a.dependencies@.len() ==> {
            let d = #[trigger] b.dependencies@[j];
            &&& same_but_name_dependency(d, a.dependencies@[j])
            &&& d.name matches Some(n) && Some(n@) == table_name(data, strings_at(data, pos, a.header), d.name_offset)
        },
        b.tag_references@.len() == a.tag_references@.len(),
        forall|j: int| 0 <= j < a.tag_references@.len() ==> {
            let t = #[trigger] b.tag_references@[j];
            &&& same_but_name_reference(t, a.tag_references@[j])
            &&& t.name matches Some(n) && Some(n@) == table_name(data, strings_at(data, pos, a.header), t.name_offset)
        },
    ensures
        tables_read(data, pos, true, b),
{
    reveal(tables_read);
    let h = a.header;
    assert forall|i: int| 0 <= i < h.dependency_count implies TagDependency::reads_as(data,
        many_end::<TagDependency>(data, dependencies_at(pos), i as nat), TagDependency { name: None, ..#[trigger] b.dependencies@[i] }) by {
        assert(TagDependency::reads_as(data, many_end::<TagDependency>(data, dependencies_at(pos), i as nat),
            TagDependency { name: None, ..a.dependencies@[i] }));
    }
    assert forall|i: int| 0 <= i < h.tag_reference_count implies TagReference::reads_as(data,
        many_end::<TagReference>(data, tag_references_at(data, pos, h), i as nat), TagReference { name: None, ..#[trigger] b.tag_references@[i] }) by {
        assert(TagReference::reads_as(data, many_end::<TagReference>(data, tag_references_at(data, pos, h), i as nat),
            TagReference { name: None, ..a.tag_references@[i] }));
    }
}

/// Names each dependency from the string table at `strings`.
fn name_dependencies(deps: &mut Vec<TagDependency>, reader: &mut ByteReader, strings: u64) -> (r: Result<(), Error>)
    ensures
        final(reader).bytes() == old(reader).bytes(),
        final(deps)@.len() == old(deps)@.len(),
        (forall|j: int| 0 <= j < old(deps)@.len() ==> name_at_ok(old(reader).bytes(), strings as int, (#[trigger] old(deps)@[j]).name_offset))
            ==> r is Ok,
        r is Ok ==> forall|j: int| 0 <= j < old(deps)@.len() ==> {
            let d = #[trigger] final(deps)@[j];
            &&& same_but_name_dependency(d, old(deps)@[j])
            &&& d.name matches Some(n) && Some(n@) == table_name(old(reader).bytes(), strings as int, d.name_offset)
        },
{
    let ghost data = reader.bytes();
    let mut i: usize = 0;
    while i < deps.len()
        invariant
            reader.bytes() == data,
            data == old(reader).bytes(),
            0 <= i <= deps@.len(),
            deps@.len() == old(deps)@.len(),
            forall|j: int| 0 <= j < deps@.len() ==> same_but_name_dependency(#[trigger] deps@[j], old(deps)@[j]),
            forall|j: int| 0 <= j < i ==> ((#[trigger] deps@[j]).name matches Some(n) && Some(n@) == table_name(data, strings as int, deps@[j].name_offset)),
        decreases deps@.len() - i,
    {
        let offset = deps[i].name_offset;
        let at = match strings.checked_add(offset as u64) {
            Some(p) => p,
            None => return Err(Error::ReadError),
        };
        reader.seek(at);
        let name = reader.read_null_terminated_string()?;
        let d = TagDependency {
            tag_group: deps[i].tag_group.clone(),
            name_offset: deps[i].name_offset,
            asset_id: deps[i].asset_id,
            tag_id: deps[i].tag_id,
            parent_index: deps[i].parent_index,
            name: Some(name),
        };
        deps.set(i, d);
        i = i + 1;
    }
    Ok(())
}

/// Names each tag reference from the string table at `strings`.
fn name_references(refs: &mut Vec<TagReference>, reader: &mut ByteReader, strings: u64) -> (r: Result<(), Error>)
    ensures
        final(reader).bytes() == old(reader).bytes(),
        final(refs)@.len() == old(refs)@.len(),
        (forall|j: int| 0 <= j < old(refs)@.len() ==> name_at_ok(old(reader).bytes(), strings as int, (#[trigger] old(refs)@[j]).name_offset))
            ==> r is Ok,
        r is Ok ==> forall|j: int| 0 <= j < old(refs)@.len() ==> {
            let t = #[trigger] final(refs)@[j];
            &&& same_but_name_reference(t, old(refs)@[j])
            &&& t.name matches Some(n) && Some(n@) == table_name(old(reader).bytes(), strings as int, t.name_offset)
        },
{
    let ghost data = reader.bytes();
    let mut i: usize = 0;
    while i < refs.len()
        invariant
            reader.bytes() == data,
            data == old(reader).bytes(),
            0 <= i <= refs@.len(),
            refs@.len() == old(refs)@.len(),
            forall|j: int| 0 <= j < refs@.len() ==> same_but_name_reference(#[trigger] refs@[j], old(refs)@[j]),
            forall|j: int| 0 <= j < i ==> ((#[trigger] refs@[j]).name matches Some(n) && Some(n@) == table_name(data, strings as int, refs@[j].name_offset)),
        decreases refs@.len() - i,
    {
        let offset = refs[i].name_offset;
        let at = match strings.checked_add(offset as u64) {
            Some(p) => p,
            None => return Err(Error::ReadError),
        };
        reader.seek(at);
        let name = reader.read_null_terminated_string()?;
        let t = TagReference {
            field_block: refs[i].field_block,
            field_offset: refs[i].field_offset,
            name_offset: refs[i].name_offset,
            dependency_index: refs[i].dependency_index,
            name: Some(name),
        };
        refs.set(i, t);
        i = i + 1;
    }
    Ok(())
}

/// Reads the zoneset header and the zonesets it counts.
fn read_zonesets(reader: &mut ByteReader) -> (r: Result<(TagZonesetHeader, Vec<TagZoneset>), Error>)
    ensures
        final(reader).bytes() == old(reader).bytes(),
        ({
            let data = old(reader).bytes();
            let zs = old(reader).at();
            &&& r is Ok <==> TagZonesetHeader::error_at(data, zs) is None
                && many_error::<TagZoneset>(data, zs + 16, u32_at(window(data, zs, 16), 4) as nat) is None
            &&& r matches Ok((h, v)) ==> TagZonesetHeader::reads_as(data, zs, h)
                && table_read::<TagZoneset>(data, zs + 16, h.zoneset_count as nat, v@)
        }),
{
    let mut header = TagZonesetHeader { string_id: 0, zoneset_count: 0, footer_count: 0, parents: 0 };
    header.read(reader)?;
    let zonesets = reader.read_enumerable::<TagZoneset>(header.zoneset_count as u64)?;
    Ok((header, zonesets))
}

/// What `tail_ok` asks for, part by part.
proof fn lemma_tail(data: Seq<u8>, pos: int, h: TagHeader, named: bool)
    ensures
        tail_ok(data, pos, h, named) ==> {
            let zs = zoneset_at(data, pos, h);
            &&& named ==> names_ok(data, pos, h)
            &&& zs <= u64::MAX
            &&& TagZonesetHeader::error_at(data, zs) is None
            &&& many_error::<TagZoneset>(data, zs + 16, u32_at(window(data, zs, 16), 4) as nat) is None
        },
{
    reveal(tail_ok);
}

/// The parts of a tag file read one after another make the tag file read.
proof fn lemma_tag_file_read(data: Seq<u8>, pos: int, named: bool, tables: TagFile, f: TagFile)
    requires
        f.header == tables.header,
        f.dependencies@ == tables.dependencies@,
        f.datablock_definitions@ == tables.datablock_definitions@,
        f.struct_definitions@ == tables.struct_definitions@,
        f.data_references@ == tables.data_references@,
        f.tag_references@ == tables.tag_references@,
        ({
            let h = tag_header_from(window(data, pos, 80));
            &&& tag_header_error(data, pos) is None && tables_error(data, pos, h) is None
            &&& tables_read(data, pos, named, tables)
            &&& TagZonesetHeader::reads_as(data, zoneset_at(data, pos, h), f.zoneset_header)
            &&& table_read::<TagZoneset>(data, zoneset_at(data, pos, h) + 16, f.zoneset_header.zoneset_count as nat, f.zonesets@)
        }),
    ensures
        tag_file_read(data, pos, named, f),
{
    reveal(tag_file_read);
    reveal(tables_read);
}

impl TagFile {
    /// Reads the tag's header and tables from the start of its buffer, then
    /// moves the reader to where the tag's data begins (`header_size`).
    /// Versions before Season 3 also name dependencies and tag references
    /// from the string table that follows the tables.
    /// Reads the header and the five tables, leaving names unset.
    fn read_tables(&mut self, reader: &mut ByteReader) -> (r: Result<(), Error>)
        ensures
            final(reader).bytes() == old(reader).bytes(),
            ({
                let data = old(reader).bytes();
                let pos = old(reader).at();
                let h = tag_header_from(window(data, pos, 80));
                &&& tag_header_error(data, pos) is Some ==> r == Err::<(), Error>(tag_header_error(data, pos)->0)
                &&& tag_header_error(data, pos) is None && tables_error(data, pos, h) is Some
                    ==> r == Err::<(), Error>(tables_error(data, pos, h)->0)
                &&& r is Ok ==> tag_header_error(data, pos) is None && tables_error(data, pos, h) is None
                    && tables_read(data, pos, false, *final(self)) && final(self).header == h
                &&& tag_header_error(data, pos) is None && tables_error(data, pos, h) is None ==> r is Ok
                    && final(reader).at() == strings_at(data, pos, h)
            }),
            r is Err ==> *final(self) == *old(self),
    {
        reveal(tables_error);
        let ghost data = reader.bytes();
        let ghost pos = reader.at();
        let mut header = TagHeader::new();
        header.read(reader)?;
        let dependencies = reader.read_enumerable::<TagDependency>(header.dependency_count as u64)?;
        assert forall|i: int| 0 <= i < header.dependency_count implies
            TagDependency { name: None, ..#[trigger] dependencies@[i] } == dependencies@[i] by {
            assert(TagDependency::reads_as(data, many_end::<TagDependency>(data, dependencies_at(pos), i as nat), dependencies@[i]));
        }
        let datablocks = reader.read_enumerable::<TagDataBlock>(header.datablock_count as u64)?;
        let structs = reader.read_enumerable::<TagStruct>(header.tagstruct_count as u64)?;
        let data_references = reader.read_enumerable::<TagDataReference>(header.data_reference_count as u64)?;
        let tag_references = reader.read_enumerable::<TagReference>(header.tag_reference_count as u64)?;
        self.header = header;
        self.dependencies = dependencies;
        self.datablock_definitions = datablocks;
        self.struct_definitions = structs;
        self.data_references = data_references;
        self.tag_references = tag_references;
        proof { reveal(tables_read); }
        Ok(())
    }

    /// Reads the tag's header and tables from the start of its buffer, then
    /// moves the reader to where the tag's data begins (`header_size`).
    /// Versions before Season 3 also name dependencies and tag references
    /// from the string table that follows the tables; the zoneset section
    /// follows the string table.
    pub fn read(&mut self, reader: &mut ByteReader, version: &ModuleVersion) -> (r: Result<(), Error>)
        ensures
            final(reader).bytes() == old(reader).bytes(),
            ({
                let data = old(reader).bytes();
                let pos = old(reader).at();
                let h = tag_header_from(window(data, pos, 80));
                let named = version_number(*version) < 53;
                &&& tag_header_error(data, pos) is Some ==> r == Err::<(), Error>(tag_header_error(data, pos)->0)
                &&& tag_header_error(data, pos) is None && tables_error(data, pos, h) is Some
                    ==> r == Err::<(), Error>(tables_error(data, pos, h)->0)
                &&& r is Ok ==> tag_file_read(data, pos, named, *final(self)) && final(reader).at() == h.header_size
                &&& tag_header_error(data, pos) is None && tables_error(data, pos, h) is None && tail_ok(data, pos, h, named) ==> r is Ok
                &&& tag_header_error(data, pos) is Some || tables_error(data, pos, h) is Some ==> *final(self) == *old(self)
            }),
    {
        let ghost data = reader.bytes();
        let ghost pos = reader.at();
        self.read_tables(reader)?;
        self.read_rest(reader, version, Ghost(pos))
    }

    /// Reads what follows the tables of the tag at `pos`: the names (before
    /// Season 3), the zoneset section; then moves to where the data begins.
    fn read_rest(&mut self, reader: &mut ByteReader, version: &ModuleVersion, pos: Ghost<int>) -> (r: Result<(), Error>)
        requires
            ({
                let data = old(reader).bytes();
                let h = tag_header_from(window(data, pos@, 80));
                &&& tag_header_error(data, pos@) is None && tables_error(data, pos@, h) is None
                &&& tables_read(data, pos@, false, *old(self))
                &&& old(self).header == h
                &&& old(reader).at() == strings_at(data, pos@, h)
            }),
        ensures
            final(reader).bytes() == old(reader).bytes(),
            ({
                let data = old(reader).bytes();
                let h = tag_header_from(window(data, pos@, 80));
                let named = version_number(*version) < 53;
                &&& r is Ok ==> tag_file_read(data, pos@, named, *final(self)) && final(reader).at() == h.header_size
                &&& tail_ok(data, pos@, h, named) ==> r is Ok
            }),
    {
        let ghost data = reader.bytes();
        let ghost pos = pos@;
        let strings = reader.stream_position();
        let ghost h = self.header;
        let ghost named = version_number(*version) < 53;
        proof { lemma_tail(data, pos, h, named); }
        if version.number() < 53 {
            let ghost before = *self;
            proof {
                if names_ok(data, pos, h) {
                    lemma_names_of_tables(data, pos, *self);
                }
            }
            name_dependencies(&mut self.dependencies, reader, strings)?;
            name_references(&mut self.tag_references, reader, strings)?;
            proof { lemma_named_tables(data, pos, before, *self); }
        }
        let ghost tables = *self;
        let zoneset_start = match strings.checked_add(self.header.string_table_size as u64) {
            Some(p) => p,
            None => return Err(Error::ReadError),
        };
        reader.seek(zoneset_start);
        let (zoneset_header, zonesets) = read_zonesets(reader)?;
        self.zonesets = zonesets;
        self.zoneset_header = zoneset_header;
        reader.seek(self.header.header_size as u64);
        proof { lemma_tag_file_read(data, pos, named, tables, *self); }
        Ok(())
    }
}

impl TagFile {
    /// Reads the structure of a tag of group `tag_group` at the reader's
    /// position, for the groups this library knows ("jssc" and "luas"), and
    /// keeps it; for any other group nothing is read.
    pub fn read_struct(&mut self, tag_group: &str, reader: &mut ByteReader) -> (r: Result<(), Error>)
        ensures
            final(reader).bytes() == old(reader).bytes(),
            tag_group@ == "jssc"@ ==> match JsonSourceFileTagDefinition::error_at(old(reader).bytes(), old(reader).at()) {
                Some(e) => r == Err::<(), Error>(e),
                None => r is Ok && (final(self).structure matches Some(AnyStructure::Jssc(j))
                    && JsonSourceFileTagDefinition::reads_as(old(reader).bytes(), old(reader).at(), j)),
            },
            tag_group@ == "luas"@ ==> match LuaScriptTagDefinition::error_at(old(reader).bytes(), old(reader).at()) {
                Some(e) => r == Err::<(), Error>(e),
                None => r is Ok && (final(self).structure matches Some(AnyStructure::Luas(l))
                    && LuaScriptTagDefinition::reads_as(old(reader).bytes(), old(reader).at(), l)),
            },
            tag_group@ != "jssc"@ && tag_group@ != "luas"@ ==> r is Ok && final(self).structure == old(self).structure
                && final(reader).at() == old(reader).at(),
    {
        proof {
            reveal_strlit("jssc");
            reveal_strlit("luas");
            assert("jssc"@[0] != "luas"@[0]);
        }
        let group = tag_group.to_owned();
        if group == String::from_str("jssc") {
            let mut jssc = JsonSourceFileTagDefinition::new();
            jssc.read(reader)?;
            self.structure = Some(AnyStructure::Jssc(jssc));
        } else if group == String::from_str("luas") {
            let mut luas = LuaScriptTagDefinition::new();
            luas.read(reader)?;
            self.structure = Some(AnyStructure::Luas(luas));
        }
        Ok(())
    }

    /// The structure read by [`TagFile::read_struct`], if any.
    pub fn get_struct(&self) -> (r: Option<&AnyStructure>)
        ensures
            r == match self.structure {
                Some(ref s) => Some(s),
                None => None::<&AnyStructure>,
            },
    {
        match &self.structure {
            Some(s) => Some(s),
            None => None,
        }
    }
}

} // verus!
