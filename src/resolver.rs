//! Resolution of a tag's structure: fixed fields are read where a shape puts
//! them, and each out-of-line array or resource field is found through the
//! struct table by the address (datablock, offset) of the field itself.

use vstd::prelude::*;

use crate::errors::{Error, TagError};
use crate::extensions::{fits, window, ByteReader, Readable, get_i16, get_i32, get_i64, get_i8, get_u16, get_u32, get_u64, get_u8, i32_at, i64_at, u16_at, u32_at, u64_at, u8_at};
use crate::tag_tables::{TagDataBlock, TagStruct, TagStructType};

verus! {

/// What a field of a shape holds.
#[derive(Debug, Clone, Copy, PartialEq, Eq)]
pub enum FieldKind {
    /// An unsigned byte.
    U8,
    /// A signed byte.
    I8,
    /// A little-endian `u16`.
    U16,
    /// A little-endian `i16`.
    I16,
    /// A little-endian `u32`.
    U32,
    /// A little-endian `i32`.
    I32,
    /// A little-endian `u64`.
    U64,
    /// A little-endian `i64`.
    I64,
    /// An out-of-line array whose elements have the shape at this index of
    /// the shape table. Element shapes stand after the shapes that hold them,
    /// so that nesting ends: an index at or before the holding shape is refused.
    Block(usize),
    /// A reference to a child resource.
    Resource,
}

/// A named field of a shape, at a byte offset from the start of the structure.
#[derive(Debug, Clone, PartialEq, Eq)]
pub struct ShapeField {
    /// Name of the field.
    pub name: String,
    /// Offset of the field from the start of the structure.
    pub offset: u32,
    /// What the field holds.
    pub kind: FieldKind,
}

/// The shape of a structure: its fields and its total size.
#[derive(Debug, Clone, PartialEq, Eq)]
pub struct Shape {
    /// Size of the structure in bytes.
    pub size: u32,
    /// Fields, in the order they are read.
    pub fields: Vec<ShapeField>,
}

/// The inline part of an out-of-line array field and, once resolved, its elements.
#[derive(Debug)]
pub struct FieldBlock {
    /// Runtime type pointer, kept as read.
    pub type_info: u64,
    /// Unknown, kept as read.
    pub unknown: u64,
    /// Number of elements.
    pub size: u32,
    /// The resolved elements; empty where nothing backs the field.
    pub elements: Vec<Record>,
}

/// A reference to a child resource and, once resolved, which one.
#[derive(Debug, Clone, Copy, PartialEq, Eq)]
pub struct FieldTagResource {
    /// Runtime pointer, kept as read.
    pub block: u64,
    /// Handle, kept as read.
    pub handle: u32,
    /// Index of the resource, as stored in the field.
    pub resource_index: u32,
    /// The resource that the struct table links the field to, if any.
    pub child: Option<i32>,
}

/// The value of one field of a resolved structure.
#[derive(Debug)]
pub enum FieldValue {
    /// An unsigned integer field.
    Unsigned(u64),
    /// A signed integer field.
    Signed(i64),
    /// An out-of-line array field.
    Block(FieldBlock),
    /// A resource field.
    Resource(FieldTagResource),
}

/// A resolved structure: one value per field of its shape, in order.
#[derive(Debug)]
pub struct Record {
    /// The values of the fields.
    pub values: Vec<FieldValue>,
}

/// Number of bytes a field of this kind takes inside its structure.
pub open spec fn kind_width(k: FieldKind) -> int {
    match k {
        FieldKind::U8 | FieldKind::I8 => 1,
        FieldKind::U16 | FieldKind::I16 => 2,
        FieldKind::U32 | FieldKind::I32 => 4,
        FieldKind::U64 | FieldKind::I64 => 8,
        FieldKind::Block(_) => 20,
        FieldKind::Resource => 16,
    }
}

/// Whether a shape holds integer fields only, each inside the shape's size.
pub open spec fn leaf_shape(sh: Shape) -> bool {
    forall|k: int| 0 <= k < sh.fields@.len() ==> {
        let f = #[trigger] sh.fields@[k];
        &&& !(f.kind is Block)
        &&& !(f.kind is Resource)
        &&& f.offset + kind_width(f.kind) <= sh.size
    }
}

/// The value of an integer field of kind `k` at `pos`.
pub open spec fn leaf_value(data: Seq<u8>, pos: int, k: FieldKind) -> FieldValue {
    match k {
        FieldKind::U8 => FieldValue::Unsigned(u8_at(data, pos) as u64),
        FieldKind::I8 => FieldValue::Signed(u8_at(data, pos) as i8 as i64),
        FieldKind::U16 => FieldValue::Unsigned(u16_at(data, pos) as u64),
        FieldKind::I16 => FieldValue::Signed(u16_at(data, pos) as i16 as i64),
        FieldKind::U32 => FieldValue::Unsigned(u32_at(data, pos) as u64),
        FieldKind::I32 => FieldValue::Signed(i32_at(data, pos) as i64),
        FieldKind::U64 => FieldValue::Unsigned(u64_at(data, pos)),
        _ => FieldValue::Signed(i64_at(data, pos)),
    }
}

/// The first struct definition that links the field at (`owner`, `offset`)
/// to something: its `target_index` is not -1.
pub open spec fn find_struct(structs: Seq<TagStruct>, owner: int, offset: int) -> Option<int>
    decreases structs.len(),
{
    if structs.len() == 0 {
        None
    } else {
        match find_struct(structs.drop_last(), owner, offset) {
            Some(k) => Some(k),
            None => {
                let s = structs.last();
                if s.field_block == owner && s.field_offset == offset && s.target_index != -1 {
                    Some(structs.len() - 1)
                } else {
                    None
                }
            },
        }
    }
}

/// Where an array field at (`owner`, `offset`) with `count` elements finds
/// them: the datablock its struct definition targets; none where nothing
/// links the field or it has no elements.
pub open spec fn block_target(structs: Seq<TagStruct>, owner: int, offset: int, count: u32) -> Option<int> {
    if count == 0 {
        None
    } else {
        match find_struct(structs, owner, offset) {
            Some(k) => Some(structs[k].target_index as int),
            None => None,
        }
    }
}

/// Whether the fields of shape `si` read from `start`, within the first
/// `limit` bytes, are the first `k` of `values`, with arrays and resources
/// resolved through the struct table under datablock `owner`.
pub open spec fn fields_ok(shapes: Seq<Shape>, si: int, k: int, data: Seq<u8>, limit: int, start: int, owner: int,
    structs: Seq<TagStruct>, blocks: Seq<TagDataBlock>, values: Seq<FieldValue>) -> bool
    decreases shapes.len() - si, 1int, k,
{
    if !(0 <= si < shapes.len()) || k <= 0 {
        k == 0
    } else if k > shapes[si].fields@.len() || k > values.len() {
        false
    } else {
        fields_ok(shapes, si, k - 1, data, limit, start, owner, structs, blocks, values)
            && value_ok(shapes, si, shapes[si].fields@[k - 1], data, limit, start, owner, structs, blocks, values[k - 1])
    }
}

/// Whether `v` is what field `f` of shape `si` reads and resolves to.
pub open spec fn value_ok(shapes: Seq<Shape>, si: int, f: ShapeField, data: Seq<u8>, limit: int, start: int, owner: int,
    structs: Seq<TagStruct>, blocks: Seq<TagDataBlock>, v: FieldValue) -> bool
    decreases shapes.len() - si, 0int, 0int,
{
    let pos = start + f.offset;
    if !(0 <= pos && pos + kind_width(f.kind) <= limit && limit <= data.len()) {
        false
    } else {
        match f.kind {
            FieldKind::Block(e) => match v {
                FieldValue::Block(b) => {
                    &&& b.type_info == u64_at(data, pos)
                    &&& b.unknown == u64_at(data, pos + 8)
                    &&& b.size == u32_at(data, pos + 16)
                    &&& si < e < shapes.len()
                    &&& match block_target(structs, owner, f.offset as int, b.size) {
                        None => b.elements@.len() == 0,
                        Some(t) => {
                            &&& 0 <= t < blocks.len()
                            &&& blocks[t].offset + blocks[t].entry_size <= data.len()
                            &&& b.elements@.len() == b.size
                            &&& elements_ok(shapes, e as int, b.size as int, data, t, structs, blocks, b.elements@)
                        },
                    }
                },
                _ => false,
            },
            FieldKind::Resource => match v {
                FieldValue::Resource(r) => {
                    &&& r.block == u64_at(data, pos)
                    &&& r.handle == u32_at(data, pos + 8)
                    &&& r.resource_index == u32_at(data, pos + 12)
                    &&& r.child == match find_struct(structs, owner, f.offset as int) {
                        Some(k) => Some(structs[k].target_index),
                        None => None::<i32>,
                    }
                },
                _ => false,
            },
            _ => v == leaf_value(data, pos, f.kind),
        }
    }
}

/// Whether the first `i` of `elements` are the elements of the array in
/// datablock `t`, each of shape `e` and resolved under datablock `t`.
pub open spec fn elements_ok(shapes: Seq<Shape>, e: int, i: int, data: Seq<u8>, t: int,
    structs: Seq<TagStruct>, blocks: Seq<TagDataBlock>, elements: Seq<Record>) -> bool
    decreases shapes.len() - e, 2int, i,
{
    if i <= 0 || !(0 <= e < shapes.len()) || !(0 <= t < blocks.len()) {
        i == 0
    } else if i > elements.len() {
        false
    } else {
        let run = blocks[t];
        let at = run.offset + (i - 1) * shapes[e].size;
        &&& elements_ok(shapes, e, i - 1, data, t, structs, blocks, elements)
        &&& record_ok(shapes, e, data, run.offset + run.entry_size, at, t, structs, blocks, elements[i - 1])
    }
}

/// Whether `r` is the structure of shape `si` read from `start` within the
/// first `limit` bytes and resolved under datablock `owner`.
pub open spec fn record_ok(shapes: Seq<Shape>, si: int, data: Seq<u8>, limit: int, start: int, owner: int,
    structs: Seq<TagStruct>, blocks: Seq<TagDataBlock>, r: Record) -> bool
    decreases shapes.len() - si, 2int, 0int,
{
    &&& 0 <= si < shapes.len()
    &&& r.values@.len() == shapes[si].fields@.len()
    &&& fields_ok(shapes, si, shapes[si].fields@.len() as int, data, limit, start, owner, structs, blocks, r.values@)
}

/// The fields already checked stay checked when more values follow.
pub proof fn lemma_fields_extend(shapes: Seq<Shape>, si: int, k: int, data: Seq<u8>, limit: int, start: int, owner: int,
    structs: Seq<TagStruct>, blocks: Seq<TagDataBlock>, values: Seq<FieldValue>, v: FieldValue)
    requires
        k <= values.len(),
    ensures
        fields_ok(shapes, si, k, data, limit, start, owner, structs, blocks, values)
            == fields_ok(shapes, si, k, data, limit, start, owner, structs, blocks, values.push(v)),
    decreases k,
{
    if k > 0 {
        lemma_fields_extend(shapes, si, k - 1, data, limit, start, owner, structs, blocks, values, v);
        assert(values.push(v)[k - 1] == values[k - 1]);
    }
}

/// The elements already checked stay checked when more elements follow.
pub proof fn lemma_elements_extend(shapes: Seq<Shape>, e: int, i: int, data: Seq<u8>, t: int,
    structs: Seq<TagStruct>, blocks: Seq<TagDataBlock>, elements: Seq<Record>, r: Record)
    requires
        i <= elements.len(),
    ensures
        elements_ok(shapes, e, i, data, t, structs, blocks, elements)
            == elements_ok(shapes, e, i, data, t, structs, blocks, elements.push(r)),
    decreases i,
{
    if i > 0 {
        lemma_elements_extend(shapes, e, i - 1, data, t, structs, blocks, elements, r);
        assert(elements.push(r)[i - 1] == elements[i - 1]);
    }
}

/// A structure whose fields all resolve has each of its fields resolved.
pub proof fn lemma_fields_prefix(shapes: Seq<Shape>, si: int, n: int, k: int, data: Seq<u8>, limit: int, start: int, owner: int,
    structs: Seq<TagStruct>, blocks: Seq<TagDataBlock>, values: Seq<FieldValue>)
    requires
        0 <= k < n,
        fields_ok(shapes, si, n, data, limit, start, owner, structs, blocks, values),
    ensures
        value_ok(shapes, si, shapes[si].fields@[k], data, limit, start, owner, structs, blocks, values[k]),
    decreases n,
{
    if k < n - 1 {
        lemma_fields_prefix(shapes, si, n - 1, k, data, limit, start, owner, structs, blocks, values);
    }
}

/// Where element `i` of an array cannot be resolved, the array cannot.
pub proof fn lemma_no_elements(shapes: Seq<Shape>, e: int, count: int, i: int, data: Seq<u8>, t: int,
    structs: Seq<TagStruct>, blocks: Seq<TagDataBlock>)
    requires
        0 <= e < shapes.len(),
        0 <= t < blocks.len(),
        0 <= i < count,
        forall|rec: Record| !#[trigger] record_ok(shapes, e, data, blocks[t].offset + blocks[t].entry_size,
            blocks[t].offset + i * shapes[e].size, t, structs, blocks, rec),
    ensures
        forall|els: Seq<Record>| !(els.len() == count && blocks[t].offset + blocks[t].entry_size <= data.len()
            && #[trigger] elements_ok(shapes, e, count, data, t, structs, blocks, els)),
{
    assert forall|els: Seq<Record>| !(els.len() == count && blocks[t].offset + blocks[t].entry_size <= data.len()
        && #[trigger] elements_ok(shapes, e, count, data, t, structs, blocks, els)) by {
        if els.len() == count && elements_ok(shapes, e, count, data, t, structs, blocks, els) {
            lemma_elements_each(shapes, e, count, data, t, structs, blocks, els);
            assert(record_ok(shapes, e, data, blocks[t].offset + blocks[t].entry_size,
                blocks[t].offset + i * shapes[e].size, t, structs, blocks, els[i]));
        }
    }
}

/// The first struct definition linking the field at (`owner`, `offset`) to something.
fn find_linked(structs: &Vec<TagStruct>, owner: i32, offset: u32) -> (r: Option<usize>)
    ensures
        match find_struct(structs@, owner as int, offset as int) {
            Some(k) => r == Some(k as usize),
            None => r is None,
        },
        r matches Some(k) ==> k < structs@.len(),
        find_struct(structs@, owner as int, offset as int) matches Some(k) ==> 0 <= k < structs.len(),
{
    proof { lemma_find_range(structs@, owner as int, offset as int); }
    let mut i: usize = 0;
    while i < structs.len()
        invariant
            i <= structs@.len(),
            find_struct(structs@.subrange(0, i as int), owner as int, offset as int) is None,
        decreases structs@.len() - i,
    {
        let s = structs[i];
        assert(structs@.subrange(0, i + 1).drop_last() =~= structs@.subrange(0, i as int));
        if s.field_block == owner && s.field_offset == offset && s.target_index != -1 {
            proof { lemma_find_prefix(structs@, owner as int, offset as int, i as int + 1); }
            return Some(i);
        }
        i = i + 1;
    }
    assert(structs@.subrange(0, structs@.len() as int) =~= structs@);
    None
}

/// A match is an index of the table.
pub proof fn lemma_find_range(structs: Seq<TagStruct>, owner: int, offset: int)
    ensures
        find_struct(structs, owner, offset) matches Some(k) ==> 0 <= k < structs.len(),
    decreases structs.len(),
{
    if structs.len() > 0 {
        lemma_find_range(structs.drop_last(), owner, offset);
    }
}

/// A match found in a prefix of the table is the match of the whole table.
proof fn lemma_find_prefix(structs: Seq<TagStruct>, owner: int, offset: int, n: int)
    requires
        0 < n <= structs.len(),
        find_struct(structs.subrange(0, n), owner, offset) is Some,
    ensures
        find_struct(structs, owner, offset) == find_struct(structs.subrange(0, n), owner, offset),
    decreases structs.len() - n,
{
    if n < structs.len() {
        assert(structs.subrange(0, n + 1).drop_last() =~= structs.subrange(0, n));
        lemma_find_prefix(structs, owner, offset, n + 1);
    } else {
        assert(structs.subrange(0, n) =~= structs);
    }
}

/// The value of an integer field of kind `k` at `pos`.
fn read_leaf(data: &Vec<u8>, pos: usize, k: FieldKind) -> (r: FieldValue)
    requires
        pos + kind_width(k) <= data.len(),
        !(k is Block),
        !(k is Resource),
    ensures
        r == leaf_value(data@, pos as int, k),
{
    let b = data.as_slice();
    match k {
        FieldKind::U8 => FieldValue::Unsigned(get_u8(b, pos) as u64),
        FieldKind::I8 => FieldValue::Signed(get_i8(b, pos) as i64),
        FieldKind::U16 => FieldValue::Unsigned(get_u16(b, pos) as u64),
        FieldKind::I16 => FieldValue::Signed(get_i16(b, pos) as i64),
        FieldKind::U32 => FieldValue::Unsigned(get_u32(b, pos) as u64),
        FieldKind::I32 => FieldValue::Signed(get_i32(b, pos) as i64),
        FieldKind::U64 => FieldValue::Unsigned(get_u64(b, pos)),
        _ => FieldValue::Signed(get_i64(b, pos)),
    }
}

/// Reads the structure of shape `si` at `start` (within the first `limit`
/// bytes of `data`) and resolves its arrays and resources under datablock `owner`.
pub fn resolve_record(shapes: &Vec<Shape>, si: usize, data: &Vec<u8>, limit: usize, start: u64, owner: i32,
    structs: &Vec<TagStruct>, blocks: &Vec<TagDataBlock>) -> (r: Result<Record, Error>)
    ensures
        r matches Ok(rec) ==> record_ok(shapes@, si as int, data@, limit as int, start as int, owner as int, structs@, blocks@, rec),
        r is Err ==> forall|rec: Record| !#[trigger] record_ok(shapes@, si as int, data@, limit as int, start as int, owner as int, structs@, blocks@, rec),
        si < shapes@.len() && leaf_shape(shapes@[si as int]) && start + shapes@[si as int].size <= limit <= data@.len() ==> r is Ok,
    decreases shapes@.len() - si, 2int,
{
    if si >= shapes.len() {
        return Err(Error::TagError(TagError::TargetOutOfRange(si as i32)));
    }
    let shape = &shapes[si];
    let mut values: Vec<FieldValue> = Vec::new();
    let mut k: usize = 0;
    while k < shape.fields.len()
        invariant
            si < shapes@.len(),
            shape == shapes@[si as int],
            k <= shape.fields@.len(),
            values@.len() == k,
            fields_ok(shapes@, si as int, k as int, data@, limit as int, start as int, owner as int, structs@, blocks@, values@),
        decreases shape.fields@.len() - k,
    {
        let v = match resolve_value(shapes, si, &shape.fields[k], data, limit, start, owner, structs, blocks) {
            Ok(v) => v,
            Err(e) => {
                assert forall|rec: Record| !#[trigger] record_ok(shapes@, si as int, data@, limit as int, start as int, owner as int, structs@, blocks@, rec) by {
                    if record_ok(shapes@, si as int, data@, limit as int, start as int, owner as int, structs@, blocks@, rec) {
                        lemma_fields_prefix(shapes@, si as int, shape.fields@.len() as int, k as int, data@, limit as int, start as int,
                            owner as int, structs@, blocks@, rec.values@);
                    }
                }
                return Err(e);
            },
        };
        proof {
            lemma_fields_extend(shapes@, si as int, k as int, data@, limit as int, start as int, owner as int, structs@, blocks@, values@, v);
        }
        values.push(v);
        k = k + 1;
    }
    Ok(Record { values })
}

/// Reads field `f` of a structure of shape `si` at `start` and resolves it.
/// Reads field `f` of a structure of shape `si` at `start` (within the first
/// `limit` bytes of `data`) and resolves it under datablock `owner`: an
/// integer is read; an array field is linked through the struct table to
/// the datablock of its elements, and is empty, without error, where nothing
/// links it or its count is 0; a resource field names the resource it is
/// linked to, if any.
pub fn resolve_value(shapes: &Vec<Shape>, si: usize, f: &ShapeField, data: &Vec<u8>, limit: usize, start: u64, owner: i32,
    structs: &Vec<TagStruct>, blocks: &Vec<TagDataBlock>) -> (r: Result<FieldValue, Error>)
    ensures
        r matches Ok(v) ==> value_ok(shapes@, si as int, *f, data@, limit as int, start as int, owner as int, structs@, blocks@, v),
        r is Err ==> forall|v: FieldValue| !#[trigger] value_ok(shapes@, si as int, *f, data@, limit as int, start as int, owner as int, structs@, blocks@, v),
        ({
            let pos = start + f.offset;
            f.kind matches FieldKind::Block(e) && si < e < shapes@.len() && 0 <= pos && pos + 20 <= limit <= data@.len()
                && block_target(structs@, owner as int, f.offset as int, u32_at(data@, pos + 16)) is None
                ==> (r matches Ok(FieldValue::Block(b)) && b.elements@.len() == 0)
        }),
        ({
            let pos = start + f.offset;
            !(f.kind is Block) && !(f.kind is Resource) && pos + kind_width(f.kind) <= limit <= data@.len() ==> r is Ok
        }),
        ({
            let pos = start + f.offset;
            (f.kind matches FieldKind::Block(e) && si < e < shapes@.len() && pos + 20 <= limit <= data@.len()
                && (block_target(structs@, owner as int, f.offset as int, u32_at(data@, pos + 16)) matches Some(t)
                && 0 <= t < blocks@.len() && blocks@[t].offset + blocks@[t].entry_size <= data@.len()
                && leaf_shape(shapes@[e as int]) && u32_at(data@, pos + 16) * shapes@[e as int].size <= blocks@[t].entry_size))
                ==> (r matches Ok(FieldValue::Block(b)) && b.elements@.len() == u32_at(data@, pos + 16))
        }),
    decreases shapes@.len() - si, 0int,
{
    if limit > data.len() {
        return Err(Error::ReadError);
    }
    let width: u64 = match f.kind {
        FieldKind::U8 | FieldKind::I8 => 1,
        FieldKind::U16 | FieldKind::I16 => 2,
        FieldKind::U32 | FieldKind::I32 => 4,
        FieldKind::U64 | FieldKind::I64 => 8,
        FieldKind::Block(_) => 20,
        FieldKind::Resource => 16,
    };
    let pos = match start.checked_add(f.offset as u64) {
        Some(p) => p,
        None => return Err(Error::ReadError),
    };
    if pos > limit as u64 || width > limit as u64 - pos {
        return Err(Error::ReadError);
    }
    let p = pos as usize;
    let b = data.as_slice();
    match f.kind {
        FieldKind::Block(e) => {
            let type_info = get_u64(b, p);
            let unknown = get_u64(b, p + 8);
            let size = get_u32(b, p + 16);
            if e <= si || e >= shapes.len() {
                return Err(Error::TagError(TagError::TargetOutOfRange(e as i32)));
            }
            let elements = if size == 0 {
                Vec::new()
            } else {
                match find_linked(structs, owner, f.offset) {
                    None => Vec::new(),
                    Some(k) => {
                        let t = structs[k].target_index;
                        if t < 0 || t as usize >= blocks.len() {
                            return Err(Error::TagError(TagError::TargetOutOfRange(t)));
                        }
                        match resolve_elements(shapes, e, size, t as usize, data, structs, blocks) {
                            Ok(els) => els,
                            Err(err) => {
                                proof {
                                    assert forall|v: FieldValue| !#[trigger] value_ok(shapes@, si as int, *f, data@, limit as int,
                                        start as int, owner as int, structs@, blocks@, v) by {
                                        if value_ok(shapes@, si as int, *f, data@, limit as int, start as int, owner as int, structs@, blocks@, v) {
                                            if let FieldValue::Block(b) = v {
                                                assert(elements_ok(shapes@, e as int, size as int, data@, t as int, structs@, blocks@, b.elements@));
                                            }
                                        }
                                    }
                                }
                                return Err(err);
                            },
                        }
                    },
                }
            };
            let v = FieldValue::Block(FieldBlock { type_info, unknown, size, elements });
            Ok(v)
        },
        FieldKind::Resource => {
            let block = get_u64(b, p);
            let handle = get_u32(b, p + 8);
            let resource_index = get_u32(b, p + 12);
            let found = find_linked(structs, owner, f.offset);
            let child = match found {
                Some(k) => Some(structs[k].target_index),
                None => None,
            };
            proof {
                match find_struct(structs@, owner as int, f.offset as int) {
                    Some(ks) => {
                        assert(found == Some(ks as usize));
                        assert(ks as usize as int == ks);
                    },
                    None => {},
                }
            }
            let v = FieldValue::Resource(FieldTagResource { block, handle, resource_index, child });
            Ok(v)
        },
        _ => Ok(read_leaf(data, p, f.kind)),
    }
}

/// Reads the `count` elements of shape `e` of the array held in datablock `t`.
fn resolve_elements(shapes: &Vec<Shape>, e: usize, count: u32, t: usize, data: &Vec<u8>,
    structs: &Vec<TagStruct>, blocks: &Vec<TagDataBlock>) -> (r: Result<Vec<Record>, Error>)
    requires
        e < shapes@.len(),
        t < blocks@.len(),
        t <= i32::MAX,
    ensures
        r matches Ok(v) ==> v@.len() == count
            && blocks@[t as int].offset + blocks@[t as int].entry_size <= data@.len()
            && elements_ok(shapes@, e as int, count as int, data@, t as int, structs@, blocks@, v@),
        r is Err ==> forall|els: Seq<Record>| !(els.len() == count
            && blocks@[t as int].offset + blocks@[t as int].entry_size <= data@.len()
            && #[trigger] elements_ok(shapes@, e as int, count as int, data@, t as int, structs@, blocks@, els)),
        leaf_shape(shapes@[e as int]) && blocks@[t as int].offset + blocks@[t as int].entry_size <= data@.len()
            && count * shapes@[e as int].size <= blocks@[t as int].entry_size ==> r is Ok,
    decreases shapes@.len() - e, 3int,
{
    let run = blocks[t];
    let len = data.len() as u64;
    if run.offset > len || run.entry_size as u64 > len - run.offset {
        return Err(Error::ReadError);
    }
    let limit = (run.offset + run.entry_size as u64) as usize;
    let size = shapes[e].size as u64;
    let mut out: Vec<Record> = Vec::new();
    let mut i: u32 = 0;
    while i < count
        invariant
            e < shapes@.len(),
            t < blocks@.len(),
            t <= i32::MAX,
            run == blocks@[t as int],
            size == shapes@[e as int].size,
            limit == run.offset + run.entry_size,
            run.offset + run.entry_size <= data@.len(),
            i <= count,
            out@.len() == i,
            elements_ok(shapes@, e as int, i as int, data@, t as int, structs@, blocks@, out@),
        decreases count - i,
    {
        assert(i as u64 * size <= 0xFFFF_FFFF * 0xFFFF_FFFF) by (nonlinear_arith)
            requires i <= 0xFFFF_FFFF, size <= 0xFFFF_FFFF;
        assert(i * size + size <= count * size) by (nonlinear_arith)
            requires i < count, size >= 0;
        let rec = match run.offset.checked_add(i as u64 * size) {
            Some(at) => match resolve_record(shapes, e, data, limit, at, t as i32, structs, blocks) {
                Ok(rec) => rec,
                Err(err) => {
                    proof { lemma_no_elements(shapes@, e as int, count as int, i as int, data@, t as int, structs@, blocks@); }
                    return Err(err);
                },
            },
            None => {
                if shapes[e].fields.len() != 0 {
                    proof {
                        assert forall|rec: Record| !#[trigger] record_ok(shapes@, e as int, data@, limit as int, run.offset + i * size,
                            t as int, structs@, blocks@, rec) by {
                            if record_ok(shapes@, e as int, data@, limit as int, run.offset + i * size, t as int, structs@, blocks@, rec) {
                                lemma_fields_prefix(shapes@, e as int, shapes@[e as int].fields@.len() as int, 0, data@, limit as int,
                                    run.offset + i * size, t as int, structs@, blocks@, rec.values@);
                            }
                        }
                        lemma_no_elements(shapes@, e as int, count as int, i as int, data@, t as int, structs@, blocks@);
                    }
                    return Err(Error::ReadError);
                }
                let empty = Record { values: Vec::new() };
                assert(record_ok(shapes@, e as int, data@, limit as int, run.offset + i * size, t as int, structs@, blocks@, empty));
                empty
            },
        };
        proof {
            lemma_elements_extend(shapes@, e as int, i as int, data@, t as int, structs@, blocks@, out@, rec);
        }
        out.push(rec);
        i = i + 1;
    }
    Ok(out)
}

/// A field address that only struct definitions pointing at nothing
/// (`target_index` -1) name is linked to nothing.
pub proof fn lemma_unlinked_field(structs: Seq<TagStruct>, owner: int, offset: int)
    requires
        forall|k: int| 0 <= k < structs.len() && (#[trigger] structs[k]).field_block == owner
            && structs[k].field_offset == offset ==> structs[k].target_index == -1,
    ensures
        find_struct(structs, owner, offset) is None,
    decreases structs.len(),
{
    if structs.len() > 0 {
        let rest = structs.drop_last();
        assert forall|k: int| 0 <= k < rest.len() && (#[trigger] rest[k]).field_block == owner
            && rest[k].field_offset == offset implies rest[k].target_index == -1 by {
            assert(rest[k] == structs[k]);
        }
        lemma_unlinked_field(rest, owner, offset);
    }
}

/// An array field that nothing links to (no struct definition at its
/// address, or only ones pointing at nothing), or whose count is 0, resolves
/// to no elements, and that is no error.
pub proof fn lemma_unlinked_block_empty(shapes: Seq<Shape>, si: int, f: ShapeField, data: Seq<u8>, limit: int, start: int,
    owner: int, structs: Seq<TagStruct>, blocks: Seq<TagDataBlock>, v: FieldValue)
    requires
        f.kind is Block,
        u32_at(data, start + f.offset + 16) == 0 || forall|k: int| 0 <= k < structs.len() && (#[trigger] structs[k]).field_block == owner
            && structs[k].field_offset == f.offset ==> structs[k].target_index == -1,
        value_ok(shapes, si, f, data, limit, start, owner, structs, blocks, v),
    ensures
        v matches FieldValue::Block(b) && b.elements@.len() == 0,
{
    if u32_at(data, start + f.offset + 16) != 0 {
        lemma_unlinked_field(structs, owner, f.offset as int);
    }
}

/// The index of the first struct definition of the root kind.
pub open spec fn main_struct(structs: Seq<TagStruct>) -> Option<int>
    decreases structs.len(),
{
    if structs.len() == 0 {
        None
    } else {
        match main_struct(structs.drop_last()) {
            Some(k) => Some(k),
            None => if structs.last().struct_type == TagStructType::MainStruct {
                Some(structs.len() - 1)
            } else {
                None
            },
        }
    }
}

/// The first struct definition of the root kind, if any.
fn find_main(structs: &Vec<TagStruct>) -> (r: Option<usize>)
    ensures
        match main_struct(structs@) {
            Some(k) => r == Some(k as usize) && 0 <= k < structs.len(),
            None => r is None,
        },
{
    let mut i: usize = 0;
    while i < structs.len()
        invariant
            i <= structs@.len(),
            main_struct(structs@.subrange(0, i as int)) is None,
        decreases structs@.len() - i,
    {
        assert(structs@.subrange(0, i + 1).drop_last() =~= structs@.subrange(0, i as int));
        if matches!(structs[i].struct_type, TagStructType::MainStruct) {
            proof { lemma_main_prefix(structs@, i as int + 1); }
            return Some(i);
        }
        i = i + 1;
    }
    assert(structs@.subrange(0, structs@.len() as int) =~= structs@);
    None
}

/// A root found in a prefix of the table is the root of the whole table.
proof fn lemma_main_prefix(structs: Seq<TagStruct>, n: int)
    requires
        0 < n <= structs.len(),
        main_struct(structs.subrange(0, n)) == Some(n - 1),
    ensures
        main_struct(structs) == Some(n - 1),
{
    lemma_main_prefix_keep(structs, n, structs.len() as int);
    assert(structs.subrange(0, structs.len() as int) =~= structs);
}

/// Once found, the root stays the first one as the table grows.
proof fn lemma_main_prefix_keep(structs: Seq<TagStruct>, n: int, m: int)
    requires
        0 < n <= m <= structs.len(),
        main_struct(structs.subrange(0, n)) == Some(n - 1),
    ensures
        main_struct(structs.subrange(0, m)) == Some(n - 1),
    decreases m - n,
{
    if m > n {
        lemma_main_prefix_keep(structs, n, m - 1);
        assert(structs.subrange(0, m).drop_last() =~= structs.subrange(0, m - 1));
    }
    if m == structs.len() {
        assert(structs.subrange(0, m) =~= structs);
    }
}

/// Resolves the root structure of a tag: the struct definition of the root
/// kind names the datablock whose bytes hold it, and its fields are resolved
/// under that datablock.
pub fn resolve_root(shapes: &Vec<Shape>, si: usize, data: &Vec<u8>, structs: &Vec<TagStruct>, blocks: &Vec<TagDataBlock>)
    -> (r: Result<Record, Error>)
    ensures
        main_struct(structs@) is None ==> r == Err::<Record, Error>(Error::TagError(TagError::MainStructNotFound)),
        r matches Ok(rec) ==> main_struct(structs@) matches Some(k) && {
            let t = structs@[k].target_index as int;
            &&& 0 <= t < blocks@.len()
            &&& record_ok(shapes@, si as int, data@, data@.len() as int, blocks@[t].offset as int, t, structs@, blocks@, rec)
        },
        main_struct(structs@) matches Some(k) ==> {
            let t = structs@[k].target_index;
            &&& !(0 <= t < blocks@.len()) ==> r == Err::<Record, Error>(Error::TagError(TagError::TargetOutOfRange(t)))
            &&& 0 <= t < blocks@.len() && r is Err ==> forall|rec: Record| !#[trigger] record_ok(shapes@, si as int, data@,
                data@.len() as int, blocks@[t as int].offset as int, t as int, structs@, blocks@, rec)
        },
{
    let k = match find_main(structs) {
        Some(k) => k,
        None => return Err(Error::TagError(TagError::MainStructNotFound)),
    };
    let t = structs[k].target_index;
    if t < 0 || t as usize >= blocks.len() {
        return Err(Error::TagError(TagError::TargetOutOfRange(t)));
    }
    let root = blocks[t as usize];
    resolve_record(shapes, si, data, data.len(), root.offset, t, structs, blocks)
}

impl Readable for FieldBlock {
    open spec fn error_at(data: Seq<u8>, pos: int) -> Option<Error> {
        if fits(data, pos, 20) { None } else { Some(Error::ReadError) }
    }

    open spec fn end_of(data: Seq<u8>, pos: int) -> int {
        pos + 20
    }

    open spec fn reads_as(data: Seq<u8>, pos: int, v: Self) -> bool {
        &&& v.type_info == u64_at(data, pos)
        &&& v.unknown == u64_at(data, pos + 8)
        &&& v.size == u32_at(data, pos + 16)
        &&& v.elements@.len() == 0
    }

    fn read(&mut self, reader: &mut ByteReader) -> (r: Result<(), Error>) {
        let ghost data = reader.bytes();
        let ghost pos = reader.at();
        let b = reader.read_bytes(20)?;
        let b = b.as_slice();
        assert(window(b@, 0, 8) =~= window(data, pos, 8));
        assert(window(b@, 8, 8) =~= window(data, pos + 8, 8));
        assert(window(b@, 16, 4) =~= window(data, pos + 16, 4));
        self.type_info = get_u64(b, 0);
        self.unknown = get_u64(b, 8);
        self.size = get_u32(b, 16);
        self.elements = Vec::new();
        Ok(())
    }
}

/// Resolving an array field that the struct table links to datablock `t`
/// gives exactly as many elements as the field's count, and element `i` is
/// the structure of the element shape read at `i` element sizes into that
/// datablock's bytes, resolved under `t`.
pub proof fn lemma_linked_block_elements(shapes: Seq<Shape>, si: int, f: ShapeField, data: Seq<u8>, limit: int, start: int,
    owner: int, structs: Seq<TagStruct>, blocks: Seq<TagDataBlock>, v: FieldValue)
    requires
        f.kind is Block,
        value_ok(shapes, si, f, data, limit, start, owner, structs, blocks, v),
        block_target(structs, owner, f.offset as int, u32_at(data, start + f.offset + 16)) is Some,
    ensures
        ({
            let t = block_target(structs, owner, f.offset as int, u32_at(data, start + f.offset + 16))->0;
            let e = f.kind->Block_0 as int;
            v matches FieldValue::Block(b) && b.elements@.len() == b.size && b.size == u32_at(data, start + f.offset + 16)
                && 0 <= t < blocks.len()
                && forall|i: int| 0 <= i < b.size ==> record_ok(shapes, e, data, blocks[t].offset + blocks[t].entry_size,
                    blocks[t].offset + i * shapes[e].size, t, structs, blocks, #[trigger] b.elements@[i])
        }),
{
    let t = block_target(structs, owner, f.offset as int, u32_at(data, start + f.offset + 16))->0;
    let e = f.kind->Block_0 as int;
    if let FieldValue::Block(b) = v {
        lemma_elements_each(shapes, e, b.size as int, data, t, structs, blocks, b.elements@);
    }
}

/// Each of the first `n` elements that `elements_ok` accepts is the structure read at its place.
pub proof fn lemma_elements_each(shapes: Seq<Shape>, e: int, n: int, data: Seq<u8>, t: int,
    structs: Seq<TagStruct>, blocks: Seq<TagDataBlock>, elements: Seq<Record>)
    requires
        0 <= e < shapes.len(),
        0 <= t < blocks.len(),
        elements_ok(shapes, e, n, data, t, structs, blocks, elements),
    ensures
        forall|i: int| 0 <= i < n ==> record_ok(shapes, e, data, blocks[t].offset + blocks[t].entry_size,
            blocks[t].offset + i * shapes[e].size, t, structs, blocks, #[trigger] elements[i]),
    decreases n,
{
    if n > 0 {
        lemma_elements_each(shapes, e, n - 1, data, t, structs, blocks, elements);
    }
}

} // verus!
