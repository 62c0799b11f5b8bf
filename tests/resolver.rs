use infinite_rs::errors::{Error, TagError};
use infinite_rs::resolver::{resolve_record, resolve_root, FieldKind, FieldValue, Record, Shape, ShapeField};
use infinite_rs::tag_tables::{TagDataBlock, TagSectionType, TagStruct, TagStructType};

fn field(name: &str, offset: u32, kind: FieldKind) -> ShapeField {
    ShapeField { name: name.to_string(), offset, kind }
}

fn link(kind: TagStructType, target: i32, field_block: i32, field_offset: u32) -> TagStruct {
    TagStruct { guid: 0, struct_type: kind, unknown: 0, target_index: target, field_block, field_offset }
}

fn datablock(offset: u64, entry_size: u32) -> TagDataBlock {
    TagDataBlock { entry_size, padding: 0, section_type: TagSectionType::TagData, offset }
}

fn shapes() -> Vec<Shape> {
    vec![
        Shape { size: 24, fields: vec![field("id", 0, FieldKind::U32), field("items", 4, FieldKind::Block(1))] },
        Shape { size: 6, fields: vec![field("a", 0, FieldKind::U16), field("b", 2, FieldKind::I32)] },
    ]
}

fn root_bytes(count: u32) -> Vec<u8> {
    let mut data = Vec::new();
    data.extend_from_slice(&0xABCDu32.to_le_bytes());
    data.extend_from_slice(&[0u8; 16]);
    data.extend_from_slice(&count.to_le_bytes());
    data
}

fn elements(r: &Record) -> &Vec<Record> {
    match &r.values[1] {
        FieldValue::Block(b) => &b.elements,
        other => panic!("not a block: {:?}", other),
    }
}

#[test]
fn array_of_three_elements_round_trips() {
    let mut data = root_bytes(3);
    let run_offset = data.len() as u64;
    for i in 0..3u16 {
        data.extend_from_slice(&(10 + i).to_le_bytes());
        data.extend_from_slice(&(-(i as i32) - 1).to_le_bytes());
    }
    let structs = vec![link(TagStructType::MainStruct, 0, -1, 0), link(TagStructType::TagBlock, 1, 0, 4)];
    let blocks = vec![datablock(0, 24), datablock(run_offset, 18)];
    let rec = resolve_root(&shapes(), 0, &data, &structs, &blocks).unwrap();
    assert!(matches!(rec.values[0], FieldValue::Unsigned(0xABCD)));
    let els = elements(&rec);
    assert_eq!(els.len(), 3);
    for (i, el) in els.iter().enumerate() {
        assert!(matches!(el.values[0], FieldValue::Unsigned(v) if v == 10 + i as u64));
        assert!(matches!(el.values[1], FieldValue::Signed(v) if v == -(i as i64) - 1));
    }
}

#[test]
fn block_without_matching_struct_is_empty() {
    let data = root_bytes(3);
    let structs = vec![link(TagStructType::MainStruct, 0, -1, 0)];
    let blocks = vec![datablock(0, 24)];
    let rec = resolve_root(&shapes(), 0, &data, &structs, &blocks).unwrap();
    assert!(elements(&rec).is_empty());
}

#[test]
fn block_whose_struct_points_at_nothing_is_empty() {
    let data = root_bytes(3);
    let structs = vec![link(TagStructType::MainStruct, 0, -1, 0), link(TagStructType::TagBlock, -1, 0, 4)];
    let blocks = vec![datablock(0, 24)];
    let rec = resolve_root(&shapes(), 0, &data, &structs, &blocks).unwrap();
    assert!(elements(&rec).is_empty());
}

#[test]
fn block_with_zero_count_is_empty() {
    let data = root_bytes(0);
    let structs = vec![link(TagStructType::MainStruct, 0, -1, 0), link(TagStructType::TagBlock, 1, 0, 4)];
    let blocks = vec![datablock(0, 24), datablock(0, 0)];
    let rec = resolve_record(&shapes(), 0, &data, data.len(), 0, 0, &structs, &blocks).unwrap();
    assert!(elements(&rec).is_empty());
}

#[test]
fn missing_root_struct_is_an_error() {
    let data = root_bytes(0);
    let structs = vec![link(TagStructType::TagBlock, 1, 0, 4)];
    let blocks = vec![datablock(0, 24)];
    let r = resolve_root(&shapes(), 0, &data, &structs, &blocks);
    assert!(matches!(r, Err(Error::TagError(TagError::MainStructNotFound))));
}

#[test]
fn field_past_the_data_is_a_read_error() {
    let data = vec![0u8; 3];
    let r = resolve_record(&shapes(), 1, &data, data.len(), 0, 0, &vec![], &vec![]);
    assert!(matches!(r, Err(Error::ReadError)));
}

#[test]
fn root_target_past_the_datablocks_is_an_error() {
    let data = root_bytes(0);
    let structs = vec![link(TagStructType::MainStruct, 4, -1, 0)];
    let r = resolve_root(&shapes(), 0, &data, &structs, &vec![datablock(0, 24)]);
    assert!(matches!(r, Err(Error::TagError(TagError::TargetOutOfRange(4)))));
}

#[test]
fn resource_field_names_its_child() {
    let shapes = vec![Shape { size: 16, fields: vec![field("res", 0, FieldKind::Resource)] }];
    let mut data = Vec::new();
    data.extend_from_slice(&5u64.to_le_bytes());
    data.extend_from_slice(&6u32.to_le_bytes());
    data.extend_from_slice(&7u32.to_le_bytes());
    let structs = vec![link(TagStructType::MainStruct, 0, -1, 0), link(TagStructType::Resource, 3, 0, 0)];
    let rec = resolve_root(&shapes, 0, &data, &structs, &vec![datablock(0, 16)]).unwrap();
    match &rec.values[0] {
        FieldValue::Resource(r) => assert_eq!((r.block, r.handle, r.resource_index, r.child), (5, 6, 7, Some(3))),
        other => panic!("not a resource: {:?}", other),
    }
}

#[test]
fn unlinked_block_field_resolves_empty_without_error() {
    let data = root_bytes(3);
    let f = field("items", 4, FieldKind::Block(1));
    let v = infinite_rs::resolver::resolve_value(&shapes(), 0, &f, &data, data.len(), 0, 0, &vec![], &vec![]).unwrap();
    match v {
        FieldValue::Block(b) => {
            assert_eq!(b.size, 3);
            assert!(b.elements.is_empty());
        },
        other => panic!("not a block: {:?}", other),
    }
}
