use infinite_rs::errors::{Error, TagError};
use infinite_rs::extensions::{ByteReader, Readable};
use infinite_rs::module_header::ModuleVersion;
use infinite_rs::tag_header::TagHeader;
use infinite_rs::tag_loader::TagFile;
use infinite_rs::tag_structs::AnyStructure;
use infinite_rs::tag_tables::{TagDataBlock, TagSectionType, TagStructType};

fn tag_header(magic: u32, version: i32, counts: [u32; 5], header_size: u32) -> Vec<u8> {
    let mut b = Vec::new();
    b.extend_from_slice(&magic.to_le_bytes());
    b.extend_from_slice(&version.to_le_bytes());
    b.extend_from_slice(&[0u8; 16]);
    for c in counts {
        b.extend_from_slice(&c.to_le_bytes());
    }
    b.extend_from_slice(&[0u8; 12]);
    b.extend_from_slice(&header_size.to_le_bytes());
    b.extend_from_slice(&[0u8; 12]);
    b.extend_from_slice(&[0u8; 4]);
    b.extend_from_slice(&1u32.to_le_bytes());
    assert_eq!(b.len(), 80);
    b
}

#[test]
fn tag_with_wrong_magic_is_refused() {
    let bytes = tag_header(0x1111_1111, 27, [0; 5], 80);
    let mut tag = TagFile::default();
    let r = tag.read(&mut ByteReader::new(bytes), &ModuleVersion::Season3);
    assert_eq!(r, Err(Error::TagError(TagError::IncorrectMagic(0x1111_1111))));
}

#[test]
fn tag_with_wrong_version_is_refused() {
    let bytes = tag_header(0x6873_6375, 26, [0; 5], 80);
    let mut header = TagHeader::new();
    let r = header.read(&mut ByteReader::new(bytes));
    assert_eq!(r, Err(Error::TagError(TagError::IncorrectVersion(26))));
}

#[test]
fn tag_tables_are_read_and_data_starts_at_header_size() {
    let mut bytes = tag_header(0x6873_6375, 27, [1, 1, 1, 0, 0], 200);
    bytes.extend_from_slice(b"mtib");
    bytes.extend_from_slice(&0u32.to_le_bytes());
    bytes.extend_from_slice(&5u64.to_le_bytes());
    bytes.extend_from_slice(&42i32.to_le_bytes());
    bytes.extend_from_slice(&(-1i32).to_le_bytes());
    bytes.extend_from_slice(&64u32.to_le_bytes());
    bytes.extend_from_slice(&0u16.to_le_bytes());
    bytes.extend_from_slice(&1u16.to_le_bytes());
    bytes.extend_from_slice(&200u64.to_le_bytes());
    bytes.extend_from_slice(&7u128.to_le_bytes());
    bytes.extend_from_slice(&0u16.to_le_bytes());
    bytes.extend_from_slice(&0u16.to_le_bytes());
    bytes.extend_from_slice(&0i32.to_le_bytes());
    bytes.extend_from_slice(&(-1i32).to_le_bytes());
    bytes.extend_from_slice(&0u32.to_le_bytes());
    bytes.extend_from_slice(&[0u8; 16]);
    bytes.resize(264, 0);
    let mut tag = TagFile::default();
    let mut reader = ByteReader::new(bytes);
    tag.read(&mut reader, &ModuleVersion::Season3).unwrap();
    assert_eq!(reader.stream_position(), 200);
    assert_eq!(tag.header.header_size, 200);
    assert!(tag.header.is_resource);
    assert_eq!(tag.dependencies.len(), 1);
    assert_eq!(tag.dependencies[0].tag_group, "bitm");
    assert_eq!(tag.dependencies[0].tag_id, 42);
    assert_eq!(tag.dependencies[0].name, None);
    assert_eq!(tag.datablock_definitions[0], TagDataBlock { entry_size: 64, padding: 0, section_type: TagSectionType::TagData, offset: 200 });
    assert_eq!(tag.struct_definitions[0].struct_type, TagStructType::MainStruct);
    assert_eq!(tag.struct_definitions[0].guid, 7);
    assert!(tag.zonesets.is_empty());
}

#[test]
fn datablock_with_unknown_section_is_refused() {
    let mut bytes = Vec::new();
    bytes.extend_from_slice(&1u32.to_le_bytes());
    bytes.extend_from_slice(&0u16.to_le_bytes());
    bytes.extend_from_slice(&9u16.to_le_bytes());
    bytes.extend_from_slice(&0u64.to_le_bytes());
    let mut block = TagDataBlock::new();
    assert_eq!(block.read(&mut ByteReader::new(bytes)), Err(Error::TagError(TagError::InvalidTagSection(9))));
}

#[test]
fn jssc_structure_is_read_by_group() {
    let mut bytes = vec![0u8; 304];
    bytes[20..24].copy_from_slice(b"    ");
    let mut data_field = vec![0u8; 24];
    data_field[20..24].copy_from_slice(&6u32.to_le_bytes());
    bytes.extend(data_field);
    bytes.extend_from_slice(b"{\"a\"}\0");
    let mut tag = TagFile::default();
    tag.read_struct("jssc", &mut ByteReader::new(bytes)).unwrap();
    match tag.get_struct() {
        Some(AnyStructure::Jssc(j)) => assert_eq!(j.data, "{\"a\"}"),
        other => panic!("unexpected structure: {:?}", other),
    }
    let mut other = TagFile::default();
    other.read_struct("abcd", &mut ByteReader::new(vec![])).unwrap();
    assert!(other.get_struct().is_none());
}

#[test]
fn struct_with_unknown_kind_is_refused() {
    let mut bytes = vec![0u8; 16];
    bytes.extend_from_slice(&7u16.to_le_bytes());
    bytes.extend_from_slice(&[0u8; 14]);
    let mut s = infinite_rs::tag_tables::TagStruct::default();
    assert_eq!(s.read(&mut ByteReader::new(bytes)), Err(Error::TagError(TagError::InvalidTagStruct(7))));
}

#[test]
fn names_come_from_the_string_table_before_season3() {
    let mut bytes = tag_header(0x6873_6375, 27, [1, 0, 0, 0, 1], 0);
    bytes[44..48].copy_from_slice(&8u32.to_le_bytes());
    bytes.extend_from_slice(b"tam ");
    bytes.extend_from_slice(&4u32.to_le_bytes());
    bytes.extend_from_slice(&[0u8; 16]);
    bytes.extend_from_slice(&0i32.to_le_bytes());
    bytes.extend_from_slice(&0u32.to_le_bytes());
    bytes.extend_from_slice(&0u32.to_le_bytes());
    bytes.extend_from_slice(&(-1i32).to_le_bytes());
    bytes.extend_from_slice(b"one\0two\0");
    bytes.extend_from_slice(&[0u8; 16]);
    let header_size = bytes.len() as u32;
    bytes[56..60].copy_from_slice(&header_size.to_le_bytes());
    let mut tag = TagFile::default();
    let mut reader = ByteReader::new(bytes.clone());
    tag.read(&mut reader, &ModuleVersion::CampaignFlight).unwrap();
    assert_eq!(tag.dependencies[0].name.as_deref(), Some("two"));
    assert_eq!(tag.tag_references[0].name.as_deref(), Some("one"));
    assert_eq!(reader.stream_position(), header_size as u64);
    let mut later = TagFile::default();
    later.read(&mut ByteReader::new(bytes), &ModuleVersion::Season3).unwrap();
    assert_eq!(later.dependencies[0].name, None);
}

#[test]
fn luas_structure_is_read_by_group() {
    let mut bytes = vec![0u8; 20];
    let mut data_field = vec![0u8; 24];
    data_field[20..24].copy_from_slice(&3u32.to_le_bytes());
    bytes.extend(data_field);
    bytes.extend(vec![0u8; 256]);
    let mut block = vec![0u8; 20];
    block[16..20].copy_from_slice(&1u32.to_le_bytes());
    bytes.extend(block);
    bytes.extend_from_slice(&[0xAA, 0xBB, 0xCC, 0x00]);
    let mut reference = vec![0u8; 28];
    reference[8..12].copy_from_slice(&77i32.to_le_bytes());
    reference[20..24].copy_from_slice(b"saul");
    bytes.extend(reference);
    let mut tag = TagFile::default();
    tag.read_struct("luas", &mut ByteReader::new(bytes)).unwrap();
    match tag.get_struct() {
        Some(AnyStructure::Luas(l)) => {
            assert_eq!(l.lua_file, vec![0xAA, 0xBB, 0xCC]);
            assert_eq!(l.referenced_tags.len(), 1);
            assert_eq!(l.referenced_tags[0].global_id, 77);
            assert_eq!(l.referenced_tags[0].group, "luas");
        },
        other => panic!("unexpected structure: {:?}", other),
    }
}

#[test]
fn failed_tag_header_read_keeps_the_fields() {
    let mut header = TagHeader::new();
    header.header_size = 5;
    header.dependency_count = 2;
    let r = header.read(&mut ByteReader::new(tag_header(0x1111_1111, 27, [1; 5], 80)));
    assert_eq!(r, Err(Error::TagError(TagError::IncorrectMagic(0x1111_1111))));
    assert_eq!((header.header_size, header.dependency_count), (5, 2));
}

#[test]
fn tag_with_bad_version_reads_no_tables() {
    let bytes = tag_header(0x6873_6375, 30, [1, 1, 1, 1, 1], 80);
    let mut tag = TagFile::default();
    let r = tag.read(&mut ByteReader::new(bytes), &ModuleVersion::Season3);
    assert_eq!(r, Err(Error::TagError(TagError::IncorrectVersion(30))));
    assert!(tag.dependencies.is_empty() && tag.datablock_definitions.is_empty() && tag.struct_definitions.is_empty());
    assert_eq!(tag.header.header_size, 0);
}
