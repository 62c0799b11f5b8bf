use infinite_rs::errors::{Error, ModuleError, TagError};
use infinite_rs::extensions::ByteReader;
use infinite_rs::module_file::{ModuleFileEntry, USE_HD2};
use infinite_rs::module_header::{ModuleHeader, ModuleVersion};
use infinite_rs::module_loader::{get_resource_ordinal, get_tag_path, DataSource, ModuleFile};

struct Entry {
    block_count: u16,
    block_index: i32,
    resource_index: i32,
    group: &'static [u8; 4],
    data_offset: u64,
    tag_id: i32,
    parent_index: i32,
    resource_count: i32,
    compressed: u32,
    uncompressed: u32,
}

fn entry_bytes(e: &Entry) -> Vec<u8> {
    let mut b = Vec::new();
    b.push(0);
    b.push(0);
    b.extend_from_slice(&e.block_count.to_le_bytes());
    b.extend_from_slice(&e.block_index.to_le_bytes());
    b.extend_from_slice(&e.resource_index.to_le_bytes());
    b.extend_from_slice(e.group);
    b.extend_from_slice(&e.data_offset.to_le_bytes());
    b.extend_from_slice(&e.compressed.to_le_bytes());
    b.extend_from_slice(&e.uncompressed.to_le_bytes());
    b.extend_from_slice(&e.tag_id.to_le_bytes());
    b.extend_from_slice(&[0u8; 16]);
    b.extend_from_slice(&[0u8; 4]);
    b.extend_from_slice(&0u32.to_le_bytes());
    b.extend_from_slice(&e.parent_index.to_le_bytes());
    b.extend_from_slice(&[0u8; 16]);
    b.extend_from_slice(&e.resource_count.to_le_bytes());
    b.extend_from_slice(&[0u8; 4]);
    assert_eq!(b.len(), 88);
    b
}

fn header_bytes(magic: u32, version: i32, files: u32, resources: u32, blocks: u32) -> Vec<u8> {
    let mut b = Vec::new();
    b.extend_from_slice(&magic.to_le_bytes());
    b.extend_from_slice(&version.to_le_bytes());
    b.extend_from_slice(&77i64.to_le_bytes());
    b.extend_from_slice(&files.to_le_bytes());
    b.extend_from_slice(&[0u8; 12]);
    b.extend_from_slice(&0i32.to_le_bytes());
    b.extend_from_slice(&0u32.to_le_bytes());
    b.extend_from_slice(&resources.to_le_bytes());
    b.extend_from_slice(&blocks.to_le_bytes());
    b.extend_from_slice(&[0u8; 24]);
    b.extend_from_slice(&[0u8; 8]);
    b
}

fn plain(tag_id: i32, group: &'static [u8; 4]) -> Entry {
    Entry {
        block_count: 0,
        block_index: 0,
        resource_index: 0,
        group,
        data_offset: 0,
        tag_id,
        parent_index: -1,
        resource_count: 0,
        compressed: 4,
        uncompressed: 4,
    }
}

#[test]
fn header_with_wrong_magic_is_refused_first() {
    let bytes = header_bytes(0x1234_5678, 1, 1, 0, 0);
    let mut module = ModuleFile::new();
    let r = module.read(&mut ByteReader::new(bytes));
    assert_eq!(r, Err(Error::ModuleError(ModuleError::IncorrectMagic(0x1234_5678))));
    assert!(module.files.is_empty());
}

#[test]
fn header_with_wrong_version_is_refused() {
    let bytes = header_bytes(0x6468_6F6D, 50, 1, 0, 0);
    let mut module = ModuleFile::new();
    let r = module.read(&mut ByteReader::new(bytes));
    assert_eq!(r, Err(Error::ModuleError(ModuleError::IncorrectVersion(50))));
    assert!(module.files.is_empty());
}

#[test]
fn header_fields() {
    let bytes = header_bytes(0x6468_6F6D, 53, 2, 3, 4);
    let mut header = ModuleHeader::new();
    let mut reader = ByteReader::new(bytes);
    header.read(&mut reader).unwrap();
    assert_eq!(header.version, ModuleVersion::Season3);
    assert_eq!((header.module_id, header.file_count, header.resource_count, header.block_count), (77, 2, 3, 4));
    assert_eq!(reader.stream_position(), 80);
}

#[test]
fn module_tables_paths_and_data_offset() {
    let mut bytes = header_bytes(0x6468_6F6D, 53, 3, 2, 1);
    let mut parent = plain(123, b"mtib");
    parent.resource_index = 0;
    parent.resource_count = 2;
    bytes.extend(entry_bytes(&parent));
    let mut first = plain(-1, b"mtib");
    first.parent_index = 0;
    bytes.extend(entry_bytes(&first));
    let mut second = plain(-1, b"mtib");
    second.parent_index = 0;
    bytes.extend(entry_bytes(&second));
    bytes.extend_from_slice(&1u32.to_le_bytes());
    bytes.extend_from_slice(&2u32.to_le_bytes());
    bytes.extend_from_slice(&[0u8; 20]);
    let end = bytes.len() as u64;
    let mut module = ModuleFile::new();
    module.read(&mut ByteReader::new(bytes)).unwrap();
    assert_eq!(module.files.len(), 3);
    assert_eq!(module.resource_indices, vec![1, 2]);
    assert_eq!(module.blocks.len(), 1);
    assert_eq!(module.files[0].tag_group, "bitm");
    assert_eq!(module.files[0].tag_name, "bitm/123.bitm");
    assert_eq!(module.files[1].tag_name, "bitm/123.bitm[0:resource]");
    assert_eq!(module.files[2].tag_name, "bitm/123.bitm[1:resource]");
    assert_eq!(module.file_data_offset, (end / 4096 + 1) * 4096);
    assert_eq!(module.find_tag(123), Some(0));
    assert_eq!(module.find_tag(5), None);
}

#[test]
fn path_of_cycle_is_refused_with_depth_error() {
    let mut e = plain(-1, b"mtib");
    e.parent_index = 0;
    let bytes = entry_bytes(&e);
    let mut reader = ByteReader::new(bytes);
    let entries: Vec<ModuleFileEntry> = reader.read_enumerable(1).unwrap();
    let r = get_tag_path(&entries, &vec![], 0, 0);
    assert_eq!(r, Err(Error::TagError(TagError::RecursionDepth)));
}

#[test]
fn path_of_resource_chain() {
    let mut bytes = Vec::new();
    let mut root = plain(7, b"pmoc");
    root.resource_count = 1;
    bytes.extend(entry_bytes(&root));
    let mut mid = plain(-1, b"pmoc");
    mid.parent_index = 0;
    mid.resource_index = 1;
    mid.resource_count = 1;
    bytes.extend(entry_bytes(&mid));
    let mut leaf = plain(-1, b"pmoc");
    leaf.parent_index = 1;
    bytes.extend(entry_bytes(&leaf));
    let entries: Vec<ModuleFileEntry> = ByteReader::new(bytes).read_enumerable(3).unwrap();
    let resources = vec![1, 2];
    assert_eq!(get_tag_path(&entries, &resources, 2, 0).unwrap(), "comp/7.comp[0:resource][0:resource]");
    assert_eq!(get_tag_path(&entries, &resources, 9, 0), Err(Error::ModuleError(ModuleError::EntryOutOfRange(9))));
}

#[test]
fn entry_without_identifier_or_parent() {
    let entries: Vec<ModuleFileEntry> = ByteReader::new(entry_bytes(&plain(-1, b"mtib"))).read_enumerable(1).unwrap();
    assert_eq!(get_tag_path(&entries, &vec![], 0, 0).unwrap(), "-1");
}

#[test]
fn data_offset_flags_and_sources() {
    let mut e = plain(5, b"mtib");
    e.data_offset = 0x10 | ((USE_HD2 as u64) << 48);
    let mut f = plain(6, b"mtib");
    f.data_offset = 0x20;
    let mut bytes = header_bytes(0x6468_6F6D, 53, 2, 0, 0);
    bytes.extend(entry_bytes(&e));
    bytes.extend(entry_bytes(&f));
    let mut module = ModuleFile::new();
    module.read(&mut ByteReader::new(bytes)).unwrap();
    assert_eq!(module.files[0].data_offset, 0x10);
    assert!(module.files[0].data_offset_flags.is_invalid());
    assert_eq!(module.tag_source(0), Ok(None));
    assert_eq!(module.read_tag(0, vec![]), Ok(None));
    assert_eq!(module.tag_source(1), Ok(Some(DataSource { in_hd1: false, offset: 4096 + 0x20 })));
    assert_eq!(module.tag_source(2), Err(Error::ModuleError(ModuleError::EntryOutOfRange(2))));
}

#[test]
fn loading_a_resource_keeps_its_bytes_once() {
    let mut bytes = header_bytes(0x6468_6F6D, 53, 1, 0, 0);
    bytes.extend(entry_bytes(&plain(-1, b"mtib")));
    let mut module = ModuleFile::new();
    module.read(&mut ByteReader::new(bytes)).unwrap();
    assert_eq!(module.read_tag(0, vec![1, 2, 3]), Ok(Some(-1)));
    assert_eq!(module.files[0].data_stream, Some(vec![1, 2, 3]));
    assert_eq!(module.read_tag(0, vec![9]), Ok(Some(-1)));
    assert_eq!(module.files[0].data_stream, Some(vec![1, 2, 3]));
}

#[test]
fn metadata_needs_a_loaded_tag() {
    let shapes = vec![];
    let entry = ModuleFileEntry::new();
    assert!(matches!(entry.read_metadata(&shapes, 0), Err(Error::TagError(TagError::NotLoaded))));
    let mut resource = ModuleFileEntry::new();
    resource.tag_id = -1;
    resource.load(vec![1, 2], &ModuleVersion::Season3).unwrap();
    assert!(matches!(resource.read_metadata(&shapes, 0), Err(Error::TagError(TagError::NoTagInfo))));
}

#[test]
fn negative_resource_span_is_a_conversion_error() {
    assert_eq!(get_resource_ordinal(&vec![1, 2], -1, 1, 0), Err(Error::TryFromIntError));
    assert_eq!(get_resource_ordinal(&vec![1, 2], 1, 2, 0), Err(Error::ModuleError(ModuleError::EntryOutOfRange(1))));
    assert_eq!(get_resource_ordinal(&vec![4, 9, 2], 0, 3, 2), Ok(2));
    assert_eq!(get_resource_ordinal(&vec![4, 9, 2], 0, 3, 5), Ok(3));
}

#[test]
fn entry_names_come_from_the_string_table_before_season3() {
    let mut bytes = header_bytes(0x6468_6F6D, 52, 1, 0, 0);
    bytes[36..40].copy_from_slice(&4u32.to_le_bytes());
    let mut e = entry_bytes(&plain(9, b"mtib"));
    e[56..60].copy_from_slice(&0u32.to_le_bytes());
    bytes.extend(e);
    bytes.extend_from_slice(b"abc\0");
    let mut module = ModuleFile::new();
    module.read(&mut ByteReader::new(bytes)).unwrap();
    assert_eq!(module.files[0].tag_name, "abc");
}

#[test]
fn loading_a_tag_with_a_bad_header_leaves_it_unloaded() {
    let mut bytes = header_bytes(0x6468_6F6D, 53, 1, 0, 0);
    bytes.extend(entry_bytes(&plain(8, b"mtib")));
    let mut module = ModuleFile::new();
    module.read(&mut ByteReader::new(bytes)).unwrap();
    let r = module.read_tag(0, vec![0u8; 80]);
    assert_eq!(r, Err(Error::TagError(TagError::IncorrectMagic(0))));
    assert!(!module.files[0].is_loaded);
}

#[test]
fn failed_header_read_keeps_the_fields() {
    let mut header = ModuleHeader::new();
    header.file_count = 9;
    header.hd1_delta = 3;
    let r = header.read(&mut ByteReader::new(header_bytes(0x1234_5678, 53, 1, 0, 0)));
    assert_eq!(r, Err(Error::ModuleError(ModuleError::IncorrectMagic(0x1234_5678))));
    assert_eq!((header.file_count, header.hd1_delta, header.magic), (9, 3, 0));
    let r = header.read(&mut ByteReader::new(header_bytes(0x6468_6F6D, 50, 1, 0, 0)));
    assert_eq!(r, Err(Error::ModuleError(ModuleError::IncorrectVersion(50))));
    assert_eq!((header.file_count, header.hd1_delta, header.magic), (9, 3, 0));
}

#[test]
fn module_with_a_cyclic_path_gives_the_depth_error() {
    let mut bytes = header_bytes(0x6468_6F6D, 53, 1, 0, 0);
    let mut e = plain(-1, b"mtib");
    e.parent_index = 0;
    bytes.extend(entry_bytes(&e));
    let mut module = ModuleFile::new();
    let r = module.read(&mut ByteReader::new(bytes));
    assert_eq!(r, Err(Error::TagError(TagError::RecursionDepth)));
    assert!(module.files.is_empty());
}

#[test]
fn entry_in_an_unopened_auxiliary_file_is_not_read() {
    let mut e = plain(5, b"mtib");
    e.data_offset = 0x10 | (1u64 << 48);
    let mut bytes = header_bytes(0x6468_6F6D, 53, 1, 0, 0);
    bytes.extend(entry_bytes(&e));
    let mut module = ModuleFile::new();
    module.read(&mut ByteReader::new(bytes)).unwrap();
    assert!(module.files[0].data_offset_flags.uses_hd1());
    assert_eq!(module.read_tag(0, vec![1, 2, 3]), Ok(None));
    assert!(!module.files[0].is_loaded);
    module.use_hd1 = true;
    assert_eq!(module.tag_source(0), Ok(Some(DataSource { in_hd1: true, offset: 0x10 })));
}
