use infinite_rs::assembly::{assemble, Segment};
use infinite_rs::errors::{DecompressionError, Error, ModuleError};
use infinite_rs::module_block::ModuleBlockEntry;
use infinite_rs::module_file::ModuleFileEntry;

fn entry(block_count: u16, block_index: i32, compressed: u32, uncompressed: u32) -> ModuleFileEntry {
    let mut e = ModuleFileEntry::new();
    e.block_count = block_count;
    e.block_index = block_index;
    e.total_compressed_size = compressed;
    e.total_uncompressed_size = uncompressed;
    e
}

#[test]
fn single_raw_segment_is_copied_verbatim() {
    let e = entry(0, 0, 5, 5);
    let segments = e.plan_segments(&vec![]).unwrap();
    assert_eq!(segments, vec![Segment { offset: 0, stored_size: 5, target_offset: 0, target_size: 5, compressed: false }]);
    let raw = vec![10, 20, 30, 40, 50];
    assert_eq!(assemble(&e, &segments, vec![raw.clone()]).unwrap(), raw);
}

#[test]
fn single_compressed_segment_takes_decompressed_output() {
    let e = entry(0, 0, 3, 8);
    let segments = e.plan_segments(&vec![]).unwrap();
    assert_eq!(segments.len(), 1);
    assert!(segments[0].compressed);
    assert_eq!(segments[0].stored_size, 3);
    assert_eq!(segments[0].target_size, 8);
    let output = vec![1, 2, 3, 4, 5, 6, 7, 8];
    assert_eq!(assemble(&e, &segments, vec![output.clone()]).unwrap(), output);
}

#[test]
fn raw_then_compressed_block_fill_thirty_bytes() {
    let blocks = vec![
        ModuleBlockEntry { compressed_offset: 0, compressed_size: 10, decompressed_offset: 0, decompressed_size: 10, is_compressed: false },
        ModuleBlockEntry { compressed_offset: 10, compressed_size: 6, decompressed_offset: 10, decompressed_size: 20, is_compressed: true },
    ];
    let e = entry(2, 0, 16, 30);
    let segments = e.plan_segments(&blocks).unwrap();
    assert_eq!(segments[0], Segment { offset: 0, stored_size: 10, target_offset: 0, target_size: 10, compressed: false });
    assert_eq!(segments[1], Segment { offset: 10, stored_size: 6, target_offset: 10, target_size: 20, compressed: true });
    let raw: Vec<u8> = (1..=10).collect();
    let decompressed: Vec<u8> = (101..=120).collect();
    let buffer = assemble(&e, &segments, vec![raw.clone(), decompressed.clone()]).unwrap();
    assert_eq!(buffer.len(), 30);
    assert_eq!(&buffer[0..10], &raw[..]);
    assert_eq!(&buffer[10..30], &decompressed[..]);
}

#[test]
fn negative_block_index_is_corruption() {
    let e = entry(1, -3, 0, 0);
    assert_eq!(e.plan_segments(&vec![]), Err(Error::ModuleError(ModuleError::NegativeBlockIndex(-3))));
}

#[test]
fn block_run_past_the_table_is_refused() {
    let blocks = vec![ModuleBlockEntry::default()];
    let e = entry(2, 0, 0, 0);
    assert_eq!(e.plan_segments(&blocks), Err(Error::ModuleError(ModuleError::BlockOutOfRange(0))));
}

#[test]
fn payload_of_wrong_size_is_refused() {
    let blocks = vec![
        ModuleBlockEntry { compressed_offset: 0, compressed_size: 4, decompressed_offset: 0, decompressed_size: 8, is_compressed: true },
    ];
    let e = entry(1, 0, 4, 8);
    let segments = e.plan_segments(&blocks).unwrap();
    assert_eq!(
        assemble(&e, &segments, vec![vec![0; 7]]),
        Err(Error::DecompressionError(DecompressionError::BufferSizeOverflow))
    );
}

#[test]
fn single_compressed_output_of_wrong_size_is_refused() {
    let e = entry(0, 0, 3, 8);
    let segments = e.plan_segments(&vec![]).unwrap();
    assert_eq!(
        assemble(&e, &segments, vec![vec![1, 2, 3]]),
        Err(Error::DecompressionError(DecompressionError::BufferSizeOverflow))
    );
}
