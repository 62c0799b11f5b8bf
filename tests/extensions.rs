use infinite_rs::errors::Error;
use infinite_rs::extensions::{reverse_chars, ByteReader, Readable};
use infinite_rs::common_types::{AnyTag, FieldCharEnum, FieldRGBColor, FieldReference, FieldUnused1};

#[test]
fn test_read_fixed_string_empty() {
    let data = [255, 255, 255, 255];
    let mut reader = ByteReader::new(data.to_vec());
    let string = reader.read_fixed_string(data.len()).unwrap();
    assert_eq!(string, "");
}

#[test]
fn all_ff_of_other_lengths_is_empty() {
    for len in [1usize, 3, 32, 256] {
        let mut reader = ByteReader::new(vec![0xFF; len]);
        assert_eq!(reader.read_fixed_string(len).unwrap(), "");
        assert_eq!(reader.stream_position(), len as u64);
    }
}

#[test]
fn fixed_string_reads_utf8() {
    let mut reader = ByteReader::new(b"I love cats!".to_vec());
    assert_eq!(reader.read_fixed_string(12).unwrap(), "I love cats!");
}

#[test]
fn fixed_string_rejects_invalid_utf8() {
    let mut reader = ByteReader::new(vec![0xC3, 0x28, 0x41, 0x42]);
    assert_eq!(reader.read_fixed_string(4), Err(Error::Utf8ReadingError));
}

#[test]
fn fixed_string_partly_ff_is_not_the_marker() {
    let mut reader = ByteReader::new(vec![0xFF, 0xFF, 0xFF, 0x41]);
    assert_eq!(reader.read_fixed_string(4), Err(Error::Utf8ReadingError));
}

#[test]
fn fixed_string_past_end_is_read_error() {
    let mut reader = ByteReader::new(vec![0x41, 0x42]);
    assert_eq!(reader.read_fixed_string(4), Err(Error::ReadError));
    assert_eq!(reader.stream_position(), 0);
}

#[test]
fn little_endian_integers() {
    let mut reader = ByteReader::new(vec![
        0x01, 0x02, 0x03, 0x04, 0xFF, 0xFF, 0xFF, 0xFF, 0x08, 0x07, 0x06, 0x05, 0x04, 0x03, 0x02, 0x01, 0x34, 0x12,
    ]);
    assert_eq!(reader.read_u32().unwrap(), 0x0403_0201);
    assert_eq!(reader.read_i32().unwrap(), -1);
    assert_eq!(reader.read_u64().unwrap(), 0x0102_0304_0506_0708);
    assert_eq!(reader.read_u16().unwrap(), 0x1234);
    assert_eq!(reader.read_u8(), Err(Error::ReadError));
}

#[test]
fn wide_integers() {
    let mut bytes = vec![0u8; 16];
    bytes[0] = 1;
    bytes[15] = 0x80;
    let mut reader = ByteReader::new(bytes.clone());
    assert_eq!(reader.read_u128().unwrap(), (0x80u128 << 120) | 1);
    let mut reader = ByteReader::new(bytes);
    assert_eq!(reader.read_i128().unwrap(), i128::MIN + 1);
}

#[test]
fn null_terminated_string_stops_at_zero() {
    let mut reader = ByteReader::new(b"abc\0def".to_vec());
    assert_eq!(reader.read_null_terminated_string().unwrap(), "abc");
    assert_eq!(reader.stream_position(), 4);
    assert_eq!(reader.read_null_terminated_string().unwrap(), "def");
    assert_eq!(reader.stream_position(), 7);
}

#[test]
fn group_code_is_reversed() {
    let mut reader = ByteReader::new(b"mtib".to_vec());
    assert_eq!(reader.read_group().unwrap(), "bitm");
    assert_eq!(reverse_chars("a\u{e9}z"), "z\u{e9}a");
}

#[test]
fn read_enumerable_reads_each_record() {
    let mut reader = ByteReader::new(vec![1, 2, 3]);
    let v: Vec<FieldCharEnum> = reader.read_enumerable(3).unwrap();
    assert_eq!(v.iter().map(|f| f.char_enum).collect::<Vec<_>>(), vec![1, 2, 3]);
    let mut reader = ByteReader::new(vec![1, 2]);
    assert_eq!(reader.read_enumerable::<FieldCharEnum>(3).unwrap_err(), Error::ReadError);
}

#[test]
fn seek_relative_bounds() {
    let mut reader = ByteReader::new(vec![0; 4]);
    assert!(reader.seek_relative(-1).is_err());
    reader.seek_relative(10).unwrap();
    assert_eq!(reader.stream_position(), 10);
    assert_eq!(reader.read_u8(), Err(Error::ReadError));
}

#[test]
fn leaf_fields() {
    let mut reader = ByteReader::new(vec![1, 2, 3, 4, 9, 8, 7, 6]);
    let mut color = FieldRGBColor::default();
    color.read(&mut reader).unwrap();
    assert_eq!((color.r, color.g, color.b, color.a), (1, 2, 3, 4));
    let mut unused = FieldUnused1::default();
    unused.read(&mut reader).unwrap();
    assert_eq!(unused.unused, [9, 8, 7, 6]);
}

#[test]
fn field_reference_and_any_tag() {
    let mut bytes = Vec::new();
    bytes.extend_from_slice(&7u64.to_le_bytes());
    bytes.extend_from_slice(&(-5i32).to_le_bytes());
    bytes.extend_from_slice(&99u64.to_le_bytes());
    bytes.extend_from_slice(b"tam ");
    bytes.extend_from_slice(&3i32.to_le_bytes());
    let mut reader = ByteReader::new(bytes);
    let mut r = FieldReference::default();
    r.read(&mut reader).unwrap();
    assert_eq!((r.type_info, r.global_id, r.asset_id, r.group.as_str(), r.local_handle), (7, -5, 99, " mat", 3));

    let mut bytes = Vec::new();
    bytes.extend_from_slice(&1u64.to_le_bytes());
    bytes.extend_from_slice(&42i32.to_le_bytes());
    bytes.extend_from_slice(&(-1i32).to_le_bytes());
    let mut reader = ByteReader::new(bytes);
    let mut t = AnyTag::default();
    t.read(&mut reader).unwrap();
    assert_eq!((t.vtable_space, t.internal_struct.tag_id, t.internal_struct.local_tag_handle), (1, 42, -1));
}

#[test]
fn failed_field_read_keeps_the_value() {
    let mut flags = infinite_rs::common_types::FieldByteFlags { byte_flags: 7 };
    assert_eq!(flags.read(&mut ByteReader::new(vec![])), Err(Error::ReadError));
    assert_eq!(flags.byte_flags, 7);
    let mut s = infinite_rs::common_types::FieldLongString { long_string: "kept".to_string() };
    let mut bytes = vec![0x41u8; 256];
    bytes[0] = 0xC3;
    bytes[1] = 0x28;
    assert_eq!(s.read(&mut ByteReader::new(bytes)), Err(Error::Utf8ReadingError));
    assert_eq!(s.long_string, "kept");
}
