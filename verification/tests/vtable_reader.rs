use butte::error::Error;
use butte::scalar::{read_i32_le, read_u16_le, read_u32_le};
use butte::vtable::{field_index_to_field_offset, field_offset_to_field_index, VTable};

#[test]
fn scalar_codec_reads_little_endian() {
    let buf: Vec<u8> = vec![0x34, 0x12, 0x78, 0x56, 0xff, 0xff, 0xff, 0xff];
    assert_eq!(read_u16_le(&buf, 0).unwrap(), 0x1234);
    assert_eq!(read_u16_le(&buf, 2).unwrap(), 0x5678);
    assert_eq!(read_u32_le(&buf, 0).unwrap(), 0x56781234);
    assert_eq!(read_i32_le(&buf, 4).unwrap(), -1);
    assert_eq!(read_u16_le(&buf, 7), Err(Error::OutOfBounds));
    assert_eq!(read_u32_le(&buf, 5), Err(Error::OutOfBounds));
}

#[test]
fn vtable_header_reads() {
    let buf: Vec<u8> = vec![10, 0, 8, 0, 4, 0, 0, 0, 6, 0];
    let vt = VTable::init(&buf, 0);
    assert_eq!(vt.num_bytes().unwrap(), 10);
    assert_eq!(vt.object_inline_num_bytes().unwrap(), 8);
    assert_eq!(vt.num_fields().unwrap(), 3);
}

#[test]
fn vtable_get_field_present_and_absent() {
    let buf: Vec<u8> = vec![10, 0, 8, 0, 4, 0, 0, 0, 6, 0];
    let vt = VTable::init(&buf, 0);
    assert_eq!(vt.get_field(0).unwrap(), Some(4));
    // a slot that exists but holds zero: the field is absent on the wire
    assert_eq!(vt.get_field(1).unwrap(), Some(0));
    assert_eq!(vt.get_field(2).unwrap(), Some(6));
    assert_eq!(vt.get_field(4).unwrap(), None);
}

#[test]
fn forward_compatibility_reads_absent() {
    // a vtable declaring two fields, asked for field 5 by newer accessor
    // logic: absent, not an error and not garbage
    let buf: Vec<u8> = vec![8, 0, 4, 0, 4, 0, 6, 0];
    let vt = VTable::init(&buf, 0);
    assert_eq!(vt.num_fields().unwrap(), 2);
    assert_eq!(vt.get_field(5).unwrap(), None);
}

#[test]
fn get_field_boundary_at_num_fields() {
    // the index check is strict greater-than, so idx == num_fields() is
    // not reported absent: the read lands on the bytes just past the
    // vtable and is bounds-checked against the buffer alone; this pins
    // the boundary behavior
    let buf: Vec<u8> = vec![8, 0, 4, 0, 4, 0, 6, 0, 42, 0];
    let vt = VTable::init(&buf, 0);
    assert_eq!(vt.num_fields().unwrap(), 2);
    assert_eq!(vt.get_field(2).unwrap(), Some(42));
    // with nothing after the vtable the same call fails the bounds check
    let short: Vec<u8> = vec![8, 0, 4, 0, 4, 0, 6, 0];
    let vt2 = VTable::init(&short, 0);
    assert_eq!(vt2.get_field(2), Err(Error::OutOfBounds));
}

#[test]
fn get_rejects_out_of_vtable_offsets() {
    let buf: Vec<u8> = vec![10, 0, 8, 0, 4, 0, 0, 0, 6, 0];
    let vt = VTable::init(&buf, 0);
    assert_eq!(vt.get(4).unwrap(), Some(4));
    assert_eq!(vt.get(10).unwrap(), None);
    assert_eq!(vt.get(60000).unwrap(), None);
}

#[test]
fn as_bytes_rejects_truncated_buffer() {
    // the size slot claims 12 bytes but the buffer holds 10
    let buf: Vec<u8> = vec![12, 0, 8, 0, 4, 0, 0, 0, 6, 0];
    let vt = VTable::init(&buf, 0);
    assert_eq!(vt.as_bytes(), Err(Error::OutOfBounds));
    let good: Vec<u8> = vec![10, 0, 8, 0, 4, 0, 0, 0, 6, 0];
    let vt2 = VTable::init(&good, 0);
    assert_eq!(vt2.as_bytes().unwrap(), &good[..]);
}

#[test]
fn malformed_vtable_is_an_error() {
    // fewer bytes than the two header slots
    let tiny: Vec<u8> = vec![2, 0, 0, 0];
    assert_eq!(VTable::init(&tiny, 0).num_fields(), Err(Error::OutOfBounds));
    // not a whole number of slots
    let odd: Vec<u8> = vec![7, 0, 4, 0, 4, 0, 0];
    assert_eq!(VTable::init(&odd, 0).num_fields(), Err(Error::OutOfBounds));
    let empty: Vec<u8> = vec![];
    assert_eq!(VTable::init(&empty, 0).num_bytes(), Err(Error::OutOfBounds));
}

#[test]
fn field_index_offset_round_trip() {
    assert_eq!(field_index_to_field_offset(0), 4);
    assert_eq!(field_index_to_field_offset(1), 6);
    assert_eq!(field_index_to_field_offset(2), 8);
    assert_eq!(field_offset_to_field_index(4), 0);
    assert_eq!(field_offset_to_field_index(6), 1);
    assert_eq!(field_offset_to_field_index(8), 2);
    let mut i: u16 = 0;
    while i < 200 {
        assert_eq!(field_offset_to_field_index(field_index_to_field_offset(i)), i);
        i += 1;
    }
}
