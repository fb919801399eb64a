use butte::builder::Builder;
use butte::scalar::{read_i32_le, read_u16_le, read_u32_le};
use butte::table::{get_root, read_byte_vector, read_forward_ref, Table};
use butte::vtable::field_index_to_field_offset;

#[test]
fn end_to_end_scenario() {
    // schema (id: int32 @0, name: string @1, active: bool @2);
    // write {id: 7, name: "x", active: absent}
    let mut b = Builder::new();
    let name_off = b.create_string(b"x");
    b.start_table();
    b.push_field_i32(0, 7, 0);
    b.push_field_offset(1, name_off);
    b.push_field_bool(2, false, false);
    let t_off = b.end_table();
    b.finish(t_off);
    let out = b.output_bytes();

    let root = get_root(&out).unwrap();
    let id_loc = root.field_data_loc(0).unwrap().unwrap();
    assert_eq!(read_i32_le(&out, id_loc).unwrap(), 7);
    let name_loc = root.field_data_loc(1).unwrap().unwrap();
    let s_loc = read_forward_ref(&out, name_loc).unwrap();
    assert_eq!(read_byte_vector(&out, s_loc).unwrap(), b"x");
    // active was left at its default: its vtable slot does not exist at
    // all (the trailing absent field is trimmed), which the byte-offset
    // lookup reports as absent
    let vt = root.vtable().unwrap();
    assert_eq!(vt.num_fields().unwrap(), 2);
    assert_eq!(vt.get(field_index_to_field_offset(2)).unwrap(), None);
    // a field index the vtable has never heard of is absent, not an error
    assert_eq!(root.field_data_loc(7).unwrap(), None);
}

#[test]
fn absent_versus_written_default_are_identical() {
    // one table writes field 1 with its default value 0, the other never
    // writes it; both sit between present fields 0 and 2, so both vtables
    // carry a literal zero slot for field 1 and serialize identically
    let mut b = Builder::new();
    b.start_table();
    b.push_field_u16(0, 11, 0);
    b.push_field_u16(1, 0, 0);
    b.push_field_u16(2, 13, 0);
    let t1 = b.end_table();
    b.start_table();
    b.push_field_u16(0, 21, 0);
    b.push_field_u16(2, 23, 0);
    let t2 = b.end_table();
    b.finish(t2);
    let out = b.output_bytes();
    let len = out.len();

    let ta = Table::init(&out, len - t1);
    let tb = Table::init(&out, len - t2);
    // both report field 1 absent
    assert_eq!(ta.field_data_loc(1).unwrap(), None);
    assert_eq!(tb.field_data_loc(1).unwrap(), None);
    // the slot itself is zero in both
    assert_eq!(ta.vtable().unwrap().get_field(1).unwrap(), Some(0));
    assert_eq!(tb.vtable().unwrap().get_field(1).unwrap(), Some(0));
    // identical presence patterns share one deduplicated vtable
    assert_eq!(ta.vtable_loc().unwrap(), tb.vtable_loc().unwrap());
    // and the present fields still read back their own values
    let a0 = ta.field_data_loc(0).unwrap().unwrap();
    let b0 = tb.field_data_loc(0).unwrap().unwrap();
    assert_eq!(read_u16_le(&out, a0).unwrap(), 11);
    assert_eq!(read_u16_le(&out, b0).unwrap(), 21);
}

#[test]
fn vtable_dedup_identical_and_distinct_patterns() {
    // two tables with the presence pattern {a: present, b: absent,
    // c: present} share one vtable; a third with a different pattern
    // gets its own
    let mut b = Builder::new();
    b.start_table();
    b.push_field_u16(0, 1, 0);
    b.push_field_u16(2, 2, 0);
    let t1 = b.end_table();
    b.start_table();
    b.push_field_u16(0, 3, 0);
    b.push_field_u16(2, 4, 0);
    let t2 = b.end_table();
    b.start_table();
    b.push_field_u16(1, 5, 0);
    let t3 = b.end_table();
    b.finish(t3);
    let out = b.output_bytes();
    let len = out.len();

    let ta = Table::init(&out, len - t1);
    let tb = Table::init(&out, len - t2);
    let tc = Table::init(&out, len - t3);
    let va = ta.vtable_loc().unwrap();
    let vb = tb.vtable_loc().unwrap();
    let vc = tc.vtable_loc().unwrap();
    assert_eq!(va, vb);
    assert_ne!(va, vc);
    // byte-for-byte equality of the shared vtable's serialized form
    let bytes_a = ta.vtable().unwrap().as_bytes().unwrap().to_vec();
    let bytes_b = tb.vtable().unwrap().as_bytes().unwrap().to_vec();
    assert_eq!(bytes_a, bytes_b);
    // vtable equality is exactly that byte-wise comparison
    assert!(ta.vtable().unwrap() == tb.vtable().unwrap());
    assert!(ta.vtable().unwrap() != tc.vtable().unwrap());
}

#[test]
fn dedup_makes_buffers_smaller() {
    // ten tables, one presence pattern: one vtable in the buffer
    let mut b = Builder::new();
    let mut last: usize = 0;
    let mut i: u16 = 0;
    while i < 10 {
        b.start_table();
        b.push_field_u16(0, i + 1, 0);
        last = b.end_table();
        i += 1;
    }
    b.finish(last);
    let same_patterns = b.output_bytes();

    // ten tables, ten distinct presence patterns: ten vtables
    let mut c = Builder::new();
    let mut last2: usize = 0;
    let mut j: u16 = 0;
    while j < 10 {
        c.start_table();
        c.push_field_u16(j, j + 1, 0);
        last2 = c.end_table();
        j += 1;
    }
    c.finish(last2);
    let distinct_patterns = c.output_bytes();

    assert!(same_patterns.len() < distinct_patterns.len());
}

#[test]
fn nested_tables_and_vectors_round_trip() {
    let mut b = Builder::new();
    let blob_off = b.create_byte_vector(&[1, 2, 3]);
    b.start_table();
    b.push_field_u16(0, 5, 0);
    let child_off = b.end_table();
    b.start_table();
    b.push_field_offset(0, child_off);
    b.push_field_u32(1, 9, 0);
    b.push_field_offset(2, blob_off);
    let parent_off = b.end_table();
    b.finish(parent_off);
    let out = b.output_bytes();

    let root = get_root(&out).unwrap();
    // nested table: follow the forward reference, then read its field
    let child_ref = root.field_data_loc(0).unwrap().unwrap();
    let child_loc = read_forward_ref(&out, child_ref).unwrap();
    let child = Table::init(&out, child_loc);
    let c0 = child.field_data_loc(0).unwrap().unwrap();
    assert_eq!(read_u16_le(&out, c0).unwrap(), 5);
    // inline scalar of the parent
    let p1 = root.field_data_loc(1).unwrap().unwrap();
    assert_eq!(read_u32_le(&out, p1).unwrap(), 9);
    // byte vector
    let v_ref = root.field_data_loc(2).unwrap().unwrap();
    let v_loc = read_forward_ref(&out, v_ref).unwrap();
    assert_eq!(read_byte_vector(&out, v_loc).unwrap(), &[1, 2, 3]);
}

#[test]
fn written_zero_with_nonzero_default_stays_present() {
    // zero is only elided when the schema default is zero: with default 9
    // a written 0 is present on the wire and reads back as 0
    let mut b = Builder::new();
    b.start_table();
    b.push_field_u16(0, 0, 9);
    b.push_field_u16(1, 9, 9);
    b.push_field_u16(2, 7, 0);
    let t = b.end_table();
    b.finish(t);
    let out = b.output_bytes();
    let root = get_root(&out).unwrap();
    let f0 = root.field_data_loc(0).unwrap().unwrap();
    assert_eq!(read_u16_le(&out, f0).unwrap(), 0);
    // the field written with its (nonzero) default was elided
    assert_eq!(root.field_data_loc(1).unwrap(), None);
}

#[test]
fn wide_scalar_field_round_trip() {
    let mut b = Builder::new();
    b.start_table();
    b.push_field_u64(0, 0x1122_3344_5566_7788, 0);
    b.push_field_u16(1, 3, 0);
    let t = b.end_table();
    b.finish(t);
    let out = b.output_bytes();
    let root = get_root(&out).unwrap();
    let f0 = root.field_data_loc(0).unwrap().unwrap();
    assert_eq!(butte::scalar::read_u64_le(&out, f0).unwrap(), 0x1122_3344_5566_7788);
    let f1 = root.field_data_loc(1).unwrap().unwrap();
    assert_eq!(read_u16_le(&out, f1).unwrap(), 3);
}
