//! The composite codec over item lists: declaration order, derived values,
//! padding, and the exact size computed ahead of writing.

use xrbk::codec::{layout, read_items, write_items};
use xrbk::cursor::Cursor;
use xrbk::desc::{FieldType, IntWidth, Item, Source, Unused};
use xrbk::error::ReadError;
use xrbk::value::Value;

/// The classic layout: a stored length, the data it measures, and zero
/// padding rounding the data up to a 4-byte boundary.
fn length_data_pad_items() -> Vec<Item> {
    vec![
        Item::Field(FieldType::U16),
        Item::Field(FieldType::Bytes(0)),
        Item::Unused(Unused::Array(Source::Pad4Len(1))),
    ]
}

#[test]
fn length_data_pad_writes_expected_bytes() {
    let items = length_data_pad_items();
    let vals = vec![Value::U16(5), Value::Bytes(vec![1, 2, 3, 4, 5])];
    let mut buf: Vec<u8> = Vec::new();
    assert!(write_items(&mut buf, &items, &vals).is_ok());
    // 2 length bytes, 5 data bytes, 3 padding bytes to reach a multiple of 4.
    assert_eq!(buf, vec![5, 0, 1, 2, 3, 4, 5, 0, 0, 0]);
}

#[test]
fn length_data_pad_layout_size_matches() {
    let items = length_data_pad_items();
    let vals = vec![Value::U16(5), Value::Bytes(vec![1, 2, 3, 4, 5])];
    let (_env, size) = layout(&items, &vals);
    assert_eq!(size, 10);
}

#[test]
fn length_data_pad_round_trips() {
    let items = length_data_pad_items();
    let vals = vec![Value::U16(5), Value::Bytes(vec![1, 2, 3, 4, 5])];
    let mut buf: Vec<u8> = Vec::new();
    assert!(write_items(&mut buf, &items, &vals).is_ok());
    let mut cur = Cursor::new(buf);
    let back = read_items(&mut cur, &items).unwrap();
    assert_eq!(back, vals);
    assert_eq!(cur.remaining(), 0);
}

#[test]
fn let_item_is_written_but_not_stored() {
    // A one-byte field, then a derived copy of its value on the wire.
    let items = vec![
        Item::Field(FieldType::U8),
        Item::Let(IntWidth::W8, Source::Len(0)),
    ];
    let vals = vec![Value::U8(7)];
    let mut buf: Vec<u8> = Vec::new();
    assert!(write_items(&mut buf, &items, &vals).is_ok());
    assert_eq!(buf, vec![7, 7]);
    let mut cur = Cursor::new(buf);
    let back = read_items(&mut cur, &items).unwrap();
    // The derived value was consumed but only the field is stored.
    assert_eq!(back, vals);
}

#[test]
fn let_width_controls_wire_size() {
    let items = vec![
        Item::Field(FieldType::U8),
        Item::Let(IntWidth::W16, Source::Len(0)),
        Item::Let(IntWidth::W32, Source::Const(0x01020304)),
    ];
    let vals = vec![Value::U8(9)];
    let mut buf: Vec<u8> = Vec::new();
    assert!(write_items(&mut buf, &items, &vals).is_ok());
    assert_eq!(buf, vec![9, 9, 0, 4, 3, 2, 1]);
}

#[test]
fn unused_unit_is_one_zero_byte() {
    let items = vec![
        Item::Unused(Unused::Unit),
        Item::Field(FieldType::U8),
        Item::Unused(Unused::Unit),
    ];
    let vals = vec![Value::U8(0xfe)];
    let mut buf: Vec<u8> = Vec::new();
    assert!(write_items(&mut buf, &items, &vals).is_ok());
    assert_eq!(buf, vec![0, 0xfe, 0]);
    let mut cur = Cursor::new(buf);
    assert_eq!(read_items(&mut cur, &items).unwrap(), vals);
}

#[test]
fn unused_array_skips_without_inspecting() {
    let items = vec![
        Item::Field(FieldType::U8),
        Item::Unused(Unused::Array(Source::Len(0))),
        Item::Field(FieldType::U8),
    ];
    // Reading tolerates nonzero padding bytes: they are skipped, not read.
    let mut cur = Cursor::new(vec![2, 0xba, 0xad, 0x33]);
    let back = read_items(&mut cur, &items).unwrap();
    assert_eq!(back, vec![Value::U8(2), Value::U8(0x33)]);
}

#[test]
fn pad_to_boundary_is_zero_for_aligned_data() {
    let items = length_data_pad_items();
    let vals = vec![Value::U16(4), Value::Bytes(vec![6, 7, 8, 9])];
    let mut buf: Vec<u8> = Vec::new();
    assert!(write_items(&mut buf, &items, &vals).is_ok());
    assert_eq!(buf, vec![4, 0, 6, 7, 8, 9]);
}

#[test]
fn truncated_input_fails_with_eof() {
    let items = length_data_pad_items();
    // Length says five bytes follow, but only two are there.
    let mut cur = Cursor::new(vec![5, 0, 1, 2]);
    assert_eq!(read_items(&mut cur, &items), Err(ReadError::UnexpectedEof));
}

#[test]
fn bytes_field_sized_by_a_let() {
    // The length travels as a derived value: written from the data's
    // length, read back from the stream to size the data.
    let items = vec![
        Item::Let(IntWidth::W8, Source::Const(3)),
        Item::Field(FieldType::Bytes(0)),
    ];
    let vals = vec![Value::Bytes(vec![0xa, 0xb, 0xc])];
    let mut buf: Vec<u8> = Vec::new();
    assert!(write_items(&mut buf, &items, &vals).is_ok());
    assert_eq!(buf, vec![3, 0xa, 0xb, 0xc]);
    let mut cur = Cursor::new(buf);
    assert_eq!(read_items(&mut cur, &items).unwrap(), vals);
}

#[test]
fn integer_list_encodes_each_element_at_its_width() {
    // A stored element count, then the elements, each four bytes wide.
    let items = vec![
        Item::Field(FieldType::U8),
        Item::Field(FieldType::List(IntWidth::W32, 0)),
    ];
    let vals = vec![
        Value::U8(2),
        Value::List(IntWidth::W32, vec![0x01020304, 5]),
    ];
    let mut buf: Vec<u8> = Vec::new();
    assert!(write_items(&mut buf, &items, &vals).is_ok());
    assert_eq!(buf, vec![2, 4, 3, 2, 1, 5, 0, 0, 0]);
    let mut cur = Cursor::new(buf);
    assert_eq!(read_items(&mut cur, &items).unwrap(), vals);
    assert_eq!(cur.remaining(), 0);
}

#[test]
fn sixteen_bit_list_round_trips() {
    let items = vec![
        Item::Field(FieldType::U16),
        Item::Field(FieldType::List(IntWidth::W16, 0)),
        Item::Unused(Unused::Array(Source::Pad4Len(1))),
    ];
    let vals = vec![
        Value::U16(3),
        Value::List(IntWidth::W16, vec![0xa, 0xb, 0xc]),
    ];
    let mut buf: Vec<u8> = Vec::new();
    assert!(write_items(&mut buf, &items, &vals).is_ok());
    // A list contributes its element count to later sources, so the pad
    // item adds one zero byte to round the count of three up to four.
    assert_eq!(buf, vec![3, 0, 0xa, 0, 0xb, 0, 0xc, 0, 0]);
    let mut cur = Cursor::new(buf);
    assert_eq!(read_items(&mut cur, &items).unwrap(), vals);
}

#[test]
fn truncated_list_is_eof() {
    let items = vec![
        Item::Field(FieldType::U8),
        Item::Field(FieldType::List(IntWidth::W32, 0)),
    ];
    // Two elements promised, five bytes given.
    let mut cur = Cursor::new(vec![2, 1, 0, 0, 0, 9]);
    assert_eq!(read_items(&mut cur, &items), Err(ReadError::UnexpectedEof));
}

#[test]
fn empty_item_list_consumes_nothing() {
    let items: Vec<Item> = Vec::new();
    let mut cur = Cursor::new(vec![1, 2, 3]);
    assert_eq!(read_items(&mut cur, &items).unwrap(), Vec::<Value>::new());
    assert_eq!(cur.remaining(), 3);
}
