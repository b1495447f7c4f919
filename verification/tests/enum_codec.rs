//! Discriminant dispatch: declared and auto-incremented discriminants,
//! unrecognized tag bytes, and variants with fields.

use xrbk::cursor::Cursor;
use xrbk::desc::{FieldType, Item};
use xrbk::enums::{EnumDesc, EnumVal, Variant};
use xrbk::error::ReadError;
use xrbk::value::Value;

/// Variants with discriminants 0 (declared), 1 (auto), 5 (declared),
/// 6 (auto).
fn dispatch_enum() -> EnumDesc {
    EnumDesc {
        variants: vec![
            Variant { discriminant: Some(0), items: vec![] },
            Variant { discriminant: None, items: vec![] },
            Variant { discriminant: Some(5), items: vec![] },
            Variant { discriminant: None, items: vec![] },
        ],
    }
}

#[test]
fn resolved_discriminants_follow_the_previous_plus_one_rule() {
    let d = dispatch_enum();
    assert_eq!(d.resolve_discriminant(0), 0);
    assert_eq!(d.resolve_discriminant(1), 1);
    assert_eq!(d.resolve_discriminant(2), 5);
    assert_eq!(d.resolve_discriminant(3), 6);
}

#[test]
fn decoding_dispatches_on_the_tag_byte() {
    let d = dispatch_enum();
    for (byte, variant) in [(0u8, 0usize), (1, 1), (5, 2), (6, 3)] {
        let mut cur = Cursor::new(vec![byte]);
        let v = d.read(&mut cur).unwrap();
        assert_eq!(v.variant, variant);
    }
}

#[test]
fn unknown_discriminant_is_reported_with_its_byte() {
    let d = dispatch_enum();
    let mut cur = Cursor::new(vec![2]);
    assert_eq!(
        d.read(&mut cur).map(|v| v.variant),
        Err(ReadError::UnrecognizedDiscriminant(2))
    );
}

#[test]
fn empty_input_is_eof_not_unrecognized() {
    let d = dispatch_enum();
    let mut cur = Cursor::new(vec![]);
    assert_eq!(d.read(&mut cur).map(|v| v.variant), Err(ReadError::UnexpectedEof));
}

#[test]
fn enum_write_emits_tag_then_items() {
    let d = EnumDesc {
        variants: vec![
            Variant { discriminant: None, items: vec![] },
            Variant {
                discriminant: None,
                items: vec![Item::Field(FieldType::U16), Item::Field(FieldType::U8)],
            },
        ],
    };
    let v = EnumVal { variant: 1, fields: vec![Value::U16(0x0807), Value::U8(3)] };
    let mut buf: Vec<u8> = Vec::new();
    assert!(d.write(&v, &mut buf).is_ok());
    assert_eq!(buf, vec![1, 7, 8, 3]);
}

#[test]
fn enum_with_fields_round_trips() {
    let d = EnumDesc {
        variants: vec![
            Variant { discriminant: Some(10), items: vec![Item::Field(FieldType::U32)] },
            Variant { discriminant: None, items: vec![Item::Field(FieldType::U8)] },
        ],
    };
    let v = EnumVal { variant: 0, fields: vec![Value::U32(0xcafe)] };
    let mut buf: Vec<u8> = Vec::new();
    assert!(d.write(&v, &mut buf).is_ok());
    let mut cur = Cursor::new(buf);
    let back = d.read(&mut cur).unwrap();
    assert_eq!(back.variant, 0);
    assert_eq!(back.fields, v.fields);
    assert_eq!(cur.remaining(), 0);
}

#[test]
fn truncated_variant_items_are_eof() {
    let d = EnumDesc {
        variants: vec![Variant { discriminant: Some(0), items: vec![Item::Field(FieldType::U32)] }],
    };
    let mut cur = Cursor::new(vec![0, 1, 2]);
    assert_eq!(d.read(&mut cur).map(|v| v.variant), Err(ReadError::UnexpectedEof));
}
