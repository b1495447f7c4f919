//! Header framing of the four message kinds, including the concrete reply
//! layout, the length fields, the metabyte slot and the sequence opt-out.

use xrbk::cursor::Cursor;
use xrbk::desc::{
    DefinitionType, ElementType, EventDesc, FieldType, Item, Metabyte, ReplyDesc, RequestDesc,
    Source, StructDesc,
};
use xrbk::message::{EventVal, ReplyVal, RequestVal, StructVal};
use xrbk::value::Value;

#[test]
fn struct_has_no_header() {
    let d = StructDesc {
        element_type: ElementType::Named,
        items: vec![Item::Field(FieldType::U16), Item::Field(FieldType::U8)],
    };
    let v = StructVal { fields: vec![Value::U16(0x0102), Value::U8(3)] };
    let mut buf: Vec<u8> = Vec::new();
    assert!(d.write(&v, &mut buf).is_ok());
    assert_eq!(buf, vec![2, 1, 3]);
    assert_eq!(d.data_size(&v), 3);
    let mut cur = Cursor::new(buf);
    let back = d.read(&mut cur).unwrap();
    assert_eq!(back.fields, v.fields);
}

#[test]
fn request_header_and_round_trip() {
    let d = RequestDesc {
        major_opcode: 42,
        minor_opcode: None,
        metabyte: Metabyte::Absent,
        items: vec![Item::Field(FieldType::U32)],
    };
    let v = RequestVal { metabyte: None, fields: vec![Value::U32(7)] };
    let mut buf: Vec<u8> = Vec::new();
    assert!(d.write(&v, &mut buf).is_ok());
    // opcode, zero metabyte filler, length 8/4 = 2, then the field.
    assert_eq!(buf, vec![42, 0, 2, 0, 7, 0, 0, 0]);
    assert_eq!(d.data_size(&v), 8);
    assert_eq!(d.length(&v), 2);
    let mut cur = Cursor::new(buf);
    let back = d.read(&mut cur).unwrap();
    assert_eq!(back.fields, v.fields);
    assert_eq!(back.metabyte, None);
    assert_eq!(cur.remaining(), 0);
}

#[test]
fn request_minor_opcode_occupies_the_metabyte_slot() {
    let d = RequestDesc {
        major_opcode: 130,
        minor_opcode: Some(9),
        metabyte: Metabyte::Absent,
        items: vec![Item::Field(FieldType::U32)],
    };
    let v = RequestVal { metabyte: None, fields: vec![Value::U32(0x11223344)] };
    let mut buf: Vec<u8> = Vec::new();
    assert!(d.write(&v, &mut buf).is_ok());
    assert_eq!(buf, vec![130, 9, 2, 0, 0x44, 0x33, 0x22, 0x11]);
    assert_eq!(d.major_opcode(), 130);
    assert_eq!(d.minor_opcode(), Some(9));
}

#[test]
fn request_metabyte_field_rides_the_second_byte() {
    let d = RequestDesc {
        major_opcode: 1,
        minor_opcode: None,
        metabyte: Metabyte::Field,
        items: vec![Item::Field(FieldType::U32)],
    };
    let v = RequestVal { metabyte: Some(0x5a), fields: vec![Value::U32(0)] };
    let mut buf: Vec<u8> = Vec::new();
    assert!(d.write(&v, &mut buf).is_ok());
    assert_eq!(buf, vec![1, 0x5a, 2, 0, 0, 0, 0, 0]);
    let mut cur = Cursor::new(buf);
    let back = d.read(&mut cur).unwrap();
    assert_eq!(back.metabyte, Some(0x5a));
}

#[test]
fn request_metabyte_let_derives_the_second_byte() {
    // The metabyte carries a derived value: the first field's contribution.
    let d = RequestDesc {
        major_opcode: 3,
        minor_opcode: None,
        metabyte: Metabyte::Let(Source::Len(0)),
        items: vec![Item::Field(FieldType::U8), Item::Field(FieldType::U8),
            Item::Field(FieldType::U16)],
    };
    let v = RequestVal {
        metabyte: None,
        fields: vec![Value::U8(9), Value::U8(0), Value::U16(0)],
    };
    let mut buf: Vec<u8> = Vec::new();
    assert!(d.write(&v, &mut buf).is_ok());
    assert_eq!(buf, vec![3, 9, 2, 0, 9, 0, 0, 0]);
}

#[test]
fn reply_concrete_scenario() {
    // A reply with one 32-bit field and no opt-outs, field 7, sequence 42:
    // tag 1, zero metabyte, sequence 42, length (8 + 4) / 4 = 3, field 7.
    let d = ReplyDesc {
        has_sequence: true,
        metabyte: Metabyte::Absent,
        items: vec![Item::Field(FieldType::U32)],
    };
    let v = ReplyVal { metabyte: None, sequence: Some(42), fields: vec![Value::U32(7)] };
    let mut buf: Vec<u8> = Vec::new();
    assert!(d.write(&v, &mut buf).is_ok());
    assert_eq!(buf, vec![1, 0, 42, 0, 3, 0, 0, 0, 7, 0, 0, 0]);
    assert_eq!(d.data_size(&v), 12);
    assert_eq!(d.length(&v), 3);
    // Decoding those exact bytes reconstructs the field and the sequence.
    let mut cur = Cursor::new(vec![1, 0, 42, 0, 3, 0, 0, 0, 7, 0, 0, 0]);
    let back = d.read(&mut cur).unwrap();
    assert_eq!(back.fields, vec![Value::U32(7)]);
    assert_eq!(back.sequence(), Some(42));
    assert_eq!(cur.remaining(), 0);
}

#[test]
fn metabyte_unused_writes_a_zero_filler() {
    let d = EventDesc {
        code: 2,
        metabyte: Metabyte::Unused,
        items: vec![],
    };
    let v = EventVal { metabyte: None, sequence: 1, fields: vec![] };
    let mut buf: Vec<u8> = Vec::new();
    assert!(d.write(&v, &mut buf).is_ok());
    assert_eq!(buf, vec![2, 0, 1, 0]);
    // On read the filler byte is skipped, not stored.
    let mut cur = Cursor::new(buf);
    let back = d.read(&mut cur).unwrap();
    assert_eq!(back.metabyte, None);
}

#[test]
fn reply_sequence_opt_out_writes_no_sequence_slot() {
    let d = ReplyDesc {
        has_sequence: false,
        metabyte: Metabyte::Absent,
        items: vec![Item::Field(FieldType::U16), Item::Field(FieldType::U32)],
    };
    let v = ReplyVal {
        metabyte: None,
        sequence: None,
        fields: vec![Value::U16(0xabcd), Value::U32(1)],
    };
    let mut buf: Vec<u8> = Vec::new();
    assert!(d.write(&v, &mut buf).is_ok());
    // Six header bytes: tag, metabyte, then the length (12 / 4 = 3) directly.
    assert_eq!(buf, vec![1, 0, 3, 0, 0, 0, 0xcd, 0xab, 1, 0, 0, 0]);
    assert_eq!(d.data_size(&v), 12);
    let mut cur = Cursor::new(buf);
    let back = d.read(&mut cur).unwrap();
    assert_eq!(back.sequence(), None);
    assert_eq!(back.fields, v.fields);
}

#[test]
fn reply_with_sequence_always_writes_the_slot() {
    let d = ReplyDesc {
        has_sequence: true,
        metabyte: Metabyte::Absent,
        items: vec![],
    };
    let v = ReplyVal { metabyte: None, sequence: Some(0x0100), fields: vec![] };
    let mut buf: Vec<u8> = Vec::new();
    assert!(d.write(&v, &mut buf).is_ok());
    assert_eq!(buf, vec![1, 0, 0, 1, 2, 0, 0, 0]);
}

#[test]
fn event_header_and_round_trip() {
    let d = EventDesc {
        code: 11,
        metabyte: Metabyte::Field,
        items: vec![Item::Field(FieldType::U32)],
    };
    let v = EventVal { metabyte: Some(5), sequence: 99, fields: vec![Value::U32(0xdeadbeef)] };
    let mut buf: Vec<u8> = Vec::new();
    assert!(d.write(&v, &mut buf).is_ok());
    assert_eq!(buf, vec![11, 5, 99, 0, 0xef, 0xbe, 0xad, 0xde]);
    assert_eq!(d.code(), 11);
    assert_eq!(d.data_size(&v), 8);
    let mut cur = Cursor::new(buf);
    let back = d.read(&mut cur).unwrap();
    assert_eq!(back.sequence(), 99);
    assert_eq!(back.metabyte, Some(5));
    assert_eq!(back.fields, v.fields);
}

#[test]
fn short_reply_fails_with_eof() {
    let d = ReplyDesc {
        has_sequence: true,
        metabyte: Metabyte::Absent,
        items: vec![Item::Field(FieldType::U32)],
    };
    let mut cur = Cursor::new(vec![1, 0, 42, 0, 3, 0]);
    assert!(d.read(&mut cur).is_err());
}

#[test]
fn length_syntax_belongs_to_requests_and_replies() {
    assert!(DefinitionType::Request.length_syntax());
    assert!(DefinitionType::Reply.length_syntax());
    assert!(!DefinitionType::Basic.length_syntax());
    assert!(!DefinitionType::Event.length_syntax());
}
