//! Exact byte layouts of the primitive codec, and its end-of-input errors.

use xrbk::cursor::Cursor;
use xrbk::error::ReadError;
use xrbk::primitive::{write_bytes, write_u16, write_u32, write_u8};

#[test]
fn write_u8_appends_one_byte() {
    let mut buf: Vec<u8> = vec![0xaa];
    write_u8(&mut buf, 0x5c);
    assert_eq!(buf, vec![0xaa, 0x5c]);
}

#[test]
fn write_u16_is_little_endian() {
    let mut buf: Vec<u8> = Vec::new();
    write_u16(&mut buf, 0x1234);
    assert_eq!(buf, vec![0x34, 0x12]);
}

#[test]
fn write_u32_is_little_endian() {
    let mut buf: Vec<u8> = Vec::new();
    write_u32(&mut buf, 0xdead_beef);
    assert_eq!(buf, vec![0xef, 0xbe, 0xad, 0xde]);
}

#[test]
fn write_bytes_appends_all() {
    let mut buf: Vec<u8> = vec![1];
    let extra: Vec<u8> = vec![2, 3, 4];
    write_bytes(&mut buf, &extra);
    assert_eq!(buf, vec![1, 2, 3, 4]);
}

#[test]
fn read_u16_round_trips() {
    let mut buf: Vec<u8> = Vec::new();
    write_u16(&mut buf, 0xbeef);
    let mut cur = Cursor::new(buf);
    assert_eq!(cur.read_u16(), Ok(0xbeef));
    assert_eq!(cur.remaining(), 0);
}

#[test]
fn read_u32_round_trips() {
    let mut buf: Vec<u8> = Vec::new();
    write_u32(&mut buf, 0x0102_0304);
    let mut cur = Cursor::new(buf);
    assert_eq!(cur.read_u32(), Ok(0x0102_0304));
}

#[test]
fn read_past_end_is_unexpected_eof() {
    let mut cur = Cursor::new(vec![1]);
    assert_eq!(cur.read_u16(), Err(ReadError::UnexpectedEof));
    // The failed read consumed nothing.
    assert_eq!(cur.read_u8(), Ok(1));
    assert_eq!(cur.read_u8(), Err(ReadError::UnexpectedEof));
}

#[test]
fn read_u32_needs_four_bytes() {
    let mut cur = Cursor::new(vec![1, 2, 3]);
    assert_eq!(cur.read_u32(), Err(ReadError::UnexpectedEof));
    assert_eq!(cur.remaining(), 3);
}

#[test]
fn read_bytes_takes_exact_slice() {
    let mut cur = Cursor::new(vec![9, 8, 7, 6]);
    assert_eq!(cur.read_bytes(3), Ok(vec![9, 8, 7]));
    assert_eq!(cur.read_bytes(2), Err(ReadError::UnexpectedEof));
    assert_eq!(cur.read_bytes(1), Ok(vec![6]));
}
