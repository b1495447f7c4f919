//! The sentinel-overloading wrappers around the timestamp bytes.

use xrbk::cursor::Cursor;
use xrbk::error::ReadError;
use xrbk::wrapper::{CurrentableTime, Inheritable, Timestamp};

#[test]
fn current_time_writes_zero() {
    let t = CurrentableTime::CurrentTime;
    assert_eq!(t.data_size(), 4);
    assert_eq!(CurrentableTime::static_data_size(), 4);
    let mut buf: Vec<u8> = Vec::new();
    assert!(t.write_to(&mut buf).is_ok());
    assert_eq!(buf, vec![0, 0, 0, 0]);
}

#[test]
fn timestamp_round_trips() {
    let t = CurrentableTime::Timestamp(Timestamp::new(0x01020304));
    let mut buf: Vec<u8> = Vec::new();
    assert!(t.write_to(&mut buf).is_ok());
    assert_eq!(buf, vec![4, 3, 2, 1]);
    let mut cur = Cursor::new(buf);
    assert_eq!(CurrentableTime::read_from(&mut cur), Ok(t));
}

#[test]
fn zero_reads_back_as_current_time() {
    let mut cur = Cursor::new(vec![0, 0, 0, 0]);
    assert_eq!(CurrentableTime::read_from(&mut cur), Ok(CurrentableTime::CurrentTime));
}

#[test]
fn short_time_is_eof() {
    let mut cur = Cursor::new(vec![1, 2]);
    assert_eq!(CurrentableTime::read_from(&mut cur), Err(ReadError::UnexpectedEof));
}

#[test]
fn timestamp_unwrap_returns_the_raw_value() {
    assert_eq!(Timestamp::new(77).unwrap(), 77);
}

#[test]
fn inheritable_carries_its_value() {
    let a: Inheritable<u32> = Inheritable::Uninherited(12);
    let b: Inheritable<u32> = Inheritable::CopyFromParent;
    assert_eq!(a, Inheritable::Uninherited(12));
    assert_ne!(a, b);
}
