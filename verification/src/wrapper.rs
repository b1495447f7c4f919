//! Wrapper types whose wire form overloads a sentinel value.
//!
//! [`CurrentableTime`] rides the four timestamp bytes: the value zero stands
//! for "the current server time", any other value for the timestamp itself.
//! [`Inheritable`] is the analogous wrapper for values that may instead be
//! copied from a parent.

use vstd::prelude::*;

use crate::cursor::Cursor;
use crate::error::{ReadError, WriteError};
use crate::primitive::{le32, write_u32};

verus! {

/// A server timestamp, in milliseconds.
#[derive(Clone, Copy, Debug, PartialEq, Eq)]
pub struct Timestamp(pub u32);

impl Timestamp {
    /// Wraps a raw timestamp value.
    pub fn new(value: u32) -> (r: Self)
        ensures
            r.0 == value,
    {
        Timestamp(value)
    }

    /// The raw timestamp value.
    pub fn unwrap(&self) -> (r: u32)
        ensures
            r == self.0,
    {
        self.0
    }
}

/// A value that may be inherited from a parent instead of being given.
#[derive(Clone, Copy, Debug, PartialEq, Eq)]
pub enum Inheritable<T> {
    /// Inherit the parent's value.
    CopyFromParent,
    /// Use this value.
    Uninherited(T),
}

/// A point in time that may be "now": either the sentinel for the current
/// server time, or an explicit timestamp.
#[derive(Clone, Copy, Debug, PartialEq, Eq)]
pub enum CurrentableTime {
    /// The current server time, encoded as the timestamp value zero.
    CurrentTime,
    /// An explicit timestamp; a zero timestamp cannot be told apart from
    /// `CurrentTime` on the wire.
    Timestamp(Timestamp),
}

/// The raw 32-bit value a [`CurrentableTime`] puts on the wire.
pub open spec fn time_repr(t: CurrentableTime) -> u32 {
    match t {
        CurrentableTime::CurrentTime => 0,
        CurrentableTime::Timestamp(ts) => ts.0,
    }
}

/// The [`CurrentableTime`] the raw 32-bit value `x` decodes to.
pub open spec fn time_of_repr(x: u32) -> CurrentableTime {
    if x == 0 {
        CurrentableTime::CurrentTime
    } else {
        CurrentableTime::Timestamp(Timestamp(x))
    }
}

impl CurrentableTime {
    /// The exact number of bytes [`CurrentableTime::write_to`] produces:
    /// always the four timestamp bytes.
    pub fn data_size(&self) -> (r: usize)
        ensures
            r == 4,
    {
        Self::static_data_size()
    }

    /// The size every value of this type occupies: four bytes.
    pub fn static_data_size() -> (r: usize)
        ensures
            r == 4,
    {
        4
    }

    /// Appends the four little-endian bytes: zero for the current time, the
    /// raw value for an explicit timestamp.
    pub fn write_to(&self, buf: &mut Vec<u8>) -> (r: Result<(), WriteError>)
        ensures
            r is Ok,
            final(buf)@ == old(buf)@ + le32(time_repr(*self)),
    {
        match self {
            Self::CurrentTime => write_u32(buf, 0),
            Self::Timestamp(ts) => write_u32(buf, ts.0),
        }
        Ok(())
    }

    /// Reads four little-endian bytes: zero decodes to the current time,
    /// anything else to an explicit timestamp.
    pub fn read_from(cur: &mut Cursor) -> (r: Result<Self, ReadError>)
        requires
            old(cur).wf(),
        ensures
            final(cur).wf(),
            final(cur).data@ == old(cur).data@,
            old(cur).spec_remaining() >= 4 ==> (r matches Ok(t) && t == time_of_repr(
                crate::primitive::dec32(
                    old(cur).data@[old(cur).pos as int],
                    old(cur).data@[old(cur).pos + 1],
                    old(cur).data@[old(cur).pos + 2],
                    old(cur).data@[old(cur).pos + 3],
                ),
            ) && final(cur).pos == old(cur).pos + 4),
            old(cur).spec_remaining() < 4 ==> r == Err::<Self, ReadError>(
                ReadError::UnexpectedEof,
            ),
    {
        match cur.read_u32() {
            Ok(x) => if x == 0 {
                Ok(Self::CurrentTime)
            } else {
                Ok(Self::Timestamp(Timestamp::new(x)))
            },
            Err(_) => Err(ReadError::UnexpectedEof),
        }
    }
}

/// Round-trip law for [`CurrentableTime`]: reading the four bytes a value
/// wrote gives the value back, for every value whose wire form is
/// unambiguous — an explicit zero timestamp is written as zero and so reads
/// back as `CurrentTime`.
pub proof fn lemma_time_roundtrip(t: CurrentableTime)
    requires
        t matches CurrentableTime::Timestamp(ts) ==> ts.0 != 0,
    ensures
        time_of_repr(crate::primitive::dec32(
            le32(time_repr(t))[0],
            le32(time_repr(t))[1],
            le32(time_repr(t))[2],
            le32(time_repr(t))[3],
        )) == t,
{
    crate::primitive::lemma_le32_roundtrip(time_repr(t));
}

} // verus!
