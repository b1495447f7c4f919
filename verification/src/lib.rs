//! A verified codec core for a little-endian, X11-style binary message
//! protocol.
//!
//! Messages come in four kinds — plain structures, requests, replies and
//! events — each with a fixed header layout followed by its items in
//! declaration order.  A message layout is described at definition time by a
//! list of [`desc::Item`]s; the codec interprets such a description to write a
//! value's byte-exact encoding into a buffer, to read a value back from a
//! cursor, and to compute the exact byte size of an encoding ahead of
//! writing (needed for the length-prefix fields of requests and replies).
//!
//! Every encoding function is specified against a mathematical encoding
//! function over sequences of bytes, every decoding function against a
//! matching decoding function, and the round-trip laws relating the two are
//! proved in [`codec`], [`message`] and [`enums`].

pub mod codec;
pub mod cursor;
pub mod desc;
pub mod enums;
pub mod error;
pub mod message;
pub mod primitive;
pub mod value;
pub mod wrapper;
