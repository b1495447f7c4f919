//! Message framing: the fixed header grammar of each message kind.
//!
//! A plain structure has no header; a request, reply or event wraps its item
//! bytes in a fixed header whose second byte is the reserved metabyte slot.
//! Write and read mirror each other exactly: the order bytes are produced on
//! write is the order they are consumed on read.  Dispatch bytes — a
//! request's opcode, a reply's tag, the length fields — are consumed on read
//! but used only diagnostically; selecting the right description for the
//! bytes at hand is the caller's concern.

use vstd::prelude::*;

use crate::codec::{
    conforms, dec_items, enc_items, env_items, eval_source, eval_source_exec, items_size, layout,
    lemma_items_roundtrip, read_items, write_items,
};
use crate::cursor::Cursor;
use crate::desc::{EventDesc, Metabyte, ReplyDesc, RequestDesc, StructDesc};
use crate::error::{ReadError, WriteError};
use crate::primitive::{dec16, le16, le32, write_u16, write_u32, write_u8};
use crate::value::{vals_view, Value, ValueModel};

verus! {

/// A value of a plain structure: its stored fields in declaration order.
pub struct StructVal {
    pub fields: Vec<Value>,
}

/// A value of a request.
pub struct RequestVal {
    /// The metabyte item's value, present exactly when the description
    /// declares a metabyte field.
    pub metabyte: Option<u8>,
    /// The stored fields in declaration order.
    pub fields: Vec<Value>,
}

/// A value of a reply.
pub struct ReplyVal {
    /// The metabyte item's value, present exactly when the description
    /// declares a metabyte field.
    pub metabyte: Option<u8>,
    /// The connection-assigned sequence number, present exactly when the
    /// description has not opted out of it.
    pub sequence: Option<u16>,
    /// The stored fields in declaration order.
    pub fields: Vec<Value>,
}

/// A value of an event.
pub struct EventVal {
    /// The metabyte item's value, present exactly when the description
    /// declares a metabyte field.
    pub metabyte: Option<u8>,
    /// The connection-assigned sequence number; every event carries one.
    pub sequence: u16,
    /// The stored fields in declaration order.
    pub fields: Vec<Value>,
}

/// The mathematical image of a [`StructVal`].
pub ghost struct StructValModel {
    pub fields: Seq<ValueModel>,
}

/// The mathematical image of a [`RequestVal`].
pub ghost struct RequestValModel {
    pub metabyte: Option<u8>,
    pub fields: Seq<ValueModel>,
}

/// The mathematical image of a [`ReplyVal`].
pub ghost struct ReplyValModel {
    pub metabyte: Option<u8>,
    pub sequence: Option<u16>,
    pub fields: Seq<ValueModel>,
}

/// The mathematical image of an [`EventVal`].
pub ghost struct EventValModel {
    pub metabyte: Option<u8>,
    pub sequence: u16,
    pub fields: Seq<ValueModel>,
}

impl View for StructVal {
    type V = StructValModel;

    open spec fn view(&self) -> StructValModel {
        StructValModel { fields: vals_view(self.fields@) }
    }
}

impl View for RequestVal {
    type V = RequestValModel;

    open spec fn view(&self) -> RequestValModel {
        RequestValModel { metabyte: self.metabyte, fields: vals_view(self.fields@) }
    }
}

impl View for ReplyVal {
    type V = ReplyValModel;

    open spec fn view(&self) -> ReplyValModel {
        ReplyValModel {
            metabyte: self.metabyte,
            sequence: self.sequence,
            fields: vals_view(self.fields@),
        }
    }
}

impl View for EventVal {
    type V = EventValModel;

    open spec fn view(&self) -> EventValModel {
        EventValModel {
            metabyte: self.metabyte,
            sequence: self.sequence,
            fields: vals_view(self.fields@),
        }
    }
}

/// A metabyte value is carried exactly when the description declares a
/// metabyte field, and a derived metabyte value fits in its single byte.
pub open spec fn meta_conforms(m: Metabyte, mv: Option<u8>, env: Seq<u32>) -> bool {
    &&& (m is Field <==> mv is Some)
    &&& match m {
        Metabyte::Let(src) => eval_source(src, env) <= 0xff,
        _ => true,
    }
}

/// The single byte written into the metabyte slot: the declared item's
/// value, or a zero filler when no metabyte item is declared.
pub open spec fn meta_byte(m: Metabyte, mv: Option<u8>, env: Seq<u32>) -> u8 {
    match m {
        Metabyte::Absent => 0,
        Metabyte::Unused => 0,
        Metabyte::Field => match mv {
            Some(b) => b,
            None => 0,
        },
        Metabyte::Let(src) => eval_source(src, env) as u8,
    }
}

/// Writes the metabyte slot byte for a message.
fn write_meta_byte(buf: &mut Vec<u8>, m: &Metabyte, mv: &Option<u8>, env: &Vec<u32>) -> (r: u8)
    requires
        crate::desc::metabyte_wf(*m, env@.len() as int),
    ensures
        r == meta_byte(*m, *mv, env@),
        final(buf)@ == old(buf)@ + seq![meta_byte(*m, *mv, env@)],
{
    let b: u8 = match m {
        Metabyte::Absent => 0,
        Metabyte::Unused => 0,
        Metabyte::Field => match mv {
            Some(x) => *x,
            None => 0,
        },
        Metabyte::Let(src) => #[verifier::truncate] (eval_source_exec(src, env) as u8),
    };
    write_u8(buf, b);
    b
}

impl StructDesc {
    /// `v` is a valid value of this structure.
    pub open spec fn val_conforms(self, v: StructValModel) -> bool {
        conforms(self.items@, v.fields)
    }

    /// The byte-exact encoding of a structure value: its items in
    /// declaration order, nothing else.
    pub open spec fn enc(self, v: StructValModel) -> Seq<u8> {
        enc_items(self.items@, v.fields)
    }

    /// Decoding a structure from `bytes` at `pos`: the value read and the
    /// position just past it, or `None` if the input ends first.
    pub open spec fn dec(self, bytes: Seq<u8>, pos: int) -> Option<(StructValModel, int)> {
        match dec_items(self.items@, bytes, pos) {
            Some(st) => Some((StructValModel { fields: st.vals }, st.end)),
            None => None,
        }
    }

    /// The exact number of bytes [`StructDesc::write`] produces.
    pub fn data_size(&self, v: &StructVal) -> (r: usize)
        requires
            self.wf(),
            self.val_conforms(v@),
            self.enc(v@).len() <= usize::MAX,
        ensures
            r == self.enc(v@).len(),
    {
        let (_env, size) = layout(&self.items, &v.fields);
        size
    }

    /// Appends the encoding of `v` to the output buffer.
    pub fn write(&self, v: &StructVal, buf: &mut Vec<u8>) -> (r: Result<(), WriteError>)
        requires
            self.wf(),
            self.val_conforms(v@),
        ensures
            r is Ok,
            final(buf)@ == old(buf)@ + self.enc(v@),
    {
        write_items(buf, &self.items, &v.fields)
    }

    /// Reads a structure value, consuming exactly its encoding's bytes.
    pub fn read(&self, cur: &mut Cursor) -> (r: Result<StructVal, ReadError>)
        requires
            self.wf(),
            old(cur).wf(),
        ensures
            final(cur).wf(),
            final(cur).data@ == old(cur).data@,
            match r {
                Ok(v) => self.dec(old(cur).data@, old(cur).pos as int) matches Some(p) && v@ == p.0
                    && final(cur).pos == p.1,
                Err(e) => e == ReadError::UnexpectedEof && self.dec(
                    old(cur).data@,
                    old(cur).pos as int,
                ) is None,
            },
    {
        match read_items(cur, &self.items) {
            Ok(fields) => Ok(StructVal { fields }),
            Err(e) => Err(e),
        }
    }
}

impl RequestDesc {
    /// `v` is a valid value of this request.
    pub open spec fn val_conforms(self, v: RequestValModel) -> bool {
        &&& conforms(self.items@, v.fields)
        &&& meta_conforms(self.metabyte, v.metabyte, env_items(self.items@, v.fields))
    }

    /// The second header byte: the minor opcode when one is declared, else
    /// the metabyte slot.
    pub open spec fn second_byte(self, v: RequestValModel) -> u8 {
        match self.minor_opcode {
            Some(m) => m,
            None => meta_byte(self.metabyte, v.metabyte, env_items(self.items@, v.fields)),
        }
    }

    /// The value of the 16-bit length field: the whole message, header
    /// included, counted in 4-byte units.
    pub open spec fn length_field(self, v: RequestValModel) -> int {
        (4 + items_size(self.items@, v.fields)) / 4
    }

    /// The byte-exact encoding of a request: major opcode, minor opcode or
    /// metabyte slot, length field, then the items in declaration order.
    pub open spec fn enc(self, v: RequestValModel) -> Seq<u8> {
        seq![self.major_opcode, self.second_byte(v)] + le16(self.length_field(v) as u16)
            + enc_items(self.items@, v.fields)
    }

    /// Decoding a request from `bytes` at `pos`.  The opcode bytes and the
    /// length field are consumed but used only diagnostically: dispatching
    /// on them happened before this description was chosen.
    pub open spec fn dec(self, bytes: Seq<u8>, pos: int) -> Option<(RequestValModel, int)> {
        if pos + 4 <= bytes.len() {
            let mv = match self.metabyte {
                Metabyte::Field => Some(bytes[pos + 1]),
                _ => Option::<u8>::None,
            };
            match dec_items(self.items@, bytes, pos + 4) {
                Some(st) => Some((RequestValModel { metabyte: mv, fields: st.vals }, st.end)),
                None => None,
            }
        } else {
            None
        }
    }

    /// The opcode identifying this request.
    pub fn major_opcode(&self) -> (r: u8)
        ensures
            r == self.major_opcode,
    {
        self.major_opcode
    }

    /// The extension minor opcode, if one is declared.
    pub fn minor_opcode(&self) -> (r: Option<u8>)
        ensures
            r == self.minor_opcode,
    {
        self.minor_opcode
    }

    /// The exact number of bytes [`RequestDesc::write`] produces, header
    /// included.
    pub fn data_size(&self, v: &RequestVal) -> (r: usize)
        requires
            self.wf(),
            self.val_conforms(v@),
            4 + items_size(self.items@, v@.fields) <= usize::MAX,
        ensures
            r == self.enc(v@).len(),
            r == 4 + items_size(self.items@, v@.fields),
    {
        let (_env, size) = layout(&self.items, &v.fields);
        4 + size
    }

    /// The length field this request will carry, in 4-byte units.
    pub fn length(&self, v: &RequestVal) -> (r: u16)
        requires
            self.wf(),
            self.val_conforms(v@),
            self.length_field(v@) <= u16::MAX,
        ensures
            r == self.length_field(v@),
    {
        let (_env, size) = layout(&self.items, &v.fields);
        ((4 + size) / 4) as u16
    }

    /// Appends the request's encoding.  The layout engine must already have
    /// padded the items so that the whole message is a multiple of 4 bytes
    /// and fits the 16-bit length field.
    pub fn write(&self, v: &RequestVal, buf: &mut Vec<u8>) -> (r: Result<(), WriteError>)
        requires
            self.wf(),
            self.val_conforms(v@),
            (4 + items_size(self.items@, v@.fields)) % 4 == 0,
            self.length_field(v@) <= u16::MAX,
        ensures
            r is Ok,
            final(buf)@ == old(buf)@ + self.enc(v@),
    {
        let (env, size) = layout(&self.items, &v.fields);
        proof {
            crate::codec::lemma_env_prefix_len(self.items@, v@.fields, self.items@.len() as int);
        }
        write_u8(buf, self.major_opcode);
        match self.minor_opcode {
            Some(m) => {
                write_u8(buf, m);
            },
            None => {
                write_meta_byte(buf, &self.metabyte, &v.metabyte, &env);
            },
        }
        let lf: u16 = ((4 + size) / 4) as u16;
        write_u16(buf, lf);
        let r = write_items(buf, &self.items, &v.fields);
        assert(buf@ =~= old(buf)@ + self.enc(v@));
        r
    }

    /// Reads a request value, consuming exactly its encoding's bytes: the
    /// header first, then the items.
    pub fn read(&self, cur: &mut Cursor) -> (r: Result<RequestVal, ReadError>)
        requires
            self.wf(),
            old(cur).wf(),
        ensures
            final(cur).wf(),
            final(cur).data@ == old(cur).data@,
            match r {
                Ok(v) => self.dec(old(cur).data@, old(cur).pos as int) matches Some(p) && v@ == p.0
                    && final(cur).pos == p.1,
                Err(e) => e == ReadError::UnexpectedEof && self.dec(
                    old(cur).data@,
                    old(cur).pos as int,
                ) is None,
            },
    {
        match cur.read_u8() {
            Ok(_) => {},
            Err(_) => {
                return Err(ReadError::UnexpectedEof);
            },
        }
        let b1 = match cur.read_u8() {
            Ok(b) => b,
            Err(_) => {
                return Err(ReadError::UnexpectedEof);
            },
        };
        let mv: Option<u8> = match self.metabyte {
            Metabyte::Field => Some(b1),
            _ => None,
        };
        match cur.read_u16() {
            Ok(_) => {},
            Err(_) => {
                return Err(ReadError::UnexpectedEof);
            },
        }
        match read_items(cur, &self.items) {
            Ok(fields) => Ok(RequestVal { metabyte: mv, fields }),
            Err(e) => Err(e),
        }
    }
}

impl ReplyDesc {
    /// The number of header bytes: tag, metabyte, the sequence slot unless
    /// opted out, and the 32-bit length field.
    pub open spec fn header_size(self) -> int {
        if self.has_sequence {
            8
        } else {
            6
        }
    }

    /// `v` is a valid value of this reply.
    pub open spec fn val_conforms(self, v: ReplyValModel) -> bool {
        &&& conforms(self.items@, v.fields)
        &&& meta_conforms(self.metabyte, v.metabyte, env_items(self.items@, v.fields))
        &&& (self.has_sequence <==> v.sequence is Some)
    }

    /// The value of the 32-bit length field: the whole message, header
    /// included, counted in 4-byte units.
    pub open spec fn length_field(self, v: ReplyValModel) -> int {
        (self.header_size() + items_size(self.items@, v.fields)) / 4
    }

    /// The byte-exact encoding of a reply: the constant tag `1`, the
    /// metabyte slot, the sequence number unless opted out, the length
    /// field, then the items in declaration order.
    pub open spec fn enc(self, v: ReplyValModel) -> Seq<u8> {
        let head = seq![1u8, meta_byte(self.metabyte, v.metabyte, env_items(self.items@, v.fields))];
        let seq_part = if self.has_sequence {
            le16(match v.sequence {
                Some(s) => s,
                None => 0,
            })
        } else {
            Seq::<u8>::empty()
        };
        head + seq_part + le32(self.length_field(v) as u32) + enc_items(self.items@, v.fields)
    }

    /// Decoding a reply from `bytes` at `pos`.  The tag byte and the length
    /// field are consumed but used only diagnostically.
    pub open spec fn dec(self, bytes: Seq<u8>, pos: int) -> Option<(ReplyValModel, int)> {
        let h = self.header_size();
        if pos + h <= bytes.len() {
            let mv = match self.metabyte {
                Metabyte::Field => Some(bytes[pos + 1]),
                _ => Option::<u8>::None,
            };
            let sv = if self.has_sequence {
                Some(dec16(bytes[pos + 2], bytes[pos + 3]))
            } else {
                Option::<u16>::None
            };
            match dec_items(self.items@, bytes, pos + h) {
                Some(st) => Some(
                    (ReplyValModel { metabyte: mv, sequence: sv, fields: st.vals }, st.end),
                ),
                None => None,
            }
        } else {
            None
        }
    }

    /// The exact number of bytes [`ReplyDesc::write`] produces, header
    /// included.
    pub fn data_size(&self, v: &ReplyVal) -> (r: usize)
        requires
            self.wf(),
            self.val_conforms(v@),
            self.header_size() + items_size(self.items@, v@.fields) <= usize::MAX,
        ensures
            r == self.enc(v@).len(),
            r == self.header_size() + items_size(self.items@, v@.fields),
    {
        let (_env, size) = layout(&self.items, &v.fields);
        let h: usize = if self.has_sequence {
            8
        } else {
            6
        };
        assert(self.enc(v@).len() == self.header_size() + items_size(self.items@, v@.fields));
        h + size
    }

    /// The length field this reply will carry, in 4-byte units.
    pub fn length(&self, v: &ReplyVal) -> (r: u32)
        requires
            self.wf(),
            self.val_conforms(v@),
            self.header_size() + items_size(self.items@, v@.fields) <= usize::MAX,
            self.length_field(v@) <= u32::MAX,
        ensures
            r == self.length_field(v@),
    {
        let (_env, size) = layout(&self.items, &v.fields);
        let h: usize = if self.has_sequence {
            8
        } else {
            6
        };
        ((h + size) / 4) as u32
    }

    /// Appends the reply's encoding.  The layout engine must already have
    /// padded the items so that the whole message is a multiple of 4 bytes
    /// and fits the 32-bit length field.
    pub fn write(&self, v: &ReplyVal, buf: &mut Vec<u8>) -> (r: Result<(), WriteError>)
        requires
            self.wf(),
            self.val_conforms(v@),
            self.header_size() + items_size(self.items@, v@.fields) <= usize::MAX,
            (self.header_size() + items_size(self.items@, v@.fields)) % 4 == 0,
            self.length_field(v@) <= u32::MAX,
        ensures
            r is Ok,
            final(buf)@ == old(buf)@ + self.enc(v@),
    {
        let (env, size) = layout(&self.items, &v.fields);
        proof {
            crate::codec::lemma_env_prefix_len(self.items@, v@.fields, self.items@.len() as int);
        }
        write_u8(buf, 1);
        write_meta_byte(buf, &self.metabyte, &v.metabyte, &env);
        let h: usize = if self.has_sequence {
            8
        } else {
            6
        };
        if self.has_sequence {
            let s: u16 = match v.sequence {
                Some(s) => s,
                None => 0,
            };
            write_u16(buf, s);
        }
        let lf: u32 = ((h + size) / 4) as u32;
        write_u32(buf, lf);
        let r = write_items(buf, &self.items, &v.fields);
        assert(buf@ =~= old(buf)@ + self.enc(v@));
        r
    }

    /// Reads a reply value, consuming exactly its encoding's bytes: the
    /// header first — without the sequence slot when opted out — then the
    /// items.
    pub fn read(&self, cur: &mut Cursor) -> (r: Result<ReplyVal, ReadError>)
        requires
            self.wf(),
            old(cur).wf(),
        ensures
            final(cur).wf(),
            final(cur).data@ == old(cur).data@,
            match r {
                Ok(v) => self.dec(old(cur).data@, old(cur).pos as int) matches Some(p) && v@ == p.0
                    && final(cur).pos == p.1,
                Err(e) => e == ReadError::UnexpectedEof && self.dec(
                    old(cur).data@,
                    old(cur).pos as int,
                ) is None,
            },
    {
        match cur.read_u8() {
            Ok(_) => {},
            Err(_) => {
                return Err(ReadError::UnexpectedEof);
            },
        }
        let b1 = match cur.read_u8() {
            Ok(b) => b,
            Err(_) => {
                return Err(ReadError::UnexpectedEof);
            },
        };
        let mv: Option<u8> = match self.metabyte {
            Metabyte::Field => Some(b1),
            _ => None,
        };
        let sv: Option<u16> = if self.has_sequence {
            match cur.read_u16() {
                Ok(s) => Some(s),
                Err(_) => {
                    return Err(ReadError::UnexpectedEof);
                },
            }
        } else {
            None
        };
        match cur.read_u32() {
            Ok(_) => {},
            Err(_) => {
                return Err(ReadError::UnexpectedEof);
            },
        }
        match read_items(cur, &self.items) {
            Ok(fields) => Ok(ReplyVal { metabyte: mv, sequence: sv, fields }),
            Err(e) => Err(e),
        }
    }
}

impl ReplyVal {
    /// The sequence number of the request this reply answers, when the
    /// description carries one.
    pub fn sequence(&self) -> (r: Option<u16>)
        ensures
            r == self.sequence,
    {
        self.sequence
    }
}

impl EventDesc {
    /// `v` is a valid value of this event.
    pub open spec fn val_conforms(self, v: EventValModel) -> bool {
        &&& conforms(self.items@, v.fields)
        &&& meta_conforms(self.metabyte, v.metabyte, env_items(self.items@, v.fields))
    }

    /// The byte-exact encoding of an event: event code, the metabyte slot,
    /// the sequence number, then the items in declaration order.
    pub open spec fn enc(self, v: EventValModel) -> Seq<u8> {
        seq![self.code, meta_byte(self.metabyte, v.metabyte, env_items(self.items@, v.fields))]
            + le16(v.sequence) + enc_items(self.items@, v.fields)
    }

    /// Decoding an event from `bytes` at `pos`.  The code byte is consumed
    /// but used only diagnostically.
    pub open spec fn dec(self, bytes: Seq<u8>, pos: int) -> Option<(EventValModel, int)> {
        if pos + 4 <= bytes.len() {
            let mv = match self.metabyte {
                Metabyte::Field => Some(bytes[pos + 1]),
                _ => Option::<u8>::None,
            };
            let sv = dec16(bytes[pos + 2], bytes[pos + 3]);
            match dec_items(self.items@, bytes, pos + 4) {
                Some(st) => Some(
                    (EventValModel { metabyte: mv, sequence: sv, fields: st.vals }, st.end),
                ),
                None => None,
            }
        } else {
            None
        }
    }

    /// The code identifying this event.
    pub fn code(&self) -> (r: u8)
        ensures
            r == self.code,
    {
        self.code
    }

    /// The exact number of bytes [`EventDesc::write`] produces, header
    /// included.
    pub fn data_size(&self, v: &EventVal) -> (r: usize)
        requires
            self.wf(),
            self.val_conforms(v@),
            4 + items_size(self.items@, v@.fields) <= usize::MAX,
        ensures
            r == self.enc(v@).len(),
            r == 4 + items_size(self.items@, v@.fields),
    {
        let (_env, size) = layout(&self.items, &v.fields);
        4 + size
    }

    /// Appends the event's encoding.
    pub fn write(&self, v: &EventVal, buf: &mut Vec<u8>) -> (r: Result<(), WriteError>)
        requires
            self.wf(),
            self.val_conforms(v@),
            items_size(self.items@, v@.fields) <= usize::MAX,
        ensures
            r is Ok,
            final(buf)@ == old(buf)@ + self.enc(v@),
    {
        let (env, _size) = layout(&self.items, &v.fields);
        proof {
            crate::codec::lemma_env_prefix_len(self.items@, v@.fields, self.items@.len() as int);
        }
        write_u8(buf, self.code);
        write_meta_byte(buf, &self.metabyte, &v.metabyte, &env);
        write_u16(buf, v.sequence);
        let r = write_items(buf, &self.items, &v.fields);
        assert(buf@ =~= old(buf)@ + self.enc(v@));
        r
    }

    /// Reads an event value, consuming exactly its encoding's bytes: the
    /// header first, then the items.
    pub fn read(&self, cur: &mut Cursor) -> (r: Result<EventVal, ReadError>)
        requires
            self.wf(),
            old(cur).wf(),
        ensures
            final(cur).wf(),
            final(cur).data@ == old(cur).data@,
            match r {
                Ok(v) => self.dec(old(cur).data@, old(cur).pos as int) matches Some(p) && v@ == p.0
                    && final(cur).pos == p.1,
                Err(e) => e == ReadError::UnexpectedEof && self.dec(
                    old(cur).data@,
                    old(cur).pos as int,
                ) is None,
            },
    {
        match cur.read_u8() {
            Ok(_) => {},
            Err(_) => {
                return Err(ReadError::UnexpectedEof);
            },
        }
        let b1 = match cur.read_u8() {
            Ok(b) => b,
            Err(_) => {
                return Err(ReadError::UnexpectedEof);
            },
        };
        let mv: Option<u8> = match self.metabyte {
            Metabyte::Field => Some(b1),
            _ => None,
        };
        let sv = match cur.read_u16() {
            Ok(s) => s,
            Err(_) => {
                return Err(ReadError::UnexpectedEof);
            },
        };
        match read_items(cur, &self.items) {
            Ok(fields) => Ok(EventVal { metabyte: mv, sequence: sv, fields }),
            Err(e) => Err(e),
        }
    }
}

impl EventVal {
    /// The sequence number of the last relevant request, carried by every
    /// event.
    pub fn sequence(&self) -> (r: u16)
        ensures
            r == self.sequence,
    {
        self.sequence
    }
}

/// Round-trip law for plain structures: reading the bytes that writing a
/// valid value produced reconstructs that value, consuming exactly
/// `data_size` bytes.
pub proof fn lemma_struct_roundtrip(d: StructDesc, v: StructValModel, bytes: Seq<u8>, pos: int)
    requires
        d.wf(),
        d.val_conforms(v),
        0 <= pos,
        pos + d.enc(v).len() <= bytes.len(),
        bytes.subrange(pos, pos + d.enc(v).len() as int) == d.enc(v),
    ensures
        d.dec(bytes, pos) matches Some(p) && p.0 == v && p.1 == pos + d.enc(v).len(),
{
    lemma_items_roundtrip(d.items@, v.fields, bytes, pos);
}

/// Round-trip law for requests: reading the bytes that writing a valid
/// value produced reconstructs that value — fields and metabyte alike —
/// consuming exactly the four header bytes plus `items_size` bytes.
pub proof fn lemma_request_roundtrip(d: RequestDesc, v: RequestValModel, bytes: Seq<u8>, pos: int)
    requires
        d.wf(),
        d.val_conforms(v),
        0 <= pos,
        pos + d.enc(v).len() <= bytes.len(),
        bytes.subrange(pos, pos + d.enc(v).len() as int) == d.enc(v),
    ensures
        d.dec(bytes, pos) matches Some(p) && p.0 == v && p.1 == pos + d.enc(v).len(),
{
    let body = enc_items(d.items@, v.fields);
    let e = d.enc(v);
    let total = e.len() as int;
    assert(total == 4 + body.len());
    assert forall|q: int| 0 <= q < total implies bytes[pos + q] == e[q] by {
        assert(bytes.subrange(pos, pos + total)[q] == bytes[pos + q]);
    }
    assert(bytes[pos + 1] == e[1]);
    assert forall|r: int| 0 <= r < body.len() implies bytes.subrange(
        pos + 4,
        pos + 4 + body.len() as int,
    )[r] == body[r] by {
        assert(bytes[pos + (4 + r)] == e[4 + r]);
        assert(e[4 + r] == body[r]);
    }
    assert(bytes.subrange(pos + 4, pos + 4 + body.len() as int) =~= body);
    lemma_items_roundtrip(d.items@, v.fields, bytes, pos + 4);
    match d.metabyte {
        Metabyte::Field => {
            assert(d.minor_opcode is None);
            assert(e[1] == meta_byte(d.metabyte, v.metabyte, env_items(d.items@, v.fields)));
            assert(v.metabyte is Some);
            assert(Some(bytes[pos + 1]) == v.metabyte);
        },
        _ => {
            assert(v.metabyte is None);
        },
    }
}

/// Round-trip law for replies: reading the bytes that writing a valid
/// value produced reconstructs the fields, the metabyte and — unless opted
/// out — the sequence number, consuming exactly the header plus
/// `items_size` bytes.
pub proof fn lemma_reply_roundtrip(d: ReplyDesc, v: ReplyValModel, bytes: Seq<u8>, pos: int)
    requires
        d.wf(),
        d.val_conforms(v),
        0 <= pos,
        pos + d.enc(v).len() <= bytes.len(),
        bytes.subrange(pos, pos + d.enc(v).len() as int) == d.enc(v),
    ensures
        d.dec(bytes, pos) matches Some(p) && p.0 == v && p.1 == pos + d.enc(v).len(),
{
    let body = enc_items(d.items@, v.fields);
    let e = d.enc(v);
    let h = d.header_size();
    let total = e.len() as int;
    assert(total == h + body.len());
    assert forall|q: int| 0 <= q < total implies bytes[pos + q] == e[q] by {
        assert(bytes.subrange(pos, pos + total)[q] == bytes[pos + q]);
    }
    assert(bytes[pos + 1] == e[1]);
    assert forall|r: int| 0 <= r < body.len() implies bytes.subrange(
        pos + h,
        pos + h + body.len() as int,
    )[r] == body[r] by {
        assert(bytes[pos + (h + r)] == e[h + r]);
        assert(e[h + r] == body[r]);
    }
    assert(bytes.subrange(pos + h, pos + h + body.len() as int) =~= body);
    lemma_items_roundtrip(d.items@, v.fields, bytes, pos + h);
    match d.metabyte {
        Metabyte::Field => {
            assert(e[1] == meta_byte(d.metabyte, v.metabyte, env_items(d.items@, v.fields)));
            assert(v.metabyte is Some);
            assert(Some(bytes[pos + 1]) == v.metabyte);
        },
        _ => {
            assert(v.metabyte is None);
        },
    }
    if d.has_sequence {
        let s = v.sequence->0;
        crate::primitive::lemma_le16_roundtrip(s);
        assert(bytes[pos + 2] == e[2]);
        assert(bytes[pos + 3] == e[3]);
        assert(e[2] == le16(s)[0]);
        assert(e[3] == le16(s)[1]);
        assert(dec16(bytes[pos + 2], bytes[pos + 3]) == s);
    } else {
        assert(v.sequence is None);
    }
}

/// Round-trip law for events: reading the bytes that writing a valid value
/// produced reconstructs the fields, the metabyte and the sequence number,
/// consuming exactly the four header bytes plus `items_size` bytes.
pub proof fn lemma_event_roundtrip(d: EventDesc, v: EventValModel, bytes: Seq<u8>, pos: int)
    requires
        d.wf(),
        d.val_conforms(v),
        0 <= pos,
        pos + d.enc(v).len() <= bytes.len(),
        bytes.subrange(pos, pos + d.enc(v).len() as int) == d.enc(v),
    ensures
        d.dec(bytes, pos) matches Some(p) && p.0 == v && p.1 == pos + d.enc(v).len(),
{
    let body = enc_items(d.items@, v.fields);
    let e = d.enc(v);
    let total = e.len() as int;
    assert(total == 4 + body.len());
    assert forall|q: int| 0 <= q < total implies bytes[pos + q] == e[q] by {
        assert(bytes.subrange(pos, pos + total)[q] == bytes[pos + q]);
    }
    assert(bytes[pos + 1] == e[1]);
    assert forall|r: int| 0 <= r < body.len() implies bytes.subrange(
        pos + 4,
        pos + 4 + body.len() as int,
    )[r] == body[r] by {
        assert(bytes[pos + (4 + r)] == e[4 + r]);
        assert(e[4 + r] == body[r]);
    }
    assert(bytes.subrange(pos + 4, pos + 4 + body.len() as int) =~= body);
    lemma_items_roundtrip(d.items@, v.fields, bytes, pos + 4);
    match d.metabyte {
        Metabyte::Field => {
            assert(e[1] == meta_byte(d.metabyte, v.metabyte, env_items(d.items@, v.fields)));
            assert(v.metabyte is Some);
            assert(Some(bytes[pos + 1]) == v.metabyte);
        },
        _ => {
            assert(v.metabyte is None);
        },
    }
    crate::primitive::lemma_le16_roundtrip(v.sequence);
    assert(bytes[pos + 2] == e[2]);
    assert(bytes[pos + 3] == e[3]);
    assert(e[2] == le16(v.sequence)[0]);
    assert(e[3] == le16(v.sequence)[1]);
    assert(dec16(bytes[pos + 2], bytes[pos + 3]) == v.sequence);
}

/// Length-field correctness: the emitted length field of a request equals
/// `(header_bytes + data_size) / 4` exactly, where the header is four bytes
/// and `data_size` counts the items; the equality `4 * length == total`
/// holds because the layout engine only writes messages padded to a whole
/// number of 4-byte units.
pub proof fn lemma_request_length_field(d: RequestDesc, v: RequestValModel)
    requires
        d.wf(),
        d.val_conforms(v),
        (4 + items_size(d.items@, v.fields)) % 4 == 0,
        (4 + items_size(d.items@, v.fields)) / 4 <= u16::MAX,
    ensures
        d.enc(v).len() == 4 + items_size(d.items@, v.fields),
        d.enc(v).subrange(2, 4) == le16(d.length_field(v) as u16),
        4 * d.length_field(v) == d.enc(v).len(),
{
    assert(d.enc(v).subrange(2, 4) =~= le16(d.length_field(v) as u16));
}

/// Length-field correctness for replies: the emitted length field equals
/// `(header_bytes + data_size) / 4` exactly, where the header is eight
/// bytes — six with the sequence slot opted out — and `4 * length == total`
/// holds because the layout engine only writes messages padded to a whole
/// number of 4-byte units.
pub proof fn lemma_reply_length_field(d: ReplyDesc, v: ReplyValModel)
    requires
        d.wf(),
        d.val_conforms(v),
        (d.header_size() + items_size(d.items@, v.fields)) % 4 == 0,
        (d.header_size() + items_size(d.items@, v.fields)) / 4 <= u32::MAX,
    ensures
        d.enc(v).len() == d.header_size() + items_size(d.items@, v.fields),
        d.enc(v).subrange(d.header_size() - 4, d.header_size()) == le32(
            d.length_field(v) as u32,
        ),
        4 * d.length_field(v) == d.enc(v).len(),
{
    assert(d.enc(v).subrange(d.header_size() - 4, d.header_size()) =~= le32(
        d.length_field(v) as u32,
    ));
}

/// Metabyte exclusivity for requests: whatever the metabyte declaration —
/// a stored field, a derived value, padding, or nothing at all — exactly
/// one byte stands in the metabyte slot.  Two requests that differ only in
/// their metabyte declaration and value encode to byte strings of the same
/// length that agree everywhere except possibly that single slot byte.
pub proof fn lemma_request_metabyte_exclusivity(
    d1: RequestDesc,
    d2: RequestDesc,
    v1: RequestValModel,
    v2: RequestValModel,
)
    requires
        d1.items == d2.items,
        d1.major_opcode == d2.major_opcode,
        d1.minor_opcode == d2.minor_opcode,
        v1.fields == v2.fields,
    ensures
        d1.enc(v1).len() == d2.enc(v2).len(),
        d1.enc(v1).len() == 4 + items_size(d1.items@, v1.fields),
        forall|i: int|
            0 <= i < d1.enc(v1).len() && i != 1 ==> d1.enc(v1)[i] == d2.enc(v2)[i],
{
    let e1 = d1.enc(v1);
    let e2 = d2.enc(v2);
    let body = enc_items(d1.items@, v1.fields);
    assert(e1.len() == 4 + body.len());
    assert(e2.len() == 4 + body.len());
    assert forall|i: int| 0 <= i < e1.len() && i != 1 implies e1[i] == e2[i] by {
        if i >= 4 {
            assert(e1[i] == body[i - 4]);
            assert(e2[i] == body[i - 4]);
        }
    }
}

/// Metabyte exclusivity for replies: two replies that differ only in their
/// metabyte declaration and value encode to byte strings of the same
/// length that agree everywhere except possibly the single slot byte.
pub proof fn lemma_reply_metabyte_exclusivity(
    d1: ReplyDesc,
    d2: ReplyDesc,
    v1: ReplyValModel,
    v2: ReplyValModel,
)
    requires
        d1.items == d2.items,
        d1.has_sequence == d2.has_sequence,
        v1.sequence == v2.sequence,
        v1.fields == v2.fields,
    ensures
        d1.enc(v1).len() == d2.enc(v2).len(),
        d1.enc(v1).len() == d1.header_size() + items_size(d1.items@, v1.fields),
        forall|i: int|
            0 <= i < d1.enc(v1).len() && i != 1 ==> d1.enc(v1)[i] == d2.enc(v2)[i],
{
    let e1 = d1.enc(v1);
    let e2 = d2.enc(v2);
    let h = d1.header_size();
    let body = enc_items(d1.items@, v1.fields);
    assert(e1.len() == h + body.len());
    assert(e2.len() == h + body.len());
    assert forall|i: int| 0 <= i < e1.len() && i != 1 implies e1[i] == e2[i] by {
        if i >= h {
            assert(e1[i] == body[i - h]);
            assert(e2[i] == body[i - h]);
        }
    }
}

/// Metabyte exclusivity for events: two events that differ only in their
/// metabyte declaration and value encode to byte strings of the same
/// length that agree everywhere except possibly the single slot byte.
pub proof fn lemma_event_metabyte_exclusivity(
    d1: EventDesc,
    d2: EventDesc,
    v1: EventValModel,
    v2: EventValModel,
)
    requires
        d1.items == d2.items,
        d1.code == d2.code,
        v1.sequence == v2.sequence,
        v1.fields == v2.fields,
    ensures
        d1.enc(v1).len() == d2.enc(v2).len(),
        d1.enc(v1).len() == 4 + items_size(d1.items@, v1.fields),
        forall|i: int|
            0 <= i < d1.enc(v1).len() && i != 1 ==> d1.enc(v1)[i] == d2.enc(v2)[i],
{
    let e1 = d1.enc(v1);
    let e2 = d2.enc(v2);
    let body = enc_items(d1.items@, v1.fields);
    assert(e1.len() == 4 + body.len());
    assert(e2.len() == 4 + body.len());
    assert forall|i: int| 0 <= i < e1.len() && i != 1 implies e1[i] == e2[i] by {
        if i >= 4 {
            assert(e1[i] == body[i - 4]);
            assert(e2[i] == body[i - 4]);
        }
    }
}

/// Sequence opt-out: a reply declared without a sequence field writes no
/// sequence slot — its length field follows the metabyte directly and the
/// whole header is six bytes — while one declared with it always writes
/// the two sequence bytes third and fourth.  The matching read behaviour
/// is fixed by [`ReplyDesc::dec`], which consumes the slot exactly when
/// the description declares it.
pub proof fn lemma_reply_sequence_opt_out(d: ReplyDesc, v: ReplyValModel)
    requires
        d.wf(),
        d.val_conforms(v),
    ensures
        d.has_sequence ==> d.enc(v).len() == 8 + items_size(d.items@, v.fields) && d.enc(
            v,
        ).subrange(2, 4) == le16(v.sequence->0),
        !d.has_sequence ==> d.enc(v).len() == 6 + items_size(d.items@, v.fields) && d.enc(
            v,
        ).subrange(2, 6) == le32(d.length_field(v) as u32),
{
    if d.has_sequence {
        assert(d.enc(v).subrange(2, 4) =~= le16(v.sequence->0));
    } else {
        assert(d.enc(v).subrange(2, 6) =~= le32(d.length_field(v) as u32));
    }
}

} // verus!
