//! Definition-time descriptions of message layouts.
//!
//! A message's byte layout is an ordered list of [`Item`]s.  A `Field` is a
//! stored value; a `Let` is a derived value that is written to the stream but
//! not held as message state; an `Unused` item is padding.  `Let` lengths and
//! `Unused` array lengths are computed from a [`Source`] over items declared
//! earlier in encoding order — forward references are a definition-time
//! error, captured here by the well-formedness predicates.

use vstd::prelude::*;

verus! {

/// Whether a structure declares its fields by name or by position.
///
/// Naming shapes only the generated language-level accessors; it has no
/// effect on the wire layout, which is positional either way.
#[derive(Clone, Copy, Debug, PartialEq, Eq)]
pub enum ElementType {
    Named,
    Unnamed,
}

/// The kind of definition a list of items belongs to.
#[derive(Clone, Copy, Debug, PartialEq, Eq)]
pub enum DefinitionType {
    /// A plain structure: no header of its own.
    Basic,
    /// A client-to-server call.
    Request,
    /// A server-to-client response.
    Reply,
    /// An asynchronous server-to-client notification.
    Event,
}

impl DefinitionType {
    /// Whether this kind of definition carries a length field in its header,
    /// so that length syntax may appear in its item sources.
    pub fn length_syntax(&self) -> (r: bool)
        ensures
            r == (*self == DefinitionType::Request || *self == DefinitionType::Reply),
    {
        match self {
            Self::Request => true,
            Self::Reply => true,

            _ => false,
        }
    }
}

/// The width of a fixed-size integer on the wire.
#[derive(Clone, Copy, Debug, PartialEq, Eq)]
pub enum IntWidth {
    W8,
    W16,
    W32,
}

/// The number of bytes an [`IntWidth`] occupies.
pub open spec fn width_bytes(w: IntWidth) -> int {
    match w {
        IntWidth::W8 => 1,
        IntWidth::W16 => 2,
        IntWidth::W32 => 4,
    }
}

/// The largest value an [`IntWidth`] can carry.
pub open spec fn width_max(w: IntWidth) -> int {
    match w {
        IntWidth::W8 => 0xff,
        IntWidth::W16 => 0xffff,
        IntWidth::W32 => 0xffffffff,
    }
}

/// A computed byte count or derived value: the source expression of a `Let`
/// or `Unused` array item.
///
/// A source is evaluated against the values of the items declared before it,
/// each item contributing one integer (a field's value, or a byte list's
/// length; see [`crate::value`]).
#[derive(Clone, Copy, Debug, PartialEq, Eq)]
pub enum Source {
    /// A fixed count.
    Const(u32),
    /// The value contributed by the item at the given index.
    Len(usize),
    /// The number of zero bytes needed after the item at the given index to
    /// round its contributed count up to a 4-byte boundary.
    Pad4Len(usize),
}

/// Padding bytes: either a single reserved byte or a run of reserved bytes
/// whose length is computed from a source expression.
#[derive(Clone, Copy, Debug, PartialEq, Eq)]
pub enum Unused {
    /// Exactly one zero byte on write; one uninspected byte on read.
    Unit,
    /// As many zero bytes as the source evaluates to.
    Array(Source),
}

/// The declared type of a stored field.
#[derive(Clone, Copy, Debug, PartialEq, Eq)]
pub enum FieldType {
    U8,
    U16,
    U32,
    /// A byte list whose length on the wire is the value contributed by the
    /// item at the given earlier index (a stored length field or a `Let`).
    Bytes(usize),
    /// A list of integers of the given width whose element count on the wire
    /// is the value contributed by the item at the given earlier index.
    List(IntWidth, usize),
}

/// One element of a message's ordered item list.
///
/// A nested plain structure needs no item of its own: a structure carries no
/// framing bytes, so its fields stand spliced into the containing list in
/// declaration order and the wire layout is identical.
#[derive(Clone, Copy, Debug, PartialEq, Eq)]
pub enum Item {
    /// A stored value of the declared type.
    Field(FieldType),
    /// A derived value: written with the given width, recomputed on read,
    /// never stored.
    Let(IntWidth, Source),
    /// Reserved padding bytes.
    Unused(Unused),
}

/// The item occupying the reserved metabyte slot in a message header.
///
/// Whatever this is, the slot is exactly one byte wide; an absent item leaves
/// a zero filler byte.
#[derive(Clone, Copy, Debug, PartialEq, Eq)]
pub enum Metabyte {
    /// No metabyte item: a zero byte is written, one byte is skipped on read.
    Absent,
    /// A reserved byte: encoded exactly as an absent item.
    Unused,
    /// A stored one-byte field, carried in the message value.
    Field,
    /// A derived one-byte value computed from the body items.
    Let(Source),
}

/// A source only references items declared before index `i`.
pub open spec fn source_wf(src: Source, i: int) -> bool {
    match src {
        Source::Const(_) => true,
        Source::Len(j) => j < i,
        Source::Pad4Len(j) => j < i,
    }
}

/// The item at index `i` only references items declared before it.
pub open spec fn item_wf(item: Item, i: int) -> bool {
    match item {
        Item::Field(FieldType::Bytes(j)) => j < i,
        Item::Field(FieldType::List(_, j)) => j < i,
        Item::Field(_) => true,
        Item::Let(_, src) => source_wf(src, i),
        Item::Unused(Unused::Unit) => true,
        Item::Unused(Unused::Array(src)) => source_wf(src, i),
    }
}

/// Every item of the list references only items declared before it.
pub open spec fn items_wf(items: Seq<Item>) -> bool {
    forall|i: int| 0 <= i < items.len() ==> item_wf(#[trigger] items[i], i)
}

/// The metabyte item references only declared body items.
///
/// The metabyte slot sits in the header, so a derived metabyte value may draw
/// on any body item: the whole body has been read by the time the value is
/// needed again, and on write the body values are all at hand.
pub open spec fn metabyte_wf(m: Metabyte, n_items: int) -> bool {
    match m {
        Metabyte::Let(src) => source_wf(src, n_items),
        _ => true,
    }
}

/// A plain structure: items only, no header.
pub struct StructDesc {
    /// Whether the generated structure names its fields; wire-irrelevant.
    pub element_type: ElementType,
    /// The items, in declaration order.
    pub items: Vec<Item>,
}

/// A request: major opcode, optional minor opcode, and a 16-bit length field
/// counted in 4-byte units.
pub struct RequestDesc {
    /// The opcode identifying the request, the first header byte.
    pub major_opcode: u8,
    /// The extension minor opcode; when declared it occupies the metabyte
    /// slot, so no metabyte item may be declared beside it.
    pub minor_opcode: Option<u8>,
    /// The item in the reserved second header byte.
    pub metabyte: Metabyte,
    /// The items, in declaration order.
    pub items: Vec<Item>,
}

/// A reply: a constant tag byte, the metabyte slot, an optional sequence
/// number and a 32-bit length field counted in 4-byte units.
pub struct ReplyDesc {
    /// Whether the connection-assigned sequence number is carried; replies
    /// may opt out per message.
    pub has_sequence: bool,
    /// The item in the reserved second header byte.
    pub metabyte: Metabyte,
    /// The items, in declaration order.
    pub items: Vec<Item>,
}

/// An event: event code, the metabyte slot and the sequence number.
pub struct EventDesc {
    /// The code identifying the event, the first header byte.
    pub code: u8,
    /// The item in the reserved second header byte.
    pub metabyte: Metabyte,
    /// The items, in declaration order.
    pub items: Vec<Item>,
}

impl StructDesc {
    /// The description references only declared items.
    pub open spec fn wf(self) -> bool {
        items_wf(self.items@)
    }
}

impl RequestDesc {
    /// The description references only declared items, and a declared minor
    /// opcode excludes a metabyte item: the minor opcode occupies that byte.
    pub open spec fn wf(self) -> bool {
        &&& items_wf(self.items@)
        &&& metabyte_wf(self.metabyte, self.items@.len() as int)
        &&& self.minor_opcode is Some ==> self.metabyte is Absent
    }
}

impl ReplyDesc {
    /// The description references only declared items.
    pub open spec fn wf(self) -> bool {
        &&& items_wf(self.items@)
        &&& metabyte_wf(self.metabyte, self.items@.len() as int)
    }
}

impl EventDesc {
    /// The description references only declared items.
    pub open spec fn wf(self) -> bool {
        &&& items_wf(self.items@)
        &&& metabyte_wf(self.metabyte, self.items@.len() as int)
    }
}

} // verus!
