//! Runtime values of stored fields, and their mathematical model.
//!
//! A message value holds one [`Value`] per declared `Field` item, in
//! declaration order.  Contracts speak about [`ValueModel`], the spec-level
//! image of a value in which byte lists are sequences.

use vstd::prelude::*;

use crate::desc::{width_bytes, width_max, FieldType, IntWidth};
use crate::primitive::{enc_int, le16, le32};

verus! {

/// A stored field value.
#[derive(Clone, Debug, PartialEq, Eq)]
pub enum Value {
    U8(u8),
    U16(u16),
    U32(u32),
    /// A byte list; its length on the wire is declared by the field's type.
    Bytes(Vec<u8>),
    /// A list of fixed-width integers, each written at the declared width;
    /// the element count on the wire is declared by the field's type.
    List(IntWidth, Vec<u32>),
}

/// The mathematical image of a [`Value`].
pub ghost enum ValueModel {
    U8(u8),
    U16(u16),
    U32(u32),
    Bytes(Seq<u8>),
    List(IntWidth, Seq<u32>),
}

impl View for Value {
    type V = ValueModel;

    open spec fn view(&self) -> ValueModel {
        match self {
            Value::U8(v) => ValueModel::U8(*v),
            Value::U16(v) => ValueModel::U16(*v),
            Value::U32(v) => ValueModel::U32(*v),
            Value::Bytes(b) => ValueModel::Bytes(b@),
            Value::List(w, es) => ValueModel::List(*w, es@),
        }
    }
}

/// The spec-level image of a list of field values.
pub open spec fn vals_view(vs: Seq<Value>) -> Seq<ValueModel> {
    vs.map_values(|v: Value| v@)
}

/// The integer an item contributes to source evaluation: a numeric field
/// contributes its value, a byte list its length.
pub open spec fn contribution(v: ValueModel) -> u32 {
    match v {
        ValueModel::U8(x) => x as u32,
        ValueModel::U16(x) => x as u32,
        ValueModel::U32(x) => x,
        ValueModel::Bytes(b) => b.len() as u32,
        ValueModel::List(_, es) => es.len() as u32,
    }
}

/// The flat encoding of a list of integers, each at the given width, in
/// order: the composite codec applied element by element to the primitive
/// codec's output.
pub open spec fn enc_list(w: IntWidth, es: Seq<u32>) -> Seq<u8> {
    Seq::new(
        (width_bytes(w) * es.len()) as nat,
        |q: int| enc_int(w, es[q / width_bytes(w)])[q % width_bytes(w)],
    )
}

/// The exact bytes a field value writes.
pub open spec fn enc_value(v: ValueModel) -> Seq<u8> {
    match v {
        ValueModel::U8(x) => seq![x],
        ValueModel::U16(x) => le16(x),
        ValueModel::U32(x) => le32(x),
        ValueModel::Bytes(b) => b,
        ValueModel::List(w, es) => enc_list(w, es),
    }
}

/// The value has the declared shape.  For a byte list the declared length
/// reference is checked against the environment by the item-level
/// conformance predicate; here only the variant and the length bound are
/// constrained.
pub open spec fn value_has_type(v: ValueModel, t: FieldType) -> bool {
    match t {
        FieldType::U8 => v is U8,
        FieldType::U16 => v is U16,
        FieldType::U32 => v is U32,
        FieldType::Bytes(_) => v is Bytes && v->Bytes_0.len() <= u32::MAX,
        FieldType::List(w, _) => v is List && v->List_0 == w && v->List_1.len() <= u32::MAX
            && forall|i: int| 0 <= i < v->List_1.len() ==> #[trigger] v->List_1[i] <= width_max(w),
    }
}

} // verus!
