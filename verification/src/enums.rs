//! The enum discriminant codec: tagged unions on the wire.
//!
//! An enum is an ordered list of variants.  Writing a value emits the
//! variant's discriminant as a single leading byte, then the variant's items
//! in the same item-codec manner as a plain structure.  Reading consumes one
//! byte and dispatches against each variant's *resolved* discriminant — the
//! declared value, or the previous variant's discriminant plus one, starting
//! at zero.  An unmatched byte fails with
//! [`ReadError::UnrecognizedDiscriminant`]: decoding never panics and never
//! guesses.
//!
//! Resolved discriminants must be pairwise distinct — colliding explicit
//! values are a definition-time error, captured by [`EnumDesc::wf`].

use vstd::prelude::*;

use crate::codec::{
    conforms, dec_items, enc_items, items_size, lemma_items_roundtrip, read_items, write_items,
};
use crate::cursor::Cursor;
use crate::desc::{items_wf, Item};
use crate::error::{ReadError, WriteError};
use crate::primitive::write_u8;
use crate::value::{vals_view, Value, ValueModel};

verus! {

/// One declared variant of an enum.
pub struct Variant {
    /// The explicitly declared discriminant, if any.  An undeclared
    /// discriminant resolves to the previous variant's resolved
    /// discriminant plus one; the first variant starts at zero.
    pub discriminant: Option<u8>,
    /// The variant's items, in declaration order.
    pub items: Vec<Item>,
}

/// An ordered list of variants, keyed on the wire by an 8-bit discriminant.
pub struct EnumDesc {
    pub variants: Vec<Variant>,
}

/// A value of an enum: which variant it is, and that variant's stored
/// fields.
pub struct EnumVal {
    /// The index of the variant in declaration order.
    pub variant: usize,
    /// The variant's stored fields in declaration order.
    pub fields: Vec<Value>,
}

/// The mathematical image of an [`EnumVal`].
pub ghost struct EnumValModel {
    pub variant: int,
    pub fields: Seq<ValueModel>,
}

impl View for EnumVal {
    type V = EnumValModel;

    open spec fn view(&self) -> EnumValModel {
        EnumValModel { variant: self.variant as int, fields: vals_view(self.fields@) }
    }
}

/// The discriminant variant `i` answers to on the wire: its declared value,
/// or the previous variant's resolved discriminant plus one, starting at
/// zero.
pub open spec fn resolved_discriminant(vs: Seq<Variant>, i: int) -> int
    decreases i,
{
    match vs[i].discriminant {
        Some(d) => d as int,
        None => if i <= 0 {
            0
        } else {
            resolved_discriminant(vs, i - 1) + 1
        },
    }
}

/// The first variant whose resolved discriminant matches the byte `b`, if
/// any.  Under [`EnumDesc::wf`] the match is unique.
pub open spec fn find_variant(vs: Seq<Variant>, b: u8) -> Option<int> {
    if exists|i: int| 0 <= i < vs.len() && resolved_discriminant(vs, i) == b {
        Some(choose|i: int| 0 <= i < vs.len() && resolved_discriminant(vs, i) == b)
    } else {
        None
    }
}

impl EnumDesc {
    /// Every variant's items reference only items declared before them,
    /// every resolved discriminant fits in its single byte, and no two
    /// variants resolve to the same discriminant.
    pub open spec fn wf(self) -> bool {
        &&& forall|i: int|
            0 <= i < self.variants@.len() ==> items_wf(#[trigger] self.variants@[i].items@)
        &&& forall|i: int|
            0 <= i < self.variants@.len() ==> 0 <= #[trigger] resolved_discriminant(
                self.variants@,
                i,
            ) <= 0xff
        &&& forall|i: int, j: int|
            0 <= i < j < self.variants@.len() ==> resolved_discriminant(self.variants@, i)
                != resolved_discriminant(self.variants@, j)
    }

    /// `v` is a valid value of this enum: it names a declared variant and
    /// carries valid fields for it.
    pub open spec fn val_conforms(self, v: EnumValModel) -> bool {
        &&& 0 <= v.variant < self.variants@.len()
        &&& conforms(self.variants@[v.variant].items@, v.fields)
    }

    /// The byte-exact encoding of an enum value: one discriminant byte,
    /// then the variant's items in declaration order.
    pub open spec fn enc(self, v: EnumValModel) -> Seq<u8> {
        seq![resolved_discriminant(self.variants@, v.variant) as u8] + enc_items(
            self.variants@[v.variant].items@,
            v.fields,
        )
    }

    /// Decoding an enum from `bytes` at `pos`: dispatch on the leading
    /// byte, then the matched variant's items.  `None` covers both a
    /// truncated input and an unmatched discriminant; the executable
    /// reader's contract tells the two apart.
    pub open spec fn dec(self, bytes: Seq<u8>, pos: int) -> Option<(EnumValModel, int)> {
        if pos + 1 <= bytes.len() {
            match find_variant(self.variants@, bytes[pos]) {
                Some(i) => match dec_items(self.variants@[i].items@, bytes, pos + 1) {
                    Some(st) => Some((EnumValModel { variant: i, fields: st.vals }, st.end)),
                    None => None,
                },
                None => None,
            }
        } else {
            None
        }
    }

    /// The resolved discriminant of the variant at index `i`.
    pub fn resolve_discriminant(&self, i: usize) -> (r: u8)
        requires
            self.wf(),
            i < self.variants@.len(),
        ensures
            r as int == resolved_discriminant(self.variants@, i as int),
    {
        let nv = self.variants.len();
        let mut k: usize = 0;
        let mut auto: u16 = 0;
        let mut res: u16 = 0;
        while k <= i
            invariant
                self.wf(),
                nv == self.variants@.len(),
                i < nv,
                k <= i + 1,
                k == 0 ==> auto == 0,
                k > 0 ==> auto == resolved_discriminant(self.variants@, k - 1) + 1,
                k > 0 ==> res == resolved_discriminant(self.variants@, k - 1),
            decreases i + 1 - k,
        {
            let variant = &self.variants[k];
            let cand: u16 = match variant.discriminant {
                Some(d) => d as u16,
                None => auto,
            };
            proof {
                assert(cand == resolved_discriminant(self.variants@, k as int));
                assert(0 <= resolved_discriminant(self.variants@, k as int) <= 0xff);
            }
            res = cand;
            auto = cand + 1;
            k = k + 1;
        }
        res as u8
    }

    /// Appends the enum value's encoding: its discriminant byte, then the
    /// variant's items.
    pub fn write(&self, v: &EnumVal, buf: &mut Vec<u8>) -> (r: Result<(), WriteError>)
        requires
            self.wf(),
            self.val_conforms(v@),
        ensures
            r is Ok,
            final(buf)@ == old(buf)@ + self.enc(v@),
    {
        let tag = self.resolve_discriminant(v.variant);
        write_u8(buf, tag);
        let variant = &self.variants[v.variant];
        let r = write_items(buf, &variant.items, &v.fields);
        assert(buf@ =~= old(buf)@ + self.enc(v@));
        r
    }

    /// Reads an enum value: one discriminant byte, dispatched against the
    /// declared variants, then the matched variant's items.  A truncated
    /// input fails with `UnexpectedEof`; a byte matching no variant fails
    /// with `UnrecognizedDiscriminant` carrying that byte.
    pub fn read(&self, cur: &mut Cursor) -> (r: Result<EnumVal, ReadError>)
        requires
            self.wf(),
            old(cur).wf(),
        ensures
            final(cur).wf(),
            final(cur).data@ == old(cur).data@,
            match r {
                Ok(v) => self.dec(old(cur).data@, old(cur).pos as int) matches Some(p) && v@ == p.0
                    && final(cur).pos == p.1,
                Err(ReadError::UnexpectedEof) => old(cur).spec_remaining() < 1 || (
                find_variant(self.variants@, old(cur).data@[old(cur).pos as int]) matches Some(i)
                    && dec_items(self.variants@[i].items@, old(cur).data@, old(cur).pos + 1)
                    is None),
                Err(ReadError::UnrecognizedDiscriminant(b)) => old(cur).spec_remaining() >= 1 && b
                    == old(cur).data@[old(cur).pos as int] && find_variant(
                    self.variants@,
                    b,
                ) is None,
            },
    {
        let b = match cur.read_u8() {
            Ok(b) => b,
            Err(_) => {
                return Err(ReadError::UnexpectedEof);
            },
        };
        let n = self.variants.len();
        let mut idx: usize = 0;
        let mut auto: u16 = 0;
        let mut found: Option<usize> = None;
        while idx < n
            invariant
                self.wf(),
                n == self.variants@.len(),
                idx <= n,
                idx == 0 ==> auto == 0,
                idx > 0 ==> auto == resolved_discriminant(self.variants@, idx - 1) + 1,
                match found {
                    Some(i) => i < n && resolved_discriminant(self.variants@, i as int) == b,
                    None => forall|j: int|
                        0 <= j < idx ==> #[trigger] resolved_discriminant(self.variants@, j) != b,
                },
            decreases n - idx,
        {
            let variant = &self.variants[idx];
            let cand: u16 = match variant.discriminant {
                Some(d) => d as u16,
                None => auto,
            };
            proof {
                assert(cand == resolved_discriminant(self.variants@, idx as int));
                assert(0 <= resolved_discriminant(self.variants@, idx as int) <= 0xff);
            }
            if found.is_none() && cand == (b as u16) {
                found = Some(idx);
            }
            auto = cand + 1;
            idx = idx + 1;
        }
        match found {
            Some(i) => {
                proof {
                    let vs = self.variants@;
                    assert(exists|j: int| 0 <= j < vs.len() && resolved_discriminant(vs, j) == b)
                        by {
                        assert(resolved_discriminant(vs, i as int) == b);
                    }
                    let j = choose|j: int|
                        0 <= j < vs.len() && resolved_discriminant(vs, j) == b;
                    if j != i as int {
                        assert(resolved_discriminant(vs, j) != resolved_discriminant(
                            vs,
                            i as int,
                        ));
                    }
                    assert(find_variant(vs, b) == Some(i as int));
                }
                let variant = &self.variants[i];
                match read_items(cur, &variant.items) {
                    Ok(fields) => Ok(EnumVal { variant: i, fields }),
                    Err(e) => Err(e),
                }
            },
            None => {
                proof {
                    let vs = self.variants@;
                    assert(forall|j: int|
                        0 <= j < vs.len() ==> #[trigger] resolved_discriminant(vs, j) != b);
                    assert(find_variant(vs, b) is None);
                }
                Err(ReadError::UnrecognizedDiscriminant(b))
            },
        }
    }
}

/// Round-trip law for enums: reading the bytes that writing a valid value
/// produced dispatches on the written discriminant byte back to the same
/// variant — resolved discriminants being unique — and reconstructs its
/// fields, consuming exactly one tag byte plus `items_size` bytes.
pub proof fn lemma_enum_roundtrip(d: EnumDesc, v: EnumValModel, bytes: Seq<u8>, pos: int)
    requires
        d.wf(),
        d.val_conforms(v),
        0 <= pos,
        pos + d.enc(v).len() <= bytes.len(),
        bytes.subrange(pos, pos + d.enc(v).len() as int) == d.enc(v),
    ensures
        d.dec(bytes, pos) matches Some(p) && p.0 == v && p.1 == pos + d.enc(v).len(),
{
    let vs = d.variants@;
    let body = enc_items(vs[v.variant].items@, v.fields);
    let e = d.enc(v);
    let total = e.len() as int;
    assert(total == 1 + body.len());
    assert forall|q: int| 0 <= q < total implies bytes[pos + q] == e[q] by {
        assert(bytes.subrange(pos, pos + total)[q] == bytes[pos + q]);
    }
    assert(bytes[pos + 0] == e[0]);
    assert(0 <= resolved_discriminant(vs, v.variant) <= 0xff);
    assert(bytes[pos] == resolved_discriminant(vs, v.variant) as u8);
    assert(resolved_discriminant(vs, v.variant) == bytes[pos]);
    assert(exists|j: int| 0 <= j < vs.len() && resolved_discriminant(vs, j) == bytes[pos]) by {
        assert(resolved_discriminant(vs, v.variant) == bytes[pos]);
    }
    let j = choose|j: int| 0 <= j < vs.len() && resolved_discriminant(vs, j) == bytes[pos];
    if j != v.variant {
        assert(resolved_discriminant(vs, j) != resolved_discriminant(vs, v.variant));
    }
    assert(find_variant(vs, bytes[pos]) == Some(v.variant));
    assert forall|r: int| 0 <= r < body.len() implies bytes.subrange(
        pos + 1,
        pos + 1 + body.len() as int,
    )[r] == body[r] by {
        assert(bytes[pos + (1 + r)] == e[1 + r]);
        assert(e[1 + r] == body[r]);
    }
    assert(bytes.subrange(pos + 1, pos + 1 + body.len() as int) =~= body);
    lemma_items_roundtrip(vs[v.variant].items@, v.fields, bytes, pos + 1);
}

} // verus!
