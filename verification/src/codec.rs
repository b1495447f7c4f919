//! The composite codec: encoding and decoding an ordered item list.
//!
//! Items are processed in strict declaration order, because padding and
//! length computations are order-dependent.  Evaluation threads an
//! *environment* through the list: one integer per item already processed —
//! a field's contributed value, a `Let`'s derived value, zero for padding.
//! Source expressions of later items draw on that environment.
//!
//! The spec-level functions [`enc_items`] and [`dec_items`] define the byte
//! layout once; the executable writer and reader are proved against them,
//! and [`lemma_items_roundtrip`] shows that decoding an encoding yields the
//! value it came from.

use vstd::prelude::*;

use crate::cursor::Cursor;
use crate::desc::{width_bytes, width_max, FieldType, IntWidth, Item, Source, Unused};
use crate::desc::items_wf;
use crate::error::{ReadError, WriteError};
use crate::primitive::{dec16, dec32, dec_int, enc_int, le16, le32, write_u16, write_u32, write_u8};
use crate::value::{contribution, enc_list, enc_value, vals_view, value_has_type, Value, ValueModel};

verus! {

/// The zero bytes needed to round a count of `n` bytes up to a 4-byte
/// boundary.
pub open spec fn pad4(n: int) -> int {
    (4 - n % 4) % 4
}

/// The padding rule is correct: following a count of `n` bytes with
/// `pad4(n)` zero bytes always lands on a 4-byte boundary, and never wastes
/// a whole word.  This is how a description's `Unused` array items keep the
/// total size of a length-prefixed message at a multiple of four.
pub proof fn lemma_pad4_aligns(n: int)
    requires
        n >= 0,
    ensures
        0 <= pad4(n) < 4,
        (n + pad4(n)) % 4 == 0,
{
}

/// How many of the first `k` items are stored fields.
pub open spec fn field_count(items: Seq<Item>, k: int) -> int
    decreases k,
{
    if k <= 0 {
        0
    } else {
        field_count(items, k - 1) + (if items[k - 1] is Field {
            1int
        } else {
            0int
        })
    }
}

/// The value of a source expression against the environment of the items
/// declared before it.
pub open spec fn eval_source(src: Source, env: Seq<u32>) -> u32 {
    match src {
        Source::Const(c) => c,
        Source::Len(j) => env[j as int],
        Source::Pad4Len(j) => pad4(env[j as int] as int) as u32,
    }
}

/// The integer one item adds to the environment.
pub open spec fn env_entry(item: Item, env: Seq<u32>, vals: Seq<ValueModel>, fc: int) -> u32 {
    match item {
        Item::Field(_) => contribution(vals[fc]),
        Item::Let(_, src) => eval_source(src, env),
        Item::Unused(_) => 0,
    }
}

/// The environment after the first `k` items, one entry per item.
pub open spec fn env_prefix(items: Seq<Item>, vals: Seq<ValueModel>, k: int) -> Seq<u32>
    decreases k,
{
    if k <= 0 {
        Seq::empty()
    } else {
        let e = env_prefix(items, vals, k - 1);
        e.push(env_entry(items[k - 1], e, vals, field_count(items, k - 1)))
    }
}

/// The environment over the whole item list.
pub open spec fn env_items(items: Seq<Item>, vals: Seq<ValueModel>) -> Seq<u32> {
    env_prefix(items, vals, items.len() as int)
}

/// The value list fits the item at index `i`: the field there has its
/// declared shape, a byte list is as long as its declared length reference
/// says, and a derived value fits its declared width.
pub open spec fn item_conforms(items: Seq<Item>, vals: Seq<ValueModel>, i: int) -> bool {
    let e = env_prefix(items, vals, i);
    let fc = field_count(items, i);
    match items[i] {
        Item::Field(t) => value_has_type(vals[fc], t) && (match t {
            FieldType::Bytes(j) => e[j as int] == vals[fc]->Bytes_0.len(),
            FieldType::List(_, j) => e[j as int] == vals[fc]->List_1.len(),
            _ => true,
        }),
        Item::Let(w, src) => eval_source(src, e) <= width_max(w),
        Item::Unused(_) => true,
    }
}

/// `vals` is a valid assignment of field values for `items`: one value per
/// field, each fitting its declaration.
pub open spec fn conforms(items: Seq<Item>, vals: Seq<ValueModel>) -> bool {
    &&& vals.len() == field_count(items, items.len() as int)
    &&& forall|i: int| 0 <= i < items.len() ==> item_conforms(items, vals, i)
}

/// `n` zero bytes.
pub open spec fn zero_bytes(n: int) -> Seq<u8> {
    Seq::new(n as nat, |i: int| 0u8)
}

/// The bytes one item writes, given the environment of the items before it.
pub open spec fn enc_item(item: Item, env: Seq<u32>, vals: Seq<ValueModel>, fc: int) -> Seq<u8> {
    match item {
        Item::Field(_) => enc_value(vals[fc]),
        Item::Let(w, src) => enc_int(w, eval_source(src, env)),
        Item::Unused(Unused::Unit) => seq![0u8],
        Item::Unused(Unused::Array(src)) => zero_bytes(eval_source(src, env) as int),
    }
}

/// The bytes the first `k` items write, in declaration order.
pub open spec fn enc_prefix(items: Seq<Item>, vals: Seq<ValueModel>, k: int) -> Seq<u8>
    decreases k,
{
    if k <= 0 {
        Seq::empty()
    } else {
        enc_prefix(items, vals, k - 1) + enc_item(
            items[k - 1],
            env_prefix(items, vals, k - 1),
            vals,
            field_count(items, k - 1),
        )
    }
}

/// The byte-exact encoding of an item list under a value assignment.
pub open spec fn enc_items(items: Seq<Item>, vals: Seq<ValueModel>) -> Seq<u8> {
    enc_prefix(items, vals, items.len() as int)
}

/// The exact number of bytes the item list writes.
pub open spec fn items_size(items: Seq<Item>, vals: Seq<ValueModel>) -> int {
    enc_items(items, vals).len() as int
}

/// The environment has one entry per item processed.
pub proof fn lemma_env_prefix_len(items: Seq<Item>, vals: Seq<ValueModel>, k: int)
    requires
        k >= 0,
    ensures
        env_prefix(items, vals, k).len() == k,
    decreases k,
{
    if k > 0 {
        lemma_env_prefix_len(items, vals, k - 1);
    }
}

/// Processing more items only appends to the environment.
pub proof fn lemma_env_prefix_extends(items: Seq<Item>, vals: Seq<ValueModel>, k1: int, k2: int)
    requires
        0 <= k1 <= k2,
    ensures
        env_prefix(items, vals, k2).take(k1) == env_prefix(items, vals, k1),
    decreases k2 - k1,
{
    lemma_env_prefix_len(items, vals, k1);
    if k2 == k1 {
        assert(env_prefix(items, vals, k2).take(k1) =~= env_prefix(items, vals, k1));
    } else {
        lemma_env_prefix_extends(items, vals, k1, k2 - 1);
        lemma_env_prefix_len(items, vals, k2 - 1);
        assert(env_prefix(items, vals, k2).take(k1) =~= env_prefix(items, vals, k2 - 1).take(k1));
    }
}

/// `field_count` grows by at most one per item and never shrinks.
pub proof fn lemma_field_count_monotone(items: Seq<Item>, k1: int, k2: int)
    requires
        0 <= k1 <= k2,
    ensures
        field_count(items, k1) <= field_count(items, k2),
        field_count(items, k2) <= field_count(items, k1) + (k2 - k1),
    decreases k2 - k1,
{
    if k2 > k1 {
        lemma_field_count_monotone(items, k1, k2 - 1);
    }
}

/// Processing more items only appends to the encoding.
pub proof fn lemma_enc_prefix_extends(items: Seq<Item>, vals: Seq<ValueModel>, k1: int, k2: int)
    requires
        0 <= k1 <= k2,
    ensures
        enc_prefix(items, vals, k2).take(enc_prefix(items, vals, k1).len() as int)
            == enc_prefix(items, vals, k1),
        enc_prefix(items, vals, k1).len() <= enc_prefix(items, vals, k2).len(),
    decreases k2 - k1,
{
    if k2 == k1 {
        assert(enc_prefix(items, vals, k2).take(enc_prefix(items, vals, k1).len() as int)
            =~= enc_prefix(items, vals, k1));
    } else {
        lemma_enc_prefix_extends(items, vals, k1, k2 - 1);
        assert(enc_prefix(items, vals, k2).take(enc_prefix(items, vals, k1).len() as int)
            =~= enc_prefix(items, vals, k2 - 1).take(enc_prefix(items, vals, k1).len() as int));
    }
}

/// The state of a decode in progress: the field values and environment
/// entries gathered so far, and the index of the next byte to consume.
pub ghost struct DecState {
    pub vals: Seq<ValueModel>,
    pub env: Seq<u32>,
    pub end: int,
}

/// Division and remainder of a position inside one element's block of a
/// flat list encoding.
proof fn lemma_block_div_mod(wd: int, i: int, q: int)
    by (nonlinear_arith)
    requires
        wd > 0,
        0 <= i,
        wd * i <= q < wd * i + wd,
    ensures
        q / wd == i,
        q % wd == q - wd * i,
{
}

/// Multiplying by a nonnegative width preserves order.
proof fn lemma_mul_le(wd: int, a: int, b: int)
    by (nonlinear_arith)
    requires
        wd >= 0,
        a <= b,
    ensures
        wd * a <= wd * b,
{
}

/// An integer's encoding at width `w` is exactly `width_bytes(w)` long.
pub proof fn lemma_enc_int_len(w: IntWidth, v: u32)
    ensures
        enc_int(w, v).len() == width_bytes(w),
{
}

/// The list of `n` integers of width `w` decoded from `bytes` at `pos`,
/// element by element in order.
pub open spec fn dec_list(w: IntWidth, bytes: Seq<u8>, pos: int, n: int) -> Seq<u32> {
    Seq::new(n as nat, |i: int| dec_int(w, bytes, pos + width_bytes(w) * i))
}

/// Writing one more element extends a flat list encoding by exactly that
/// element's bytes.
pub proof fn lemma_enc_list_take(w: IntWidth, es: Seq<u32>, i: int)
    requires
        0 <= i < es.len(),
    ensures
        enc_list(w, es).take(width_bytes(w) * (i + 1)) == enc_list(w, es).take(
            width_bytes(w) * i,
        ) + enc_int(w, es[i]),
{
    let wd = width_bytes(w);
    assert(wd * (i + 1) == wd * i + wd) by (nonlinear_arith);
    lemma_mul_le(wd, 0, i);
    lemma_mul_le(wd, i + 1, es.len() as int);
    lemma_enc_int_len(w, es[i]);
    assert forall|q: int| 0 <= q < wd * (i + 1) implies #[trigger] enc_list(w, es).take(
        wd * (i + 1),
    )[q] == (enc_list(w, es).take(wd * i) + enc_int(w, es[i]))[q] by {
        if q >= wd * i {
            lemma_block_div_mod(wd, i, q);
            assert(enc_list(w, es)[q] == enc_int(w, es[i])[q - wd * i]);
        }
    }
    assert(enc_list(w, es).take(wd * (i + 1)) =~= enc_list(w, es).take(wd * i) + enc_int(
        w,
        es[i],
    ));
}

/// Decoding a flat list encoding gives the elements back, provided each
/// fits its declared width.
pub proof fn lemma_dec_enc_list(w: IntWidth, es: Seq<u32>, bytes: Seq<u8>, pos: int)
    requires
        0 <= pos,
        forall|i: int| 0 <= i < es.len() ==> #[trigger] es[i] <= width_max(w),
        pos + width_bytes(w) * es.len() <= bytes.len(),
        bytes.subrange(pos, pos + width_bytes(w) * es.len()) == enc_list(w, es),
    ensures
        dec_list(w, bytes, pos, es.len() as int) == es,
{
    let wd = width_bytes(w);
    let n = es.len() as int;
    lemma_mul_le(wd, 0, n);
    assert forall|i: int| 0 <= i < n implies dec_list(w, bytes, pos, n)[i] == es[i] by {
        lemma_mul_le(wd, 0, i);
        lemma_mul_le(wd, i + 1, n);
        assert(wd * (i + 1) == wd * i + wd) by (nonlinear_arith);
        lemma_enc_int_len(w, es[i]);
        let p = pos + wd * i;
        assert forall|r: int| 0 <= r < wd implies bytes[p + r] == enc_int(w, es[i])[r] by {
            let q = wd * i + r;
            lemma_block_div_mod(wd, i, q);
            assert(bytes.subrange(pos, pos + wd * n)[q] == bytes[pos + q]);
            assert(enc_list(w, es)[q] == enc_int(w, es[i])[r]);
        }
        match w {
            IntWidth::W8 => {
                assert(bytes[p + 0] == enc_int(w, es[i])[0]);
                assert((es[i] as u8) as u32 == es[i]);
            },
            IntWidth::W16 => {
                crate::primitive::lemma_le16_roundtrip(es[i] as u16);
                assert(bytes[p + 0] == le16(es[i] as u16)[0]);
                assert(bytes[p + 1] == le16(es[i] as u16)[1]);
                assert((es[i] as u16) as u32 == es[i]);
            },
            IntWidth::W32 => {
                crate::primitive::lemma_le32_roundtrip(es[i]);
                assert(bytes[p + 0] == le32(es[i])[0]);
                assert(bytes[p + 1] == le32(es[i])[1]);
                assert(bytes[p + 2] == le32(es[i])[2]);
                assert(bytes[p + 3] == le32(es[i])[3]);
            },
        }
        assert(dec_int(w, bytes, p) == es[i]);
    }
    assert(dec_list(w, bytes, pos, n) =~= es);
}

/// Decoding one field value of the declared type at `pos`: the value and
/// the position just past its bytes.  A byte list's length is not locally
/// inferable; it comes from the environment entry its type points at —
/// the external context of a contextual read.
pub open spec fn dec_field(ty: FieldType, bytes: Seq<u8>, pos: int, env: Seq<u32>) -> Option<
    (ValueModel, int),
> {
    match ty {
        FieldType::U8 => if pos + 1 <= bytes.len() {
            Some((ValueModel::U8(bytes[pos]), pos + 1))
        } else {
            None
        },
        FieldType::U16 => if pos + 2 <= bytes.len() {
            Some((ValueModel::U16(dec16(bytes[pos], bytes[pos + 1])), pos + 2))
        } else {
            None
        },
        FieldType::U32 => if pos + 4 <= bytes.len() {
            Some(
                (
                    ValueModel::U32(dec32(bytes[pos], bytes[pos + 1], bytes[pos + 2], bytes[pos + 3])),
                    pos + 4,
                ),
            )
        } else {
            None
        },
        FieldType::Bytes(j) => {
            let n = env[j as int] as int;
            if pos + n <= bytes.len() {
                Some((ValueModel::Bytes(bytes.subrange(pos, pos + n)), pos + n))
            } else {
                None
            }
        },
        FieldType::List(w, j) => {
            let n = env[j as int] as int;
            if pos + width_bytes(w) * n <= bytes.len() {
                Some(
                    (
                        ValueModel::List(w, dec_list(w, bytes, pos, n)),
                        pos + width_bytes(w) * n,
                    ),
                )
            } else {
                None
            }
        },
    }
}

/// Decoding one item: consumes its bytes from `bytes` at `st.end`, extends
/// the environment, and stores the value if the item is a field.  `None`
/// means the input ended before the item's bytes did.
pub open spec fn dec_step(item: Item, bytes: Seq<u8>, st: DecState) -> Option<DecState> {
    let p = st.end;
    match item {
        Item::Field(t) => match dec_field(t, bytes, p, st.env) {
            Some((v, end)) => Some(
                DecState { vals: st.vals.push(v), env: st.env.push(contribution(v)), end },
            ),
            None => None,
        },
        Item::Let(w, _) => if p + width_bytes(w) <= bytes.len() {
            Some(DecState {
                vals: st.vals,
                env: st.env.push(dec_int(w, bytes, p)),
                end: p + width_bytes(w),
            })
        } else {
            None
        },
        Item::Unused(Unused::Unit) => if p + 1 <= bytes.len() {
            Some(DecState { vals: st.vals, env: st.env.push(0), end: p + 1 })
        } else {
            None
        },
        Item::Unused(Unused::Array(src)) => {
            let n = eval_source(src, st.env) as int;
            if p + n <= bytes.len() {
                Some(DecState { vals: st.vals, env: st.env.push(0), end: p + n })
            } else {
                None
            }
        },
    }
}

/// Decoding the first `k` items starting at byte `pos`.
pub open spec fn dec_prefix(items: Seq<Item>, bytes: Seq<u8>, pos: int, k: int) -> Option<
    DecState,
>
    decreases k,
{
    if k <= 0 {
        Some(DecState { vals: Seq::empty(), env: Seq::empty(), end: pos })
    } else {
        match dec_prefix(items, bytes, pos, k - 1) {
            None => None,
            Some(st) => dec_step(items[k - 1], bytes, st),
        }
    }
}

/// Decoding the whole item list starting at byte `pos`: the field values,
/// the final environment and the position just past the consumed bytes, or
/// `None` if the input ended first.
pub open spec fn dec_items(items: Seq<Item>, bytes: Seq<u8>, pos: int) -> Option<DecState> {
    dec_prefix(items, bytes, pos, items.len() as int)
}

/// Once a decode has failed, processing further items cannot revive it.
pub proof fn lemma_dec_prefix_none(items: Seq<Item>, bytes: Seq<u8>, pos: int, k1: int, k2: int)
    requires
        0 <= k1 <= k2,
        dec_prefix(items, bytes, pos, k1) is None,
    ensures
        dec_prefix(items, bytes, pos, k2) is None,
    decreases k2 - k1,
{
    if k2 > k1 {
        lemma_dec_prefix_none(items, bytes, pos, k1, k2 - 1);
    }
}

/// The heart of the round-trip law: decoding the first `k` items of an
/// encoding reconstructs exactly the first `k` items' field values and
/// environment, consuming exactly their bytes.
pub proof fn lemma_dec_enc_prefix(
    items: Seq<Item>,
    vals: Seq<ValueModel>,
    bytes: Seq<u8>,
    pos: int,
    k: int,
)
    requires
        items_wf(items),
        conforms(items, vals),
        0 <= pos,
        0 <= k <= items.len(),
        pos + enc_items(items, vals).len() <= bytes.len(),
        bytes.subrange(pos, pos + enc_items(items, vals).len() as int) == enc_items(items, vals),
    ensures
        dec_prefix(items, bytes, pos, k) matches Some(st) && st.vals == vals.take(
            field_count(items, k),
        ) && st.env == env_prefix(items, vals, k) && st.end == pos + enc_prefix(
            items,
            vals,
            k,
        ).len(),
    decreases k,
{
    let n_items = items.len() as int;
    lemma_env_prefix_len(items, vals, k);
    if k == 0 {
        lemma_field_count_monotone(items, 0, 0);
        assert(vals.take(0) =~= Seq::<ValueModel>::empty());
        assert(env_prefix(items, vals, 0) =~= Seq::<u32>::empty());
    } else {
        lemma_dec_enc_prefix(items, vals, bytes, pos, k - 1);
        let st = dec_prefix(items, bytes, pos, k - 1)->Some_0;
        let item = items[k - 1];
        let e = env_prefix(items, vals, k - 1);
        let fc = field_count(items, k - 1);
        let off = enc_prefix(items, vals, k - 1).len() as int;
        let piece = enc_item(item, e, vals, fc);
        let m = piece.len() as int;
        let p = pos + off;
        let total = enc_items(items, vals).len() as int;
        lemma_env_prefix_len(items, vals, k - 1);
        lemma_field_count_monotone(items, 0, k - 1);
        lemma_field_count_monotone(items, k, n_items);
        lemma_field_count_monotone(items, k - 1, k);
        // The bytes of item k-1 sit at offset `off` within the encoding.
        lemma_enc_prefix_extends(items, vals, k, n_items);
        lemma_enc_prefix_extends(items, vals, k - 1, k);
        assert(enc_prefix(items, vals, k) == enc_prefix(items, vals, k - 1) + piece);
        assert(off + m <= total);
        assert forall|r: int| 0 <= r < m implies bytes[p + r] == piece[r] by {
            assert(enc_prefix(items, vals, k)[off + r] == piece[r]);
            assert(enc_items(items, vals).take(enc_prefix(items, vals, k).len() as int)[off + r]
                == enc_prefix(items, vals, k)[off + r]);
            assert(bytes.subrange(pos, pos + total)[off + r] == bytes[p + r]);
        }
        assert(item_conforms(items, vals, k - 1));
        match item {
            Item::Field(t) => {
                let v = vals[fc];
                assert(field_count(items, k) == fc + 1);
                assert(st.vals.push(v) =~= vals.take(fc + 1));
                match t {
                    FieldType::U8 => {
                        assert(bytes[p + 0] == piece[0]);
                        assert(bytes[p] == v->U8_0);
                    },
                    FieldType::U16 => {
                        crate::primitive::lemma_le16_roundtrip(v->U16_0);
                        assert(bytes[p + 0] == piece[0]);
                        assert(bytes[p] == le16(v->U16_0)[0]);
                        assert(bytes[p + 1] == le16(v->U16_0)[1]);
                    },
                    FieldType::U32 => {
                        crate::primitive::lemma_le32_roundtrip(v->U32_0);
                        assert(bytes[p + 0] == piece[0]);
                        assert(bytes[p] == le32(v->U32_0)[0]);
                        assert(bytes[p + 1] == le32(v->U32_0)[1]);
                        assert(bytes[p + 2] == le32(v->U32_0)[2]);
                        assert(bytes[p + 3] == le32(v->U32_0)[3]);
                    },
                    FieldType::Bytes(j) => {
                        let b = v->Bytes_0;
                        assert(st.env[j as int] == b.len());
                        assert forall|r: int| 0 <= r < b.len() implies bytes.subrange(
                            p,
                            p + b.len(),
                        )[r] == b[r] by {
                            assert(bytes[p + r] == piece[r]);
                        }
                        assert(bytes.subrange(p, p + b.len()) =~= b);
                        assert(ValueModel::Bytes(bytes.subrange(p, p + b.len())) == v);
                    },
                    FieldType::List(lw, j) => {
                        let es = v->List_1;
                        let wd = width_bytes(lw);
                        assert(st.env[j as int] == es.len());
                        lemma_mul_le(wd, 0, es.len() as int);
                        assert(piece == enc_list(lw, es));
                        assert(piece.len() == wd * es.len());
                        assert forall|r: int| 0 <= r < piece.len() implies bytes.subrange(
                            p,
                            p + piece.len() as int,
                        )[r] == piece[r] by {
                            assert(bytes[p + r] == piece[r]);
                        }
                        assert(bytes.subrange(p, p + piece.len() as int) =~= piece);
                        lemma_dec_enc_list(lw, es, bytes, p);
                        assert(ValueModel::List(lw, dec_list(lw, bytes, p, es.len() as int))
                            == v);
                    },
                }
            },
            Item::Let(w, src) => {
                let lv = eval_source(src, e);
                assert(lv <= width_max(w));
                assert(field_count(items, k) == fc);
                match w {
                    IntWidth::W8 => {
                        assert(bytes[p + 0] == piece[0]);
                        assert(bytes[p] == lv as u8);
                        assert((lv as u8) as u32 == lv);
                    },
                    IntWidth::W16 => {
                        crate::primitive::lemma_le16_roundtrip(lv as u16);
                        assert(bytes[p + 0] == piece[0]);
                        assert(bytes[p] == le16(lv as u16)[0]);
                        assert(bytes[p + 1] == le16(lv as u16)[1]);
                        assert((lv as u16) as u32 == lv);
                    },
                    IntWidth::W32 => {
                        crate::primitive::lemma_le32_roundtrip(lv);
                        assert(bytes[p + 0] == piece[0]);
                        assert(bytes[p] == le32(lv)[0]);
                        assert(bytes[p + 1] == le32(lv)[1]);
                        assert(bytes[p + 2] == le32(lv)[2]);
                        assert(bytes[p + 3] == le32(lv)[3]);
                    },
                }
            },
            Item::Unused(u) => {
                assert(field_count(items, k) == fc);
            },
        }
        let stk = dec_step(item, bytes, st)->Some_0;
        assert(stk.vals =~= vals.take(field_count(items, k)));
        assert(stk.env =~= env_prefix(items, vals, k));
    }
}

/// Round-trip law for item lists: reading the bytes that writing a valid
/// value produced — wherever they sit in a larger buffer — reconstructs that
/// value, bit for bit, and consumes exactly `items_size` bytes.
pub proof fn lemma_items_roundtrip(
    items: Seq<Item>,
    vals: Seq<ValueModel>,
    bytes: Seq<u8>,
    pos: int,
)
    requires
        items_wf(items),
        conforms(items, vals),
        0 <= pos,
        pos + items_size(items, vals) <= bytes.len(),
        bytes.subrange(pos, pos + items_size(items, vals)) == enc_items(items, vals),
    ensures
        dec_items(items, bytes, pos) matches Some(st) && st.vals == vals && st.env == env_items(
            items,
            vals,
        ) && st.end == pos + items_size(items, vals),
{
    lemma_dec_enc_prefix(items, vals, bytes, pos, items.len() as int);
    assert(vals.take(field_count(items, items.len() as int)) =~= vals);
}

/// Appends `n` zero bytes to the output buffer.
pub fn write_zeros(buf: &mut Vec<u8>, n: usize)
    ensures
        final(buf)@ == old(buf)@ + zero_bytes(n as int),
{
    let ghost orig = buf@;
    let mut i: usize = 0;
    while i < n
        invariant
            i <= n,
            buf@ == orig + zero_bytes(i as int),
        decreases n - i,
    {
        buf.push(0);
        i = i + 1;
        assert(buf@ =~= orig + zero_bytes(i as int));
    }
}

/// Appends the bytes of one field value to the output buffer.
pub fn write_value(buf: &mut Vec<u8>, v: &Value)
    ensures
        final(buf)@ == old(buf)@ + enc_value(v@),
{
    match v {
        Value::U8(x) => write_u8(buf, *x),
        Value::U16(x) => write_u16(buf, *x),
        Value::U32(x) => write_u32(buf, *x),
        Value::Bytes(b) => crate::primitive::write_bytes(buf, b),
        Value::List(w, es) => write_list(buf, *w, es),
    }
}

/// Appends each element of a list at the given width, in order.
pub fn write_list(buf: &mut Vec<u8>, w: IntWidth, es: &Vec<u32>)
    ensures
        final(buf)@ == old(buf)@ + enc_list(w, es@),
{
    let ghost orig = buf@;
    let mut i: usize = 0;
    proof {
        lemma_mul_le(width_bytes(w), 0, es@.len() as int);
        assert(enc_list(w, es@).take(width_bytes(w) * 0) =~= Seq::<u8>::empty());
        assert(buf@ =~= orig + enc_list(w, es@).take(width_bytes(w) * 0));
    }
    while i < es.len()
        invariant
            i <= es@.len(),
            buf@ == orig + enc_list(w, es@).take(width_bytes(w) * i as int),
        decreases es@.len() - i,
    {
        write_int(buf, w, es[i]);
        proof {
            lemma_enc_list_take(w, es@, i as int);
        }
        i = i + 1;
        assert(buf@ =~= orig + enc_list(w, es@).take(width_bytes(w) * i as int));
    }
    proof {
        assert(enc_list(w, es@).take(width_bytes(w) * (es@.len() as int)) =~= enc_list(w, es@));
    }
}

/// Reads `n` integers of the given width, in order.  Consumes exactly
/// `width_bytes(w) * n` bytes, or fails with `UnexpectedEof` and leaves the
/// cursor where it was.
pub fn read_list(cur: &mut Cursor, w: IntWidth, n: u32) -> (r: Result<Vec<u32>, ReadError>)
    requires
        old(cur).wf(),
    ensures
        final(cur).wf(),
        final(cur).data@ == old(cur).data@,
        match r {
            Ok(es) => old(cur).pos + width_bytes(w) * n <= old(cur).data@.len() && es@
                == dec_list(w, old(cur).data@, old(cur).pos as int, n as int) && final(cur).pos
                == old(cur).pos + width_bytes(w) * n,
            Err(e) => e == ReadError::UnexpectedEof && old(cur).pos + width_bytes(w) * n > old(
                cur,
            ).data@.len() && final(cur).pos == old(cur).pos,
        },
{
    let ghost data0 = old(cur).data@;
    let ghost pos0 = old(cur).pos as int;
    let start: usize = cur.pos;
    let mut es: Vec<u32> = Vec::new();
    let mut k: u32 = 0;
    proof {
        assert(es@ =~= dec_list(w, data0, pos0, 0));
    }
    while k < n
        invariant
            cur.wf(),
            data0 == old(cur).data@,
            pos0 == old(cur).pos as int,
            start == old(cur).pos,
            cur.data@ == data0,
            k <= n,
            cur.pos == pos0 + width_bytes(w) * (k as int),
            es@ == dec_list(w, data0, pos0, k as int),
        decreases n - k,
    {
        let ghost kk = k as int;
        let ghost wd = width_bytes(w);
        proof {
            assert(wd * (kk + 1) == wd * kk + wd) by (nonlinear_arith);
            lemma_mul_le(wd, kk + 1, n as int);
        }
        let x: u32 = match w {
            IntWidth::W8 => match cur.read_u8() {
                Ok(b) => b as u32,
                Err(_) => {
                    cur.pos = start;
                    return Err(ReadError::UnexpectedEof);
                },
            },
            IntWidth::W16 => match cur.read_u16() {
                Ok(v) => v as u32,
                Err(_) => {
                    cur.pos = start;
                    return Err(ReadError::UnexpectedEof);
                },
            },
            IntWidth::W32 => match cur.read_u32() {
                Ok(v) => v,
                Err(_) => {
                    cur.pos = start;
                    return Err(ReadError::UnexpectedEof);
                },
            },
        };
        proof {
            assert(x == dec_int(w, data0, pos0 + wd * kk));
        }
        es.push(x);
        k = k + 1;
        proof {
            assert(es@ =~= dec_list(w, data0, pos0, k as int));
        }
    }
    Ok(es)
}

/// Appends the little-endian bytes of `v` at the given width.
pub fn write_int(buf: &mut Vec<u8>, w: IntWidth, v: u32)
    ensures
        final(buf)@ == old(buf)@ + enc_int(w, v),
{
    match w {
        IntWidth::W8 => write_u8(buf, #[verifier::truncate] (v as u8)),
        IntWidth::W16 => write_u16(buf, #[verifier::truncate] (v as u16)),
        IntWidth::W32 => write_u32(buf, v),
    }
}

/// Evaluates a source expression against the environment gathered so far.
pub fn eval_source_exec(src: &Source, env: &Vec<u32>) -> (r: u32)
    requires
        crate::desc::source_wf(*src, env@.len() as int),
    ensures
        r == eval_source(*src, env@),
{
    match src {
        Source::Const(c) => *c,
        Source::Len(j) => env[*j],
        Source::Pad4Len(j) => {
            let n = env[*j];
            let r = (4 - n % 4) % 4;
            assert(r == pad4(n as int));
            r
        },
    }
}

/// Computes in one pass the environment of an item list and the exact
/// number of bytes its encoding occupies.  The size must be known — and be
/// right — before any length-prefixed message around the items can be
/// written, since the length field precedes the bytes it measures.
pub fn layout(items: &Vec<Item>, vals: &Vec<Value>) -> (r: (Vec<u32>, usize))
    requires
        items_wf(items@),
        conforms(items@, vals_view(vals@)),
        items_size(items@, vals_view(vals@)) <= usize::MAX,
    ensures
        r.0@ == env_items(items@, vals_view(vals@)),
        r.1 == items_size(items@, vals_view(vals@)),
{
    let ghost vs = vals_view(vals@);
    let mut env: Vec<u32> = Vec::new();
    let mut size: usize = 0;
    let mut fc: usize = 0;
    let mut k: usize = 0;
    while k < items.len()
        invariant
            items_wf(items@),
            conforms(items@, vs),
            vs == vals_view(vals@),
            items_size(items@, vs) <= usize::MAX,
            k <= items@.len(),
            env@ == env_prefix(items@, vs, k as int),
            fc == field_count(items@, k as int),
            fc <= vs.len(),
            size == enc_prefix(items@, vs, k as int).len(),
        decreases items@.len() - k,
    {
        let ghost ki = k as int;
        let ghost e = env_prefix(items@, vs, ki);
        proof {
            lemma_env_prefix_len(items@, vs, ki);
            lemma_field_count_monotone(items@, ki + 1, items@.len() as int);
            lemma_enc_prefix_extends(items@, vs, ki + 1, items@.len() as int);
            assert(item_conforms(items@, vs, ki));
        }
        let item = items[k];
        match item {
            Item::Field(t) => {
                assert(fc < vs.len());
                assert(vs[fc as int] == vals@[fc as int]@);
                let vlen = vals.len();
                assert(fc < vlen);
                let v = &vals[fc];
                let entry: u32 = match v {
                    Value::U8(x) => *x as u32,
                    Value::U16(x) => *x as u32,
                    Value::U32(x) => *x,
                    Value::Bytes(b) => b.len() as u32,
                    Value::List(_, es) => es.len() as u32,
                };
                let piece: usize = match v {
                    Value::U8(_) => 1,
                    Value::U16(_) => 2,
                    Value::U32(_) => 4,
                    Value::Bytes(b) => b.len(),
                    Value::List(lw, es) => {
                        proof {
                            lemma_mul_le(width_bytes(*lw), 0, es@.len() as int);
                            assert(enc_item(item, e, vs, fc as int).len() == width_bytes(*lw)
                                * es@.len());
                            assert(enc_prefix(items@, vs, ki + 1).len() <= usize::MAX);
                        }
                        let wsize: usize = match lw {
                            IntWidth::W8 => 1,
                            IntWidth::W16 => 2,
                            IntWidth::W32 => 4,
                        };
                        wsize * es.len()
                    },
                };
                assert(entry == env_entry(item, e, vs, fc as int));
                assert(piece == enc_item(item, e, vs, fc as int).len());
                assert(size + piece <= usize::MAX);
                env.push(entry);
                size = size + piece;
                fc = fc + 1;
            },
            Item::Let(w, src) => {
                let entry = eval_source_exec(&src, &env);
                let piece: usize = match w {
                    IntWidth::W8 => 1,
                    IntWidth::W16 => 2,
                    IntWidth::W32 => 4,
                };
                assert(piece == enc_item(item, e, vs, fc as int).len());
                assert(size + piece <= usize::MAX);
                env.push(entry);
                size = size + piece;
            },
            Item::Unused(Unused::Unit) => {
                assert(1 == enc_item(item, e, vs, fc as int).len());
                assert(size + 1 <= usize::MAX);
                env.push(0);
                size = size + 1;
            },
            Item::Unused(Unused::Array(src)) => {
                let n = eval_source_exec(&src, &env);
                assert(n as usize == enc_item(item, e, vs, fc as int).len());
                assert(size + (n as usize) <= usize::MAX);
                env.push(0);
                size = size + (n as usize);
            },
        }
        k = k + 1;
    }
    (env, size)
}

/// Writes the items in strict declaration order, appending each item's
/// bytes exactly as the spec-level encoding defines them.  Writing into a
/// growable buffer cannot fail.
pub fn write_items(buf: &mut Vec<u8>, items: &Vec<Item>, vals: &Vec<Value>) -> (r: Result<
    (),
    WriteError,
>)
    requires
        items_wf(items@),
        conforms(items@, vals_view(vals@)),
    ensures
        r is Ok,
        final(buf)@ == old(buf)@ + enc_items(items@, vals_view(vals@)),
{
    let ghost vs = vals_view(vals@);
    let ghost orig = buf@;
    let mut env: Vec<u32> = Vec::new();
    let mut fc: usize = 0;
    let mut k: usize = 0;
    while k < items.len()
        invariant
            items_wf(items@),
            conforms(items@, vs),
            vs == vals_view(vals@),
            orig == old(buf)@,
            k <= items@.len(),
            env@ == env_prefix(items@, vs, k as int),
            fc == field_count(items@, k as int),
            fc <= vs.len(),
            buf@ == orig + enc_prefix(items@, vs, k as int),
        decreases items@.len() - k,
    {
        let ghost ki = k as int;
        let ghost e = env_prefix(items@, vs, ki);
        proof {
            lemma_env_prefix_len(items@, vs, ki);
            lemma_field_count_monotone(items@, ki + 1, items@.len() as int);
            assert(item_conforms(items@, vs, ki));
        }
        let item = items[k];
        match item {
            Item::Field(t) => {
                assert(fc < vs.len());
                assert(vs[fc as int] == vals@[fc as int]@);
                let vlen = vals.len();
                assert(fc < vlen);
                let v = &vals[fc];
                let entry: u32 = match v {
                    Value::U8(x) => *x as u32,
                    Value::U16(x) => *x as u32,
                    Value::U32(x) => *x,
                    Value::Bytes(b) => b.len() as u32,
                    Value::List(_, es) => es.len() as u32,
                };
                assert(entry == env_entry(item, e, vs, fc as int));
                write_value(buf, v);
                env.push(entry);
                fc = fc + 1;
            },
            Item::Let(w, src) => {
                let entry = eval_source_exec(&src, &env);
                write_int(buf, w, entry);
                env.push(entry);
            },
            Item::Unused(Unused::Unit) => {
                write_u8(buf, 0);
                assert(seq![0u8] == enc_item(item, e, vs, fc as int));
                env.push(0);
            },
            Item::Unused(Unused::Array(src)) => {
                let n = eval_source_exec(&src, &env);
                write_zeros(buf, n as usize);
                env.push(0);
            },
        }
        k = k + 1;
        assert(buf@ =~= orig + enc_prefix(items@, vs, k as int));
    }
    Ok(())
}

impl Value {
    /// Reads one field value of the declared type — the contextual read of
    /// the codec surface.  A byte list's length cannot be inferred from the
    /// input alone: the environment of the items already decoded supplies
    /// that context, pointed into by the type's length reference.
    pub fn read_with(cur: &mut Cursor, ty: FieldType, env: &Vec<u32>) -> (r: Result<
        Value,
        ReadError,
    >)
        requires
            old(cur).wf(),
            ty matches FieldType::Bytes(j) ==> j < env@.len(),
            ty matches FieldType::List(w, j) ==> j < env@.len(),
        ensures
            final(cur).wf(),
            final(cur).data@ == old(cur).data@,
            match r {
                Ok(v) => dec_field(ty, old(cur).data@, old(cur).pos as int, env@) matches Some(p)
                    && v@ == p.0 && final(cur).pos == p.1,
                Err(e) => e == ReadError::UnexpectedEof && dec_field(
                    ty,
                    old(cur).data@,
                    old(cur).pos as int,
                    env@,
                ) is None && final(cur).pos == old(cur).pos,
            },
    {
        match ty {
            FieldType::U8 => match cur.read_u8() {
                Ok(b) => Ok(Value::U8(b)),
                Err(_) => Err(ReadError::UnexpectedEof),
            },
            FieldType::U16 => match cur.read_u16() {
                Ok(v) => Ok(Value::U16(v)),
                Err(_) => Err(ReadError::UnexpectedEof),
            },
            FieldType::U32 => match cur.read_u32() {
                Ok(v) => Ok(Value::U32(v)),
                Err(_) => Err(ReadError::UnexpectedEof),
            },
            FieldType::Bytes(j) => {
                let n = env[j];
                match cur.read_bytes(n as usize) {
                    Ok(b) => Ok(Value::Bytes(b)),
                    Err(_) => Err(ReadError::UnexpectedEof),
                }
            },
            FieldType::List(w, j) => {
                let n = env[j];
                match read_list(cur, w, n) {
                    Ok(es) => Ok(Value::List(w, es)),
                    Err(_) => Err(ReadError::UnexpectedEof),
                }
            },
        }
    }
}

/// Reads the items in strict declaration order, reconstructing the stored
/// field values; `Let` and `Unused` bytes are consumed but not stored.
/// Fails with `UnexpectedEof` exactly when the input ends before the items
/// do.
pub fn read_items(cur: &mut Cursor, items: &Vec<Item>) -> (r: Result<Vec<Value>, ReadError>)
    requires
        old(cur).wf(),
        items_wf(items@),
    ensures
        final(cur).wf(),
        final(cur).data@ == old(cur).data@,
        match r {
            Ok(vals) => dec_items(items@, old(cur).data@, old(cur).pos as int) matches Some(st)
                && vals_view(vals@) == st.vals && final(cur).pos == st.end,
            Err(e) => e == ReadError::UnexpectedEof && dec_items(
                items@,
                old(cur).data@,
                old(cur).pos as int,
            ) is None,
        },
{
    let ghost data0 = old(cur).data@;
    let ghost pos0 = old(cur).pos as int;
    let mut vals: Vec<Value> = Vec::new();
    let mut env: Vec<u32> = Vec::new();
    let mut k: usize = 0;
    assert(vals_view(vals@) =~= Seq::<ValueModel>::empty());
    while k < items.len()
        invariant
            cur.wf(),
            data0 == old(cur).data@,
            pos0 == old(cur).pos as int,
            cur.data@ == data0,
            items_wf(items@),
            k <= items@.len(),
            env@.len() == k as int,
            dec_prefix(items@, data0, pos0, k as int) matches Some(st) && st.vals == vals_view(
                vals@,
            ) && st.env == env@ && st.end == cur.pos,
        decreases items@.len() - k,
    {
        let ghost st = dec_prefix(items@, data0, pos0, k as int)->Some_0;
        let ghost ki = k as int;
        let item = items[k];
        match item {
            Item::Field(t) => {
                proof {
                    assert(crate::desc::item_wf(items@[ki], ki));
                }
                match Value::read_with(cur, t, &env) {
                    Ok(v) => {
                        let entry: u32 = match &v {
                            Value::U8(x) => *x as u32,
                            Value::U16(x) => *x as u32,
                            Value::U32(x) => *x,
                            Value::Bytes(b) => {
                                proof {
                                    assert(b@.len() <= u32::MAX);
                                }
                                b.len() as u32
                            },
                            Value::List(_, es) => {
                                proof {
                                    assert(es@.len() <= u32::MAX);
                                }
                                es.len() as u32
                            },
                        };
                        assert(entry == contribution(v@));
                        assert(vals_view(vals@).push(v@) =~= vals_view(vals@.push(v)));
                        vals.push(v);
                        env.push(entry);
                    },
                    Err(_) => {
                        proof {
                            lemma_dec_prefix_none(items@, data0, pos0, ki + 1, items@.len() as int);
                        }
                        return Err(ReadError::UnexpectedEof);
                    },
                }
            },
            Item::Let(w, _) => {
                match w {
                    IntWidth::W8 => {
                        match cur.read_u8() {
                            Ok(b) => {
                                env.push(b as u32);
                            },
                            Err(_) => {
                                proof {
                                    lemma_dec_prefix_none(items@, data0, pos0, ki + 1, items@.len() as int);
                                }
                                return Err(ReadError::UnexpectedEof);
                            },
                        }
                    },
                    IntWidth::W16 => {
                        match cur.read_u16() {
                            Ok(v) => {
                                env.push(v as u32);
                            },
                            Err(_) => {
                                proof {
                                    lemma_dec_prefix_none(items@, data0, pos0, ki + 1, items@.len() as int);
                                }
                                return Err(ReadError::UnexpectedEof);
                            },
                        }
                    },
                    IntWidth::W32 => {
                        match cur.read_u32() {
                            Ok(v) => {
                                env.push(v);
                            },
                            Err(_) => {
                                proof {
                                    lemma_dec_prefix_none(items@, data0, pos0, ki + 1, items@.len() as int);
                                }
                                return Err(ReadError::UnexpectedEof);
                            },
                        }
                    },
                }
            },
            Item::Unused(Unused::Unit) => {
                match cur.advance(1) {
                    Ok(_) => {
                        env.push(0);
                    },
                    Err(_) => {
                        proof {
                            lemma_dec_prefix_none(items@, data0, pos0, ki + 1, items@.len() as int);
                        }
                        return Err(ReadError::UnexpectedEof);
                    },
                }
            },
            Item::Unused(Unused::Array(src)) => {
                assert(crate::desc::item_wf(items@[ki], ki));
                let n = eval_source_exec(&src, &env);
                match cur.advance(n as usize) {
                    Ok(_) => {
                        env.push(0);
                    },
                    Err(_) => {
                        proof {
                            lemma_dec_prefix_none(items@, data0, pos0, ki + 1, items@.len() as int);
                        }
                        return Err(ReadError::UnexpectedEof);
                    },
                }
            },
        }
        k = k + 1;
    }
    Ok(vals)
}

} // verus!
