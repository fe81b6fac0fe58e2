//! The codec for tuples of texts and unsigned numbers in the contract ABI
//! layout.
//!
//! A tuple of `n` fields is `n` head words followed by the tails of its
//! texts, in the order of the fields. The head word of a number is the
//! number. The head word of a text is the place of its tail, counted in
//! bytes from the start of the tuple. The tail of a text is a word with the
//! number of its UTF-8 bytes, then those bytes, then zeros up to the next
//! multiple of 32.
//!
//! Decoding accepts exactly the buffers that encoding produces: tails stand
//! in the order of their fields without gaps, padding is zero, a number
//! fits the width of its field, and nothing follows the last tail.

use vstd::prelude::*;
use vstd::slice::{slice_subrange, slice_to_vec};
use vstd::string::*;
use vstd::utf8::{decode_utf8, encode_utf8, valid_utf8};
use crate::word::{
    be_value, lemma_pow256_grows, lemma_pow256_values, pow256, push_word, read_word, word,
};

verus! {

/// The type of one field of a tuple.
#[derive(Clone, Copy, Debug, PartialEq, Eq, Structural)]
pub enum FieldKind {
    /// A text (`string`).
    Text,
    /// An unsigned number of the given width in bits (`uint8` to `uint64`):
    /// a multiple of 8 from 8 to 64.
    Uint(u8),
}

/// The value of one field of a tuple.
#[derive(Debug, PartialEq, Eq)]
pub enum Value {
    Text(String),
    Uint(u64),
}

/// The value of one field as a mathematical value.
pub enum ValueView {
    Text(Seq<char>),
    Uint(u64),
}

impl View for Value {
    type V = ValueView;

    open spec fn view(&self) -> ValueView {
        match self {
            Value::Text(s) => ValueView::Text(s@),
            Value::Uint(n) => ValueView::Uint(*n),
        }
    }
}

/// The values of a tuple as mathematical values.
pub open spec fn views(values: Seq<Value>) -> Seq<ValueView> {
    values.map_values(|v: Value| v@)
}

/// Whether a field type is one that this codec knows.
pub open spec fn kind_ok(kind: FieldKind) -> bool {
    match kind {
        FieldKind::Text => true,
        FieldKind::Uint(bits) => 8 <= bits <= 64 && bits % 8 == 0,
    }
}

/// The first number that does not fit an unsigned field of the given width.
pub open spec fn uint_limit(bits: u8) -> nat {
    pow256((bits / 8) as nat)
}

/// Whether a value is one of a field type.
pub open spec fn fits(v: ValueView, kind: FieldKind) -> bool {
    match (v, kind) {
        (ValueView::Text(_), FieldKind::Text) => true,
        (ValueView::Uint(n), FieldKind::Uint(bits)) => kind_ok(kind) && (n as nat) < uint_limit(
            bits,
        ),
        _ => false,
    }
}

/// Whether the values are those of a tuple of the given field types.
pub open spec fn matches_schema(vals: Seq<ValueView>, schema: Seq<FieldKind>) -> bool {
    &&& vals.len() == schema.len()
    &&& forall|i: int| 0 <= i < vals.len() ==> fits(#[trigger] vals[i], schema[i])
}

/// How many zeros follow `len` bytes up to the next multiple of 32.
pub open spec fn padding(len: nat) -> nat {
    ((32 - len % 32) % 32) as nat
}

/// `n` zero bytes.
pub open spec fn zeros(n: nat) -> Seq<u8> {
    Seq::new(n, |i: int| 0u8)
}

/// The tail of bytes: their count as a word, the bytes, and the padding.
pub open spec fn bytes_tail(data: Seq<u8>) -> Seq<u8> {
    word(data.len()) + data + zeros(padding(data.len()))
}

/// The tail of a value. A number has none.
pub open spec fn tail(v: ValueView) -> Seq<u8> {
    match v {
        ValueView::Text(s) => bytes_tail(encode_utf8(s)),
        ValueView::Uint(_) => Seq::empty(),
    }
}

/// The head word of a value whose tail, if it has one, starts at `offset`.
pub open spec fn head(v: ValueView, offset: nat) -> Seq<u8> {
    match v {
        ValueView::Text(_) => word(offset),
        ValueView::Uint(n) => word(n as nat),
    }
}

/// The tails of values, one after the other.
pub open spec fn tails(vals: Seq<ValueView>) -> Seq<u8>
    decreases vals.len(),
{
    if vals.len() == 0 {
        Seq::empty()
    } else {
        tails(vals.drop_last()) + tail(vals.last())
    }
}

/// The head words of the first fields of a tuple of `total` fields.
pub open spec fn heads(vals: Seq<ValueView>, total: nat) -> Seq<u8>
    decreases vals.len(),
{
    if vals.len() == 0 {
        Seq::empty()
    } else {
        heads(vals.drop_last(), total) + head(
            vals.last(),
            32 * total + tails(vals.drop_last()).len(),
        )
    }
}

/// The encoding of a tuple.
pub open spec fn encoding(vals: Seq<ValueView>) -> Seq<u8> {
    heads(vals, vals.len()) + tails(vals)
}

/// The text whose tail starts at `tail_at`, and the place after the tail.
pub open spec fn decode_text_spec(bytes: Seq<u8>, tail_at: int) -> Option<(Seq<char>, int)> {
    if tail_at + 32 > bytes.len() {
        None
    } else {
        let len = be_value(bytes.subrange(tail_at, tail_at + 32)) as int;
        let start = tail_at + 32;
        let end = start + len + padding(len as nat);
        if end > bytes.len() {
            None
        } else if bytes.subrange(start + len, end) != zeros(padding(len as nat)) {
            None
        } else if !valid_utf8(bytes.subrange(start, start + len)) {
            None
        } else {
            Some((decode_utf8(bytes.subrange(start, start + len)), end))
        }
    }
}

/// One field read from a buffer: its head word stands at `head_at`, and its
/// tail, if it has one, must start at `tail_at`. Gives the value and the
/// place where the next tail must start.
pub open spec fn decode_field(bytes: Seq<u8>, kind: FieldKind, head_at: int, tail_at: int)
    -> Option<(ValueView, int)> {
    let w = be_value(bytes.subrange(head_at, head_at + 32));
    match kind {
        FieldKind::Uint(bits) => {
            if kind_ok(kind) && w < uint_limit(bits) {
                Some((ValueView::Uint(w as u64), tail_at))
            } else {
                None
            }
        },
        FieldKind::Text => {
            if w != tail_at {
                None
            } else {
                match decode_text_spec(bytes, tail_at) {
                    None => None,
                    Some((s, end)) => Some((ValueView::Text(s), end)),
                }
            }
        },
    }
}

/// The first `k` fields read from a buffer: their values and the place
/// where the next tail must start.
pub open spec fn decode_prefix(bytes: Seq<u8>, schema: Seq<FieldKind>, k: nat) -> Option<
    (Seq<ValueView>, int),
>
    decreases k,
{
    if k == 0 {
        Some((Seq::empty(), 32 * schema.len() as int))
    } else {
        match decode_prefix(bytes, schema, (k - 1) as nat) {
            None => None,
            Some((vals, tail_at)) => match decode_field(
                bytes,
                schema[k - 1],
                32 * (k - 1),
                tail_at,
            ) {
                None => None,
                Some((v, next)) => Some((vals.push(v), next)),
            },
        }
    }
}

/// The tuple that a buffer holds, if it holds one of the given field types.
pub open spec fn decoding(bytes: Seq<u8>, schema: Seq<FieldKind>) -> Option<Seq<ValueView>> {
    if bytes.len() < 32 * schema.len() {
        None
    } else {
        match decode_prefix(bytes, schema, schema.len()) {
            None => None,
            Some((vals, end)) => if end == bytes.len() {
                Some(vals)
            } else {
                None
            },
        }
    }
}

/// Once a field cannot be read, no longer prefix can.
pub proof fn lemma_prefix_fails(bytes: Seq<u8>, schema: Seq<FieldKind>, j: nat, k: nat)
    requires
        j <= k,
        decode_prefix(bytes, schema, j) is None,
    ensures
        decode_prefix(bytes, schema, k) is None,
    decreases k,
{
    if j < k {
        lemma_prefix_fails(bytes, schema, j, (k - 1) as nat);
    }
}

/// `String::from_utf8` of the standard library: the text that bytes spell
/// in UTF-8. It gives a text exactly when the bytes are valid UTF-8, and
/// the text then has those bytes.
#[verifier::external_body]
fn string_from_utf8(bytes: Vec<u8>) -> (r: Option<String>)
    ensures
        r is Some <==> valid_utf8(bytes@),
        r matches Some(s) ==> s@ == decode_utf8(bytes@),
{
    match String::from_utf8(bytes) {
        Ok(s) => Some(s),
        Err(_) => None,
    }
}

/// Appends bytes to a buffer.
fn push_bytes(out: &mut Vec<u8>, data: &[u8])
    ensures
        final(out)@ == old(out)@ + data@,
{
    let mut i: usize = 0;
    while i < data.len()
        invariant
            i <= data@.len(),
            out@ == old(out)@ + data@.take(i as int),
        decreases data@.len() - i,
    {
        out.push(data[i]);
        assert(data@.take(i + 1) =~= data@.take(i as int).push(data@[i as int]));
        i = i + 1;
    }
    assert(data@.take(data@.len() as int) =~= data@);
}

/// Appends the tail of bytes to a buffer.
fn push_tail(out: &mut Vec<u8>, data: &[u8])
    ensures
        final(out)@ == old(out)@ + bytes_tail(data@),
{
    let len = data.len();
    push_word(out, len as u128);
    push_bytes(out, data);
    let pad = (32 - len % 32) % 32;
    let ghost before = out@;
    let mut i: usize = 0;
    while i < pad
        invariant
            i <= pad,
            out@ == before + zeros(i as nat),
        decreases pad - i,
    {
        out.push(0u8);
        assert(zeros((i + 1) as nat) =~= zeros(i as nat).push(0u8));
        i = i + 1;
    }
    assert(out@ =~= old(out)@ + bytes_tail(data@));
}

/// Encodes a tuple.
pub fn encode(values: &[Value]) -> (out: Vec<u8>)
    ensures
        out@ == encoding(views(values@)),
{
    let n = values.len();
    let ghost vals = views(values@);
    let mut out: Vec<u8> = Vec::new();
    let mut rest: Vec<u8> = Vec::new();
    let mut i: usize = 0;
    while i < n
        invariant
            i <= n,
            n == values@.len(),
            vals == views(values@),
            out@ == heads(vals.take(i as int), n as nat),
            rest@ == tails(vals.take(i as int)),
        decreases n - i,
    {
        proof {
            assert(vals.take(i + 1).drop_last() =~= vals.take(i as int));
            assert(vals.take(i + 1).last() == values@[i as int]@);
        }
        match &values[i] {
            Value::Uint(v) => {
                push_word(&mut out, *v as u128);
                assert(rest@ =~= tails(vals.take(i + 1)));
            },
            Value::Text(s) => {
                let offset: u128 = 32 * (n as u128) + rest.len() as u128;
                push_word(&mut out, offset);
                push_tail(&mut rest, s.as_str().as_bytes());
            },
        }
        i = i + 1;
    }
    assert(vals.take(n as int) =~= vals);
    out.append(&mut rest);
    out
}

/// Whether a field type is one that this codec knows.
pub fn check_kind(kind: FieldKind) -> (r: bool)
    ensures
        r == kind_ok(kind),
{
    match kind {
        FieldKind::Text => true,
        FieldKind::Uint(bits) => 8 <= bits && bits <= 64 && bits % 8 == 0,
    }
}

/// Whether a number fits an unsigned field of the given width.
fn fits_width(n: u64, bits: u8) -> (r: bool)
    requires
        kind_ok(FieldKind::Uint(bits)),
    ensures
        r == ((n as nat) < uint_limit(bits)),
{
    let steps = bits / 8;
    let mut limit: u128 = 1;
    let mut j: u8 = 0;
    while j < steps
        invariant
            j <= steps <= 8,
            limit == pow256(j as nat),
            limit <= 0x1_0000_0000_0000_0000,
        decreases steps - j,
    {
        proof {
            lemma_pow256_values();
            lemma_pow256_grows((j + 1) as nat, 8);
        }
        limit = limit * 256;
        j = j + 1;
    }
    (n as u128) < limit
}

/// Reads the text whose tail starts at `tail_at`.
fn decode_text(bytes: &[u8], tail_at: usize) -> (r: Option<(String, usize)>)
    requires
        tail_at <= bytes@.len(),
    ensures
        match r {
            Some((s, end)) => {
                &&& end <= bytes@.len()
                &&& decode_text_spec(bytes@, tail_at as int) == Some((s@, end as int))
            },
            None => decode_text_spec(bytes@, tail_at as int) is None,
        },
{
    let total = bytes.len();
    if total - tail_at < 32 {
        return None;
    }
    let start = tail_at + 32;
    let len = match read_word(bytes, tail_at) {
        None => {
            return None;
        },
        Some(len) => len,
    };
    if len > (total - start) as u64 {
        return None;
    }
    let len = len as usize;
    let pad = (32 - len % 32) % 32;
    if total - start - len < pad {
        return None;
    }
    let end = start + len + pad;
    let mut j: usize = start + len;
    while j < end
        invariant
            start + len <= j <= end <= total,
            total == bytes@.len(),
            end == start + len + pad,
            pad == padding(len as nat),
            start == tail_at + 32,
            len == be_value(bytes@.subrange(tail_at as int, tail_at + 32)),
            forall|i: int| start + len <= i < j ==> bytes@[i] == 0u8,
        decreases end - j,
    {
        if bytes[j] != 0 {
            proof {
                let at = j - (start + len);
                assert(pad == padding(len as nat));
                assert(bytes@.subrange(start + len, end as int)[at] != 0u8);
                assert(zeros(padding(len as nat))[at] == 0u8);
            }
            return None;
        }
        j = j + 1;
    }
    assert(bytes@.subrange(start + len, end as int) =~= zeros(padding(len as nat)));
    let data = slice_to_vec(slice_subrange(bytes, start, start + len));
    match string_from_utf8(data) {
        None => None,
        Some(s) => Some((s, end)),
    }
}

/// Decodes a tuple of the given field types.
pub fn decode(bytes: &[u8], schema: &[FieldKind]) -> (r: Option<Vec<Value>>)
    ensures
        match r {
            Some(values) => decoding(bytes@, schema@) == Some(views(values@)),
            None => decoding(bytes@, schema@) is None,
        },
{
    let n = schema.len();
    let total = bytes.len();
    if n > total / 32 {
        return None;
    }
    let mut values: Vec<Value> = Vec::new();
    let mut tail_at: usize = 32 * n;
    let mut k: usize = 0;
    while k < n
        invariant
            k <= n,
            n == schema@.len(),
            total == bytes@.len(),
            32 * n <= total,
            tail_at <= total,
            values@.len() == k,
            decode_prefix(bytes@, schema@, k as nat) == Some((views(values@), tail_at as int)),
        decreases n - k,
    {
        let head_at = 32 * k;
        let kind = schema[k];
        let number = read_word(bytes, head_at);
        let ghost before = views(values@);
        let field: Option<(Value, usize)> = match kind {
            FieldKind::Uint(bits) => {
                if !check_kind(kind) {
                    None
                } else {
                    proof {
                        lemma_pow256_values();
                        lemma_pow256_grows((bits / 8) as nat, 8);
                    }
                    match number {
                        None => None,
                        Some(v) => if fits_width(v, bits) {
                            Some((Value::Uint(v), tail_at))
                        } else {
                            None
                        },
                    }
                }
            },
            FieldKind::Text => {
                match number {
                    None => None,
                    Some(v) => if v != tail_at as u64 {
                        None
                    } else {
                        match decode_text(bytes, tail_at) {
                            None => None,
                            Some((s, end)) => Some((Value::Text(s), end)),
                        }
                    },
                }
            },
        };
        match field {
            None => {
                proof {
                    assert(decode_field(bytes@, kind, head_at as int, tail_at as int) is None);
                    assert(decode_prefix(bytes@, schema@, (k + 1) as nat) is None);
                    lemma_prefix_fails(bytes@, schema@, (k + 1) as nat, n as nat);
                }
                return None;
            },
            Some((value, next)) => {
                proof {
                    assert(decode_field(bytes@, kind, head_at as int, tail_at as int) == Some(
                        (value@, next as int),
                    ));
                }
                values.push(value);
                proof {
                    assert(views(values@) =~= before.push(value@));
                }
                tail_at = next;
            },
        }
        k = k + 1;
    }
    if tail_at != total {
        return None;
    }
    Some(values)
}

/// Whether the values are those of a tuple of the given field types.
pub fn conforms(values: &[Value], schema: &[FieldKind]) -> (r: bool)
    ensures
        r == matches_schema(views(values@), schema@),
{
    if values.len() != schema.len() {
        return false;
    }
    let mut i: usize = 0;
    while i < values.len()
        invariant
            i <= values@.len(),
            values@.len() == schema@.len(),
            forall|j: int| 0 <= j < i ==> fits(#[trigger] views(values@)[j], schema@[j]),
        decreases values@.len() - i,
    {
        let kind = schema[i];
        let ok = match (&values[i], kind) {
            (Value::Text(_), FieldKind::Text) => true,
            (Value::Uint(n), FieldKind::Uint(bits)) => check_kind(kind) && fits_width(*n, bits),
            _ => false,
        };
        if !ok {
            assert(!fits(views(values@)[i as int], schema@[i as int]));
            return false;
        }
        i = i + 1;
    }
    true
}

} // verus!
