//! What holds of the codec: decoding undoes encoding, and a buffer that can
//! be decoded is the encoding of what it holds.

use vstd::prelude::*;
use vstd::utf8::{
    decode_utf8, decode_utf8_encode_utf8, encode_utf8, encode_utf8_decode_utf8,
    encode_utf8_valid_utf8, valid_utf8,
};
use crate::abi::{
    bytes_tail, decode_field, decode_prefix, decode_text_spec, decoding, encoding, fits, head,
    heads, kind_ok, matches_schema, padding, tail, tails, uint_limit, zeros, FieldKind, ValueView,
};
use crate::word::{
    be_value, lemma_be_bytes_len, lemma_bytes_of_value, lemma_pow256_grows, lemma_pow256_values,
    lemma_value_of_bytes, pow256, word,
};

verus! {

/// A word has 32 bytes.
pub proof fn lemma_word_len(n: nat)
    ensures
        word(n).len() == 32,
{
    lemma_be_bytes_len(n, 32);
}

/// A number below `2` to the power 64 is read back from its word.
pub proof fn lemma_word_value(n: nat)
    requires
        n <= u64::MAX,
    ensures
        be_value(word(n)) == n,
{
    lemma_pow256_values();
    lemma_pow256_grows(8, 32);
    lemma_value_of_bytes(n, 32);
}

/// The head words of `k` values are `32 * k` bytes.
pub proof fn lemma_heads_len(vals: Seq<ValueView>, total: nat)
    ensures
        heads(vals, total).len() == 32 * vals.len(),
    decreases vals.len(),
{
    if vals.len() > 0 {
        lemma_heads_len(vals.drop_last(), total);
        lemma_word_len((32 * total + tails(vals.drop_last()).len()) as nat);
        match vals.last() {
            ValueView::Uint(n) => lemma_word_len(n as nat),
            ValueView::Text(_) => {},
        }
    }
}

/// The tail of bytes is a word, the bytes and the padding.
pub proof fn lemma_bytes_tail_len(data: Seq<u8>)
    ensures
        bytes_tail(data).len() == 32 + data.len() + padding(data.len()),
{
    lemma_word_len(data.len());
}

/// The head words of the first values are the first head words.
pub proof fn lemma_heads_prefix(vals: Seq<ValueView>, total: nat, k: int)
    requires
        0 <= k <= vals.len(),
    ensures
        heads(vals, total).len() == 32 * vals.len(),
        heads(vals, total).subrange(0, 32 * k) == heads(vals.take(k), total),
    decreases vals.len(),
{
    lemma_heads_len(vals, total);
    if k == vals.len() {
        assert(vals.take(k) =~= vals);
        assert(heads(vals, total).subrange(0, 32 * k) =~= heads(vals, total));
    } else {
        let front = vals.drop_last();
        lemma_heads_prefix(front, total, k);
        assert(front.take(k) =~= vals.take(k));
        assert(heads(vals, total).subrange(0, 32 * k) =~= heads(front, total).subrange(
            0,
            32 * k,
        ));
    }
}

/// The tails of the first values are the first tails.
pub proof fn lemma_tails_prefix(vals: Seq<ValueView>, k: int)
    requires
        0 <= k <= vals.len(),
    ensures
        tails(vals.take(k)).len() <= tails(vals).len(),
        tails(vals).subrange(0, tails(vals.take(k)).len() as int) == tails(vals.take(k)),
    decreases vals.len(),
{
    if k == vals.len() {
        assert(vals.take(k) =~= vals);
        assert(tails(vals).subrange(0, tails(vals).len() as int) =~= tails(vals));
    } else {
        let front = vals.drop_last();
        lemma_tails_prefix(front, k);
        assert(front.take(k) =~= vals.take(k));
        let cut = tails(vals.take(k)).len() as int;
        assert(tails(vals).subrange(0, cut) =~= tails(front).subrange(0, cut));
    }
}

/// The head word and the tail of the value at `k` stand where the values
/// before it end.
pub proof fn lemma_field_place(vals: Seq<ValueView>, k: int)
    requires
        0 <= k < vals.len(),
    ensures
        tails(vals.take(k + 1)) == tails(vals.take(k)) + tail(vals[k]),
        tails(vals.take(k + 1)).len() <= tails(vals).len(),
        encoding(vals).len() == 32 * vals.len() + tails(vals).len(),
        encoding(vals).subrange(32 * k, 32 * k + 32) == head(
            vals[k],
            (32 * vals.len() + tails(vals.take(k)).len()) as nat,
        ),
        encoding(vals).subrange(
            32 * (vals.len() as int) + (tails(vals.take(k)).len() as int),
            32 * (vals.len() as int) + (tails(vals.take(k + 1)).len() as int),
        ) == tail(vals[k]),
{
    let n = vals.len() as int;
    let upto = vals.take(k + 1);
    assert(upto.drop_last() =~= vals.take(k));
    assert(upto.last() == vals[k]);
    lemma_heads_prefix(vals, n as nat, k + 1);
    lemma_heads_len(vals.take(k), n as nat);
    lemma_heads_len(upto, n as nat);
    lemma_tails_prefix(vals, k + 1);
    lemma_tails_prefix(vals, k);
    let h = heads(vals, n as nat);
    let t = tails(vals);
    let word_k = head(vals[k], (32 * n + tails(vals.take(k)).len()) as nat);
    assert(heads(upto, n as nat) == heads(vals.take(k), n as nat) + word_k);
    assert(encoding(vals).subrange(32 * k, 32 * k + 32) =~= h.subrange(0, 32 * (k + 1)).subrange(
        32 * k,
        32 * k + 32,
    ));
    assert(heads(upto, n as nat).subrange(32 * k, 32 * k + 32) =~= word_k);
    let a = tails(vals.take(k)).len() as int;
    let b = tails(upto).len() as int;
    assert(encoding(vals).subrange(32 * n + a, 32 * n + b) =~= t.subrange(0, b).subrange(a, b));
    assert(tails(upto).subrange(a, b) =~= tail(vals[k]));
}

/// The first `k` fields of the encoding of a tuple decode to its first `k`
/// values.
pub proof fn lemma_decode_prefix_of_encoding(
    vals: Seq<ValueView>,
    schema: Seq<FieldKind>,
    k: nat,
)
    requires
        matches_schema(vals, schema),
        encoding(vals).len() <= usize::MAX,
        k <= vals.len(),
    ensures
        decode_prefix(encoding(vals), schema, k) == Some(
            (
                vals.take(k as int),
                32 * (vals.len() as int) + (tails(vals.take(k as int)).len() as int),
            ),
        ),
    decreases k,
{
    let n = vals.len() as int;
    let bytes = encoding(vals);
    if k == 0 {
        assert(vals.take(0) =~= Seq::<ValueView>::empty());
    } else {
        let j = (k - 1) as int;
        lemma_decode_prefix_of_encoding(vals, schema, j as nat);
        lemma_field_place(vals, j);
        let tail_at: int = 32 * n + tails(vals.take(j)).len();
        let next: int = 32 * n + tails(vals.take(j + 1)).len();
        let v = vals[j];
        assert(fits(v, schema[j]));
        assert(vals.take(j).push(v) =~= vals.take(j + 1));
        match v {
            ValueView::Uint(x) => {
                lemma_word_value(x as nat);
                assert(decode_field(bytes, schema[j], 32 * j, tail_at) == Some((v, tail_at)));
                assert(tails(vals.take(j + 1)) =~= tails(vals.take(j)));
            },
            ValueView::Text(s) => {
                let data = encode_utf8(s);
                lemma_bytes_tail_len(data);
                lemma_word_len(data.len());
                lemma_word_value(tail_at as nat);
                lemma_word_value(data.len());
                encode_utf8_valid_utf8(s);
                encode_utf8_decode_utf8(s);
                let whole = bytes.subrange(tail_at, next);
                assert(whole == bytes_tail(data));
                let len = data.len() as int;
                assert(bytes.subrange(tail_at, tail_at + 32) =~= whole.subrange(0, 32));
                assert(whole.subrange(0, 32) =~= word(data.len()));
                assert(bytes.subrange(tail_at + 32, tail_at + 32 + len) =~= whole.subrange(
                    32,
                    32 + len,
                ));
                assert(whole.subrange(32, 32 + len) =~= data);
                assert(bytes.subrange(tail_at + 32 + len, next) =~= whole.subrange(
                    32 + len,
                    whole.len() as int,
                ));
                assert(whole.subrange(32 + len, whole.len() as int) =~= zeros(
                    padding(data.len()),
                ));
                assert(decode_text_spec(bytes, tail_at) == Some((s, next)));
                assert(decode_field(bytes, schema[j], 32 * j, tail_at) == Some((v, next)));
            },
        }
    }
}

/// Decoding undoes encoding: a tuple of values of the given field types is
/// read back from its encoding. The encoding must be a buffer that a
/// machine can hold.
pub proof fn lemma_decode_encode(vals: Seq<ValueView>, schema: Seq<FieldKind>)
    requires
        matches_schema(vals, schema),
        encoding(vals).len() <= usize::MAX,
    ensures
        decoding(encoding(vals), schema) == Some(vals),
{
    lemma_decode_prefix_of_encoding(vals, schema, vals.len());
    lemma_heads_len(vals, vals.len());
    assert(vals.take(vals.len() as int) =~= vals);
}

/// What the first `k` fields read from a buffer say of the buffer: its
/// first head words and its first tails are those of the values read.
pub proof fn lemma_prefix_is_encoding(bytes: Seq<u8>, schema: Seq<FieldKind>, k: nat)
    requires
        k <= schema.len(),
        32 * schema.len() <= bytes.len(),
        decode_prefix(bytes, schema, k) is Some,
    ensures
        ({
            let (vals, tail_at) = decode_prefix(bytes, schema, k)->0;
            &&& vals.len() == k
            &&& matches_schema(vals, schema.take(k as int))
            &&& tail_at == 32 * schema.len() + tails(vals).len()
            &&& tail_at <= bytes.len()
            &&& bytes.subrange(0, 32 * (k as int)) == heads(vals, schema.len())
            &&& bytes.subrange(32 * (schema.len() as int), tail_at) == tails(vals)
        }),
    decreases k,
{
    let n = schema.len();
    if k == 0 {
        assert(bytes.subrange(0, 0) =~= heads(Seq::empty(), n));
        assert(bytes.subrange(32 * (n as int), 32 * (n as int)) =~= tails(Seq::empty()));
    } else {
        let j = (k - 1) as int;
        lemma_prefix_is_encoding(bytes, schema, j as nat);
        let (front, tail_at) = decode_prefix(bytes, schema, j as nat)->0;
        let (v, next) = decode_field(bytes, schema[j], 32 * j, tail_at)->0;
        let vals = front.push(v);
        assert(vals.drop_last() =~= front);
        assert(vals.last() == v);
        let head_word = bytes.subrange(32 * j, 32 * j + 32);
        lemma_bytes_of_value(head_word);
        lemma_pow256_values();
        match schema[j] {
            FieldKind::Uint(bits) => {
                lemma_pow256_grows((bits / 8) as nat, 8);
                assert(head(v, tail_at as nat) == head_word);
                assert(tails(vals) =~= tails(front));
            },
            FieldKind::Text => {
                let len_word = bytes.subrange(tail_at, tail_at + 32);
                lemma_bytes_of_value(len_word);
                let len = be_value(len_word) as int;
                let data = bytes.subrange(tail_at + 32, tail_at + 32 + len);
                decode_utf8_encode_utf8(data);
                assert(head(v, tail_at as nat) == head_word);
                assert(tail(v) =~= bytes.subrange(tail_at, next)) by {
                    assert(bytes.subrange(tail_at, next) =~= len_word + data + bytes.subrange(
                        tail_at + 32 + len,
                        next,
                    ));
                }
                assert(bytes.subrange(32 * (n as int), next) =~= tails(front) + tail(v));
            },
        }
        assert(bytes.subrange(0, 32 * (k as int)) =~= bytes.subrange(0, 32 * j) + head_word);
        assert forall|i: int| 0 <= i < vals.len() implies fits(
            #[trigger] vals[i],
            schema.take(k as int)[i],
        ) by {
            if i < j {
                assert(vals[i] == front[i]);
                assert(fits(front[i], schema.take(j)[i]));
            }
        }
    }
}

/// A buffer that can be decoded is the encoding of the values it holds,
/// and the values are of the field types asked for.
pub proof fn lemma_encode_decode(bytes: Seq<u8>, schema: Seq<FieldKind>)
    requires
        decoding(bytes, schema) is Some,
    ensures
        matches_schema(decoding(bytes, schema)->0, schema),
        encoding(decoding(bytes, schema)->0) == bytes,
{
    let n = schema.len() as int;
    lemma_prefix_is_encoding(bytes, schema, n as nat);
    let vals = decoding(bytes, schema)->0;
    assert(schema.take(n) =~= schema);
    assert(encoding(vals) =~= bytes.subrange(0, 32 * n) + bytes.subrange(
        32 * n,
        bytes.len() as int,
    ));
    assert(bytes =~= bytes.subrange(0, 32 * n) + bytes.subrange(32 * n, bytes.len() as int));
}

/// A buffer holds at most one tuple of given field types, and a tuple has
/// one encoding: decoding succeeds on exactly the encodings of the tuples of
/// those field types.
pub proof fn lemma_decoding_is_exact(
    bytes: Seq<u8>,
    schema: Seq<FieldKind>,
    vals: Seq<ValueView>,
)
    requires
        bytes.len() <= usize::MAX,
    ensures
        decoding(bytes, schema) == Some(vals) <==> matches_schema(vals, schema) && encoding(vals)
            == bytes,
{
    if decoding(bytes, schema) == Some(vals) {
        lemma_encode_decode(bytes, schema);
    }
    if matches_schema(vals, schema) && encoding(vals) == bytes {
        lemma_decode_encode(vals, schema);
    }
}

} // verus!
