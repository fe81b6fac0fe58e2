//! The 32-byte big-endian words that an ABI tuple is made of.

use vstd::prelude::*;

verus! {

/// The `len` lowest base-256 digits of `n`, highest first.
pub open spec fn be_bytes(n: nat, len: nat) -> Seq<u8>
    decreases len,
{
    if len == 0 {
        Seq::empty()
    } else {
        be_bytes(n / 256, (len - 1) as nat).push((n % 256) as u8)
    }
}

/// The number that bytes spell in base 256, highest digit first.
pub open spec fn be_value(b: Seq<u8>) -> nat
    decreases b.len(),
{
    if b.len() == 0 {
        0
    } else {
        be_value(b.drop_last()) * 256 + b.last() as nat
    }
}

/// The word of a number: its 32 bytes, highest first.
pub open spec fn word(n: nat) -> Seq<u8> {
    be_bytes(n, 32)
}

/// `256` to the power `k`.
pub open spec fn pow256(k: nat) -> nat
    decreases k,
{
    if k == 0 {
        1
    } else {
        256 * pow256((k - 1) as nat)
    }
}

/// `be_bytes` gives as many bytes as it is asked for.
pub proof fn lemma_be_bytes_len(n: nat, len: nat)
    ensures
        be_bytes(n, len).len() == len,
    decreases len,
{
    if len > 0 {
        lemma_be_bytes_len(n / 256, (len - 1) as nat);
    }
}

/// A number below `256` to the power `len` is read back from its `len`
/// bytes.
pub proof fn lemma_value_of_bytes(n: nat, len: nat)
    requires
        n < pow256(len),
    ensures
        be_value(be_bytes(n, len)) == n,
    decreases len,
{
    if len > 0 {
        let rest = be_bytes(n / 256, (len - 1) as nat);
        assert(be_bytes(n, len).drop_last() =~= rest);
        assert(n / 256 < pow256((len - 1) as nat)) by {
            if n / 256 >= pow256((len - 1) as nat) {
                assert(n >= 256 * pow256((len - 1) as nat));
            }
        }
        lemma_value_of_bytes(n / 256, (len - 1) as nat);
    }
}

/// Bytes are written back from the number they spell.
pub proof fn lemma_bytes_of_value(b: Seq<u8>)
    ensures
        be_bytes(be_value(b), b.len()) == b,
    decreases b.len(),
{
    if b.len() > 0 {
        let n = be_value(b);
        let front = be_value(b.drop_last());
        assert(n / 256 == front && n % 256 == b.last() as nat) by {
            assert(n == front * 256 + b.last() as nat);
        }
        lemma_bytes_of_value(b.drop_last());
        assert(be_bytes(n, b.len()) =~= b);
    }
}

/// `256` to the power 8 is `2` to the power 64, and the powers grow.
pub proof fn lemma_pow256_values()
    ensures
        pow256(0) == 1,
        pow256(1) == 0x100,
        pow256(2) == 0x1_0000,
        pow256(3) == 0x100_0000,
        pow256(4) == 0x1_0000_0000,
        pow256(5) == 0x100_0000_0000,
        pow256(6) == 0x1_0000_0000_0000,
        pow256(7) == 0x100_0000_0000_0000,
        pow256(8) == 0x1_0000_0000_0000_0000,
{
    reveal_with_fuel(pow256, 9);
}

/// The powers of 256 grow with the exponent.
pub proof fn lemma_pow256_grows(a: nat, b: nat)
    requires
        a <= b,
    ensures
        1 <= pow256(a) <= pow256(b),
    decreases b,
{
    if b > 0 {
        if a < b {
            lemma_pow256_grows(a, (b - 1) as nat);
        } else {
            lemma_pow256_grows((a - 1) as nat, (b - 1) as nat);
        }
    }
}

/// Appends the word of a number to a buffer.
pub fn push_word(out: &mut Vec<u8>, n: u128)
    ensures
        final(out)@ == old(out)@ + word(n as nat),
{
    let mut w: Vec<u8> = Vec::new();
    let mut k: usize = 0;
    while k < 32
        invariant
            k <= 32,
            w@.len() == k,
        decreases 32 - k,
    {
        w.push(0u8);
        k = k + 1;
    }
    let mut rest: u128 = n;
    let mut done: usize = 0;
    while done < 32
        invariant
            done <= 32,
            w@.len() == 32,
            word(n as nat) == be_bytes(rest as nat, (32 - done) as nat) + w@.subrange(
                32 - done,
                32,
            ),
        decreases 32 - done,
    {
        let at = 31 - done;
        let digit = (rest % 256) as u8;
        let ghost before = w@;
        w.set(at, digit);
        proof {
            let len = (32 - done) as nat;
            assert(be_bytes(rest as nat, len) == be_bytes(
                rest as nat / 256,
                (len - 1) as nat,
            ).push((rest as nat % 256) as u8));
            assert(w@.subrange(31 - done, 32) =~= seq![digit] + before.subrange(32 - done, 32));
            assert(be_bytes(rest as nat, len) + before.subrange(32 - done, 32) =~= be_bytes(
                rest as nat / 256,
                (len - 1) as nat,
            ) + w@.subrange(31 - done, 32));
        }
        rest = rest / 256;
        done = done + 1;
    }
    assert(w@.subrange(0, 32) =~= w@);
    assert(be_bytes(rest as nat, 0) + w@ =~= w@);
    out.append(&mut w);
}

/// Reads the word that starts at `at` as a number, where the number fits
/// 64 bits.
pub fn read_word(bytes: &[u8], at: usize) -> (r: Option<u64>)
    requires
        at + 32 <= bytes@.len(),
    ensures
        match r {
            Some(v) => be_value(bytes@.subrange(at as int, at + 32)) == v,
            None => be_value(bytes@.subrange(at as int, at + 32)) > u64::MAX,
        },
{
    let ghost w = bytes@.subrange(at as int, at + 32);
    let total = bytes.len();
    let mut acc: u64 = 0;
    let mut over = false;
    let mut k: usize = 0;
    while k < 32
        invariant
            k <= 32,
            at + 32 <= total,
            total == bytes@.len(),
            w == bytes@.subrange(at as int, at + 32),
            !over ==> be_value(w.take(k as int)) == acc,
            over ==> be_value(w.take(k as int)) > u64::MAX,
        decreases 32 - k,
    {
        let b = bytes[at + k];
        proof {
            assert(w.take(k + 1).drop_last() =~= w.take(k as int));
            assert(w.take(k + 1).last() == b);
        }
        if !over {
            let t: u128 = acc as u128 * 256 + b as u128;
            if t > u64::MAX as u128 {
                over = true;
            } else {
                acc = t as u64;
            }
        }
        k = k + 1;
    }
    assert(w.take(32) =~= w);
    if over {
        None
    } else {
        Some(acc)
    }
}

} // verus!
