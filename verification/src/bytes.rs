//! Little-endian integers, as the stored records hold them.

use vstd::prelude::*;

verus! {

/// 256 to the power `n`.
pub open spec fn pow256(n: nat) -> nat
    decreases n,
{
    if n == 0 {
        1
    } else {
        256 * pow256((n - 1) as nat)
    }
}

/// The number that `bytes` spell, least significant byte first.
pub open spec fn le_value(bytes: Seq<u8>) -> nat
    decreases bytes.len(),
{
    if bytes.len() == 0 {
        0
    } else {
        bytes[0] as nat + 256 * le_value(bytes.skip(1))
    }
}

/// The `width` low bytes of `value`, least significant byte first.
pub open spec fn le_bytes(value: nat, width: nat) -> Seq<u8>
    decreases width,
{
    if width == 0 {
        Seq::empty()
    } else {
        seq![(value % 256) as u8] + le_bytes(value / 256, (width - 1) as nat)
    }
}

/// `le_bytes` gives exactly `width` bytes.
pub proof fn lemma_le_bytes_len(value: nat, width: nat)
    ensures
        le_bytes(value, width).len() == width,
    decreases width,
{
    if width > 0 {
        lemma_le_bytes_len(value / 256, (width - 1) as nat);
    }
}

/// What `n` bytes spell is below 256 to the `n`.
pub proof fn lemma_le_value_bound(bytes: Seq<u8>)
    ensures
        le_value(bytes) < pow256(bytes.len()),
    decreases bytes.len(),
{
    if bytes.len() > 0 {
        lemma_le_value_bound(bytes.skip(1));
    }
}

/// Reading back the bytes of a value that fits in them gives the value.
pub proof fn lemma_le_value_of_bytes(value: nat, width: nat)
    requires
        value < pow256(width),
    ensures
        le_value(le_bytes(value, width)) == value,
    decreases width,
{
    if width > 0 {
        let rest = le_bytes(value / 256, (width - 1) as nat);
        lemma_le_value_of_bytes(value / 256, (width - 1) as nat);
        assert(le_bytes(value, width).skip(1) =~= rest);
    }
}

/// Writing down what bytes spell, in as many bytes, gives the same bytes.
pub proof fn lemma_le_bytes_of_value(bytes: Seq<u8>)
    ensures
        le_bytes(le_value(bytes), bytes.len()) == bytes,
    decreases bytes.len(),
{
    if bytes.len() > 0 {
        lemma_le_bytes_of_value(bytes.skip(1));
        let v = le_value(bytes);
        assert(v % 256 == bytes[0] as nat);
        assert(v / 256 == le_value(bytes.skip(1)));
        assert(le_bytes(v, bytes.len()) =~= bytes);
    }
}

/// The powers of 256 that bound the integers of two, four and eight bytes.
pub proof fn lemma_pow256_values()
    ensures
        pow256(0) == 1,
        pow256(1) == 0x100,
        pow256(2) == 0x1_0000,
        pow256(4) == 0x1_0000_0000,
        pow256(8) == 0x1_0000_0000_0000_0000,
{
    reveal_with_fuel(pow256, 9);
}

/// The `width` low bytes of `value`, least significant byte first.
pub fn encode_le(value: u64, width: usize) -> (out: Vec<u8>)
    ensures
        out@ == le_bytes(value as nat, width as nat),
        out@.len() == width,
{
    let mut out: Vec<u8> = Vec::new();
    let mut rest: u64 = value;
    let mut i: usize = 0;
    while i < width
        invariant
            i <= width,
            out@.len() == i,
            out@ + le_bytes(rest as nat, (width - i) as nat) == le_bytes(value as nat, width as nat),
        decreases width - i,
    {
        let ghost before = out@;
        out.push((rest % 256) as u8);
        proof {
            let tail = le_bytes((rest / 256) as nat, (width - i - 1) as nat);
            assert(le_bytes(rest as nat, (width - i) as nat) == seq![(rest % 256) as u8] + tail);
            assert(out@ + tail =~= before + (seq![(rest % 256) as u8] + tail));
        }
        rest = rest / 256;
        i += 1;
    }
    proof {
        assert(out@ + Seq::<u8>::empty() =~= out@);
    }
    out
}

/// The number that at most eight bytes spell, least significant byte first.
pub fn decode_le(bytes: &[u8]) -> (value: u64)
    requires
        bytes@.len() <= 8,
    ensures
        value == le_value(bytes@),
{
    let mut value: u64 = 0;
    let mut i: usize = bytes.len();
    proof {
        assert(bytes@.skip(i as int) =~= Seq::<u8>::empty());
    }
    while i > 0
        invariant
            i <= bytes@.len() <= 8,
            value == le_value(bytes@.skip(i as int)),
        decreases i,
    {
        proof {
            let tail = bytes@.skip(i as int);
            let next = bytes@.skip(i - 1);
            assert(next.skip(1) =~= tail);
            assert(next[0] == bytes@[i - 1]);
            lemma_le_value_bound(next);
            lemma_pow256_bound(next.len());
        }
        i -= 1;
        value = value * 256 + bytes[i] as u64;
    }
    proof {
        assert(bytes@.skip(0) =~= bytes@);
    }
    value
}

/// Up to eight bytes spell a number that fits in 64 bits.
pub proof fn lemma_pow256_bound(n: nat)
    requires
        n <= 8,
    ensures
        pow256(n) <= 0x1_0000_0000_0000_0000,
{
    reveal_with_fuel(pow256, 9);
}

} // verus!
