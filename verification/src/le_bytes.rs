//! Unsigned integers as little-endian bytes.

use vstd::prelude::*;

verus! {

/// How many numbers fit in `width` bytes.
pub open spec fn pow256(width: nat) -> nat
    decreases width,
{
    if width == 0 {
        1
    } else {
        256 * pow256((width - 1) as nat)
    }
}

/// The `width` low bytes of a number, the lowest first.
pub open spec fn le_bytes(n: nat, width: nat) -> Seq<u8>
    decreases width,
{
    if width == 0 {
        Seq::empty()
    } else {
        seq![(n % 256) as u8] + le_bytes(n / 256, (width - 1) as nat)
    }
}

/// The number that bytes write, the lowest first.
pub open spec fn le_value(bytes: Seq<u8>) -> nat
    decreases bytes.len(),
{
    if bytes.len() == 0 {
        0
    } else {
        bytes[0] as nat + 256 * le_value(bytes.skip(1))
    }
}

/// A number of `width` bytes is what its bytes write.
pub proof fn law_le_round_trip(n: nat, width: nat)
    requires
        n < pow256(width),
    ensures
        le_bytes(n, width).len() == width,
        le_value(le_bytes(n, width)) == n,
    decreases width,
{
    if width > 0 {
        law_le_round_trip(n / 256, (width - 1) as nat);
        let bytes = le_bytes(n, width);
        assert(bytes.skip(1) =~= le_bytes(n / 256, (width - 1) as nat));
    }
}

/// The number of bytes is the width.
pub proof fn lemma_le_bytes_len(n: nat, width: nat)
    ensures
        le_bytes(n, width).len() == width,
    decreases width,
{
    if width > 0 {
        lemma_le_bytes_len(n / 256, (width - 1) as nat);
    }
}

/// What bytes write is below the limit of their width.
pub proof fn lemma_le_value_bound(bytes: Seq<u8>)
    ensures
        le_value(bytes) < pow256(bytes.len()),
    decreases bytes.len(),
{
    if bytes.len() > 0 {
        lemma_le_value_bound(bytes.skip(1));
    }
}

/// The limits of the widths in use.
pub proof fn lemma_pow256()
    ensures
        pow256(2) == 0x1_0000,
        pow256(4) == 0x1_0000_0000,
        pow256(8) == 0x1_0000_0000_0000_0000,
{
    reveal_with_fuel(pow256, 9);
}

/// Appends the `width` low bytes of a number.
pub fn push_le(out: &mut Vec<u8>, n: u64, width: usize)
    ensures
        final(out)@ == old(out)@ + le_bytes(n as nat, width as nat),
{
    let ghost start = out@;
    let mut rest: u64 = n;
    let mut i: usize = 0;
    assert(start + le_bytes(n as nat, width as nat) =~= out@ + le_bytes(rest as nat, width as nat));
    while i < width
        invariant
            i <= width,
            start + le_bytes(n as nat, width as nat) == out@ + le_bytes(
                rest as nat,
                (width - i) as nat,
            ),
        decreases width - i,
    {
        let ghost before = out@;
        let ghost was = rest;
        out.push((rest % 256) as u8);
        rest = rest / 256;
        i += 1;
        assert(before + le_bytes(was as nat, (width - i + 1) as nat) =~= out@ + le_bytes(
            rest as nat,
            (width - i) as nat,
        ));
    }
    assert(out@ + le_bytes(rest as nat, 0) =~= out@);
}

/// The number that `width` bytes write, from `at` on.
pub fn read_le(bytes: &[u8], at: usize, width: usize) -> (n: u64)
    requires
        at + width <= bytes.len(),
        width <= 8,
    ensures
        n == le_value(bytes@.subrange(at as int, at + width)),
        n < pow256(width as nat),
{
    let ghost all = bytes@.subrange(at as int, at + width);
    let mut n: u64 = 0;
    let mut i: usize = width;
    assert(all.skip(width as int) =~= Seq::<u8>::empty());
    while i > 0
        invariant
            i <= width <= 8,
            at + width <= bytes.len(),
            all == bytes@.subrange(at as int, at + width),
            n == le_value(all.skip(i as int)),
        decreases i,
    {
        i -= 1;
        let b: u8 = bytes[at + i];
        proof {
            assert(all.skip(i as int).skip(1) =~= all.skip(i + 1));
            assert(all.skip(i as int)[0] == b);
            lemma_le_value_bound(all.skip(i as int));
            lemma_pow256();
            lemma_pow256_grows((width - i) as nat, 8);
        }
        n = n * 256 + b as u64;
    }
    assert(all.skip(0) =~= all);
    proof {
        lemma_le_value_bound(all);
    }
    n
}

/// More bytes hold more numbers.
proof fn lemma_pow256_grows(a: nat, b: nat)
    requires
        a <= b,
    ensures
        pow256(a) <= pow256(b),
    decreases b,
{
    if a < b {
        lemma_pow256_grows(a, (b - 1) as nat);
    }
}

} // verus!
