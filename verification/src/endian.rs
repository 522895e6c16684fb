//! Integers as sequences of octets.
//!
//! An unsigned integer of `n` octets is a number below `radix(n)`, written
//! in base 256. In big-endian order the most significant digit comes
//! first, in little-endian order it comes last. A signed integer of `n`
//! octets is stored as its two's complement: the unsigned number that
//! differs from it by a multiple of `radix(n)`.

use vstd::prelude::*;

verus! {

/// The number of values `n` octets can take: 256 to the power of `n`.
pub open spec fn radix(n: nat) -> nat
    decreases n,
{
    if n == 0 {
        1
    } else {
        256 * radix((n - 1) as nat)
    }
}

/// The number that `bytes` is the big-endian form of.
pub open spec fn be_value(bytes: Seq<u8>) -> nat
    decreases bytes.len(),
{
    if bytes.len() == 0 {
        0
    } else {
        256 * be_value(bytes.drop_last()) + bytes.last() as nat
    }
}

/// The number that `bytes` is the little-endian form of.
pub open spec fn le_value(bytes: Seq<u8>) -> nat
    decreases bytes.len(),
{
    if bytes.len() == 0 {
        0
    } else {
        bytes.first() as nat + 256 * le_value(bytes.drop_first())
    }
}

/// The big-endian form of `value` in `width` octets.
///
/// Digits of `value` beyond `width` are dropped.
pub open spec fn be_bytes(value: nat, width: nat) -> Seq<u8>
    decreases width,
{
    if width == 0 {
        Seq::empty()
    } else {
        be_bytes(value / 256, (width - 1) as nat).push((value % 256) as u8)
    }
}

/// The little-endian form of `value` in `width` octets.
///
/// Digits of `value` beyond `width` are dropped.
pub open spec fn le_bytes(value: nat, width: nat) -> Seq<u8>
    decreases width,
{
    if width == 0 {
        Seq::empty()
    } else {
        seq![(value % 256) as u8] + le_bytes(value / 256, (width - 1) as nat)
    }
}

/// The signed integer whose two's complement in `width` octets is `value`.
pub open spec fn signed_value(value: nat, width: nat) -> int {
    if 2 * value < radix(width) {
        value as int
    } else {
        value - radix(width)
    }
}

/// The two's complement of `value` in `width` octets.
pub open spec fn twos_complement(value: int, width: nat) -> nat {
    if value >= 0 {
        value as nat
    } else {
        (value + radix(width)) as nat
    }
}

/// One more octet multiplies the number of values by 256, so `radix` never
/// falls as the width grows.
pub proof fn lemma_radix_grows(a: nat, b: nat)
    requires
        a <= b,
    ensures
        1 <= radix(a) <= radix(b),
    decreases b,
{
    if b == 0 {
    } else if a == b {
        lemma_radix_grows(0, (b - 1) as nat);
    } else {
        lemma_radix_grows(a, (b - 1) as nat);
    }
}

/// The `radix` of the widths of Rust's integer types.
pub proof fn lemma_radix_values()
    ensures
        radix(0) == 1,
        radix(1) == 0x100,
        radix(2) == 0x1_0000,
        radix(4) == 0x1_0000_0000,
        radix(8) == 0x1_0000_0000_0000_0000,
        radix(16) == 0x1_0000_0000_0000_0000_0000_0000_0000_0000,
{
    reveal_with_fuel(radix, 17);
}

/// A big-endian number of `n` octets is below `radix(n)`.
pub proof fn lemma_be_value_bound(bytes: Seq<u8>)
    ensures
        be_value(bytes) < radix(bytes.len()),
    decreases bytes.len(),
{
    if bytes.len() > 0 {
        lemma_be_value_bound(bytes.drop_last());
    }
}

/// A little-endian number of `n` octets is below `radix(n)`.
pub proof fn lemma_le_value_bound(bytes: Seq<u8>)
    ensures
        le_value(bytes) < radix(bytes.len()),
    decreases bytes.len(),
{
    if bytes.len() > 0 {
        lemma_le_value_bound(bytes.drop_first());
    }
}

/// Writing a number in big-endian order and reading it back gives the
/// number again, as long as it fits the width.
pub proof fn lemma_be_round_trip(value: nat, width: nat)
    requires
        value < radix(width),
    ensures
        be_bytes(value, width).len() == width,
        be_value(be_bytes(value, width)) == value,
    decreases width,
{
    if width > 0 {
        let rest = be_bytes(value / 256, (width - 1) as nat);
        lemma_be_round_trip(value / 256, (width - 1) as nat);
        assert(be_bytes(value, width).drop_last() =~= rest);
    }
}

/// Writing a number in little-endian order and reading it back gives the
/// number again, as long as it fits the width.
pub proof fn lemma_le_round_trip(value: nat, width: nat)
    requires
        value < radix(width),
    ensures
        le_bytes(value, width).len() == width,
        le_value(le_bytes(value, width)) == value,
    decreases width,
{
    if width > 0 {
        let rest = le_bytes(value / 256, (width - 1) as nat);
        lemma_le_round_trip(value / 256, (width - 1) as nat);
        assert(le_bytes(value, width).drop_first() =~= rest);
    }
}

/// Reading octets as a big-endian number and writing that number back
/// gives the octets again.
pub proof fn lemma_be_bytes_of_value(bytes: Seq<u8>)
    ensures
        be_bytes(be_value(bytes), bytes.len()) == bytes,
    decreases bytes.len(),
{
    if bytes.len() > 0 {
        lemma_be_bytes_of_value(bytes.drop_last());
    }
}

/// Reading octets as a little-endian number and writing that number back
/// gives the octets again.
pub proof fn lemma_le_bytes_of_value(bytes: Seq<u8>)
    ensures
        le_bytes(le_value(bytes), bytes.len()) == bytes,
    decreases bytes.len(),
{
    if bytes.len() > 0 {
        lemma_le_bytes_of_value(bytes.drop_first());
    }
}

/// A signed integer that fits `width` octets is what its two's complement
/// stands for, and the two's complement fits the width.
pub proof fn lemma_signed_round_trip(value: int, width: nat)
    requires
        width > 0,
        -(radix(width) as int) <= 2 * value < radix(width),
    ensures
        twos_complement(value, width) < radix(width),
        signed_value(twos_complement(value, width), width) == value,
{
}

/// An unsigned number that fits `width` octets is the two's complement of
/// the signed integer it stands for.
pub proof fn lemma_twos_complement_of_signed(value: nat, width: nat)
    requires
        value < radix(width),
    ensures
        twos_complement(signed_value(value, width), width) == value,
        -(radix(width) as int) <= 2 * signed_value(value, width) < radix(width),
{
}

/// Writing a signed integer that fits the width as its two's complement in
/// big-endian order, and reading that back, gives the integer again.
pub proof fn lemma_signed_be_round_trip(value: int, width: nat)
    requires
        width > 0,
        -(radix(width) as int) <= 2 * value < radix(width),
    ensures
        be_bytes(twos_complement(value, width), width).len() == width,
        signed_value(be_value(be_bytes(twos_complement(value, width), width)), width) == value,
{
    lemma_be_round_trip(twos_complement(value, width), width);
}

/// Writing a signed integer that fits the width as its two's complement in
/// little-endian order, and reading that back, gives the integer again.
pub proof fn lemma_signed_le_round_trip(value: int, width: nat)
    requires
        width > 0,
        -(radix(width) as int) <= 2 * value < radix(width),
    ensures
        le_bytes(twos_complement(value, width), width).len() == width,
        signed_value(le_value(le_bytes(twos_complement(value, width), width)), width) == value,
{
    lemma_le_round_trip(twos_complement(value, width), width);
}

/// Computes the number that up to sixteen octets are the big-endian form of.
pub fn be_u128(bytes: &[u8]) -> (res: u128)
    requires
        bytes@.len() <= 16,
    ensures
        res as nat == be_value(bytes@),
{
    let mut res: u128 = 0;
    let mut i: usize = 0;
    while i < bytes.len()
        invariant
            i <= bytes@.len() <= 16,
            res as nat == be_value(bytes@.take(i as int)),
        decreases bytes@.len() - i,
    {
        proof {
            let head = bytes@.take(i as int);
            let next = bytes@.take(i as int + 1);
            assert(next.drop_last() =~= head);
            lemma_be_value_bound(head);
            lemma_radix_grows((i + 1) as nat, 16);
            lemma_radix_values();
        }
        res = res * 256 + bytes[i] as u128;
        i += 1;
    }
    proof {
        assert(bytes@.take(i as int) =~= bytes@);
    }
    res
}

/// Computes the number that up to sixteen octets are the little-endian form
/// of.
pub fn le_u128(bytes: &[u8]) -> (res: u128)
    requires
        bytes@.len() <= 16,
    ensures
        res as nat == le_value(bytes@),
{
    let mut res: u128 = 0;
    let mut i: usize = bytes.len();
    while i > 0
        invariant
            i <= bytes@.len() <= 16,
            res as nat == le_value(bytes@.skip(i as int)),
        decreases i,
    {
        proof {
            let tail = bytes@.skip(i as int);
            let next = bytes@.skip(i as int - 1);
            assert(next.drop_first() =~= tail);
            lemma_le_value_bound(tail);
            lemma_radix_grows(tail.len(), 15);
            lemma_radix_values();
        }
        i -= 1;
        res = res * 256 + bytes[i] as u128;
    }
    proof {
        assert(bytes@.skip(0) =~= bytes@);
    }
    res
}

} // verus!
