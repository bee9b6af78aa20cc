//! The byte-level vocabulary of the wire format: overwriting a run of bytes
//! inside a buffer, and the little-endian image of an integer.

use vstd::prelude::*;
use vstd::arithmetic::div_mod::{lemma_breakdown, lemma_div_denominator};

verus! {

/// `bytes` with the run `data` written over it from offset `at` on. Every
/// byte outside `[at, at + data.len())` is the one `bytes` had.
pub open spec fn overlay(bytes: Seq<u8>, at: int, data: Seq<u8>) -> Seq<u8>
    recommends
        0 <= at,
        at + data.len() <= bytes.len(),
{
    Seq::new(
        bytes.len(),
        |i: int|
            if at <= i < at + data.len() {
                data[i - at]
            } else {
                bytes[i]
            },
    )
}

/// The number of values that `width` bytes can tell apart: 256 to the power
/// `width`.
pub open spec fn radix(width: nat) -> nat
    decreases width,
{
    if width == 0 {
        1
    } else {
        256 * radix((width - 1) as nat)
    }
}

/// The little-endian image of `value` in `width` bytes: least significant
/// byte first. Digits beyond `width` bytes are dropped.
pub open spec fn le_bytes(value: nat, width: nat) -> Seq<u8>
    decreases width,
{
    if width == 0 {
        Seq::empty()
    } else {
        seq![(value % 256) as u8] + le_bytes(value / 256, (width - 1) as nat)
    }
}

/// The number whose little-endian image is `bytes`.
pub open spec fn le_value(bytes: Seq<u8>) -> nat
    decreases bytes.len(),
{
    if bytes.len() == 0 {
        0
    } else {
        bytes[0] as nat + 256 * le_value(bytes.skip(1))
    }
}

/// The unsigned number that stands for `value` in two's complement of
/// `width` bytes.
pub open spec fn twos_complement(value: int, width: nat) -> nat {
    if value >= 0 {
        value as nat
    } else {
        (value + radix(width)) as nat
    }
}

/// `radix` at the widths of the protocol's integers, written out.
pub proof fn lemma_radix_values()
    ensures
        radix(0) == 1,
        radix(1) == 0x100,
        radix(2) == 0x1_0000,
        radix(4) == 0x1_0000_0000,
        radix(8) == 0x1_0000_0000_0000_0000,
        radix(16) == 0x1_0000_0000_0000_0000_0000_0000_0000_0000,
{
    reveal_with_fuel(radix, 17);
}

/// Up to eight bytes tell apart no more values than a `u64` has.
pub proof fn lemma_radix_up_to_eight(width: nat)
    requires
        width <= 8,
    ensures
        radix(width) <= 0x1_0000_0000_0000_0000,
{
    reveal_with_fuel(radix, 9);
}

/// A single byte is its own image.
pub proof fn lemma_le_bytes_one(value: u8)
    ensures
        le_bytes(value as nat, 1) == seq![value],
{
    reveal_with_fuel(le_bytes, 2);
    assert(le_bytes(value as nat, 1) =~= seq![value]);
}

/// A little-endian image has exactly the width asked for.
pub proof fn lemma_le_bytes_len(value: nat, width: nat)
    ensures
        le_bytes(value, width).len() == width,
    decreases width,
{
    if width > 0 {
        lemma_le_bytes_len(value / 256, (width - 1) as nat);
    }
}

/// The image of a number is the image of its `low` lowest digits, followed
/// by the image of the digits above them.
pub proof fn lemma_le_bytes_split(value: nat, low: nat, high: nat)
    ensures
        le_bytes(value, low + high) == le_bytes(value % radix(low), low) + le_bytes(
            value / radix(low),
            high,
        ),
    decreases low,
{
    if low == 0 {
        assert(le_bytes(value % 1, 0) + le_bytes(value / 1, high) =~= le_bytes(value, high));
    } else {
        let below = radix((low - 1) as nat);
        let kept = value % radix(low);
        lemma_radix_positive((low - 1) as nat);
        lemma_breakdown(value as int, 256, below as int);
        lemma_div_denominator(value as int, 256, below as int);
        assert(kept == 256 * ((value / 256) % below) + value % 256);
        assert(kept % 256 == value % 256);
        assert(kept / 256 == (value / 256) % below);
        assert(value / radix(low) == (value / 256) / below);
        lemma_le_bytes_split(value / 256, (low - 1) as nat, high);
        assert(le_bytes(value, low + high) =~= le_bytes(kept, low) + le_bytes(
            value / radix(low),
            high,
        ));
    }
}

/// At least one value can be told apart, whatever the width.
pub proof fn lemma_radix_positive(width: nat)
    ensures
        radix(width) > 0,
    decreases width,
{
    if width > 0 {
        lemma_radix_positive((width - 1) as nat);
    }
}

/// The number read from `n` bytes is below `radix(n)`.
pub proof fn lemma_le_value_bound(bytes: Seq<u8>)
    ensures
        le_value(bytes) < radix(bytes.len()),
    decreases bytes.len(),
{
    if bytes.len() > 0 {
        lemma_le_value_bound(bytes.skip(1));
    }
}

/// Reading back the image of a number that fits the width gives the number.
pub proof fn lemma_le_value_of_bytes(value: nat, width: nat)
    requires
        value < radix(width),
    ensures
        le_value(le_bytes(value, width)) == value,
    decreases width,
{
    if width > 0 {
        let rest = le_bytes(value / 256, (width - 1) as nat);
        let image = le_bytes(value, width);
        lemma_le_value_of_bytes(value / 256, (width - 1) as nat);
        assert(image.skip(1) =~= rest);
        assert(image[0] == (value % 256) as u8);
    }
}

/// Writing out the number read from some bytes gives those bytes again.
pub proof fn lemma_le_bytes_of_value(bytes: Seq<u8>)
    ensures
        le_bytes(le_value(bytes), bytes.len()) == bytes,
    decreases bytes.len(),
{
    if bytes.len() > 0 {
        let tail = bytes.skip(1);
        lemma_le_bytes_of_value(tail);
        let value = le_value(bytes);
        assert(value % 256 == bytes[0] as nat);
        assert(value / 256 == le_value(tail));
        assert(le_bytes(value, bytes.len()) =~= bytes);
    }
}

/// Two numbers that fit the width and have the same image are the same.
pub proof fn lemma_le_bytes_injective(a: nat, b: nat, width: nat)
    requires
        a < radix(width),
        b < radix(width),
        le_bytes(a, width) == le_bytes(b, width),
    ensures
        a == b,
{
    lemma_le_value_of_bytes(a, width);
    lemma_le_value_of_bytes(b, width);
}

} // verus!
