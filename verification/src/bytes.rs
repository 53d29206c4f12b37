//! Byte-level building blocks: little-endian numbers, and what a write at a
//! position does to a buffer.

use vstd::prelude::*;

verus! {

/// 256 to the power of `n`.
pub open spec fn pow256(n: nat) -> nat
    decreases n,
{
    if n == 0 {
        1
    } else {
        256 * pow256((n - 1) as nat)
    }
}

/// The `width` low bytes of `value`, least significant first.
pub open spec fn le_bytes(value: nat, width: nat) -> Seq<u8>
    decreases width,
{
    if width == 0 {
        Seq::empty()
    } else {
        seq![(value % 256) as u8] + le_bytes(value / 256, (width - 1) as nat)
    }
}

/// The number that `bytes` spell, least significant byte first.
pub open spec fn le_value(bytes: Seq<u8>) -> nat
    decreases bytes.len(),
{
    if bytes.len() == 0 {
        0
    } else {
        bytes[0] as nat + 256 * le_value(bytes.drop_first())
    }
}

/// The unsigned number that stands for `value` in two's complement of `width` bytes.
pub open spec fn twos_complement(value: int, width: nat) -> nat {
    if value >= 0 {
        value as nat
    } else {
        (value + pow256(width)) as nat
    }
}

/// The signed number that `raw` stands for in two's complement of `width` bytes.
pub open spec fn from_twos_complement(raw: nat, width: nat) -> int {
    if 2 * raw < pow256(width) {
        raw as int
    } else {
        raw - pow256(width)
    }
}

/// `count` zero bytes.
pub open spec fn zeros(count: nat) -> Seq<u8> {
    Seq::new(count, |i: int| 0u8)
}

/// The buffer after `data` has been written at position `at`: the bytes
/// before `at` stay (a gap between the end and `at` is filled with zeros),
/// `data` replaces what stood from `at` on, and what stood behind it stays.
pub open spec fn written(buffer: Seq<u8>, at: nat, data: Seq<u8>) -> Seq<u8> {
    let before = if at <= buffer.len() {
        buffer.take(at as int)
    } else {
        buffer + zeros((at - buffer.len()) as nat)
    };
    let behind = if at + data.len() < buffer.len() {
        buffer.skip((at + data.len()) as int)
    } else {
        Seq::empty()
    };
    before + data + behind
}

/// From position `at` on, `bytes` holds `data` as far as `bytes` reaches.
pub open spec fn agrees(bytes: Seq<u8>, at: int, data: Seq<u8>) -> bool {
    forall|i: int| 0 <= i < data.len() && at + i < bytes.len() ==> bytes[at + i] == data[i]
}

/// The powers of 256 that are the ranges of the integer widths.
pub proof fn lemma_pow256_values()
    ensures
        pow256(0) == 1,
        pow256(1) == 0x100,
        pow256(2) == 0x1_0000,
        pow256(4) == 0x1_0000_0000,
        pow256(8) == 0x1_0000_0000_0000_0000,
        pow256(16) == 0x1_0000_0000_0000_0000_0000_0000_0000_0000,
{
    reveal_with_fuel(pow256, 17);
}

/// Powers of 256 are positive and grow with the exponent.
pub proof fn lemma_pow256_monotonic(small: nat, big: nat)
    requires
        small <= big,
    ensures
        0 < pow256(small) <= pow256(big),
    decreases big,
{
    if big == 0 {
    } else if small == big {
        lemma_pow256_monotonic((small - 1) as nat, (big - 1) as nat);
    } else {
        lemma_pow256_monotonic(small, (big - 1) as nat);
    }
}

/// A number written in `width` bytes is `width` bytes long.
pub proof fn lemma_le_bytes_len(value: nat, width: nat)
    ensures
        le_bytes(value, width).len() == width,
    decreases width,
{
    if width > 0 {
        lemma_le_bytes_len(value / 256, (width - 1) as nat);
    }
}

/// What bytes spell is below 256 to the power of their number.
pub proof fn lemma_le_value_bound(bytes: Seq<u8>)
    ensures
        le_value(bytes) < pow256(bytes.len()),
    decreases bytes.len(),
{
    if bytes.len() > 0 {
        lemma_le_value_bound(bytes.drop_first());
    }
}

/// A number that fits in `width` bytes is read back from them.
pub proof fn lemma_le_round_trip(value: nat, width: nat)
    requires
        value < pow256(width),
    ensures
        le_value(le_bytes(value, width)) == value,
        le_bytes(value, width).len() == width,
    decreases width,
{
    lemma_le_bytes_len(value, width);
    if width > 0 {
        let rest = le_bytes(value / 256, (width - 1) as nat);
        let all = le_bytes(value, width);
        assert(all.drop_first() =~= rest);
        lemma_le_round_trip(value / 256, (width - 1) as nat);
    }
}

/// One byte is written as itself.
pub proof fn lemma_le_bytes_byte(value: u8)
    ensures
        le_bytes(value as nat, 1) == seq![value],
{
    reveal_with_fuel(le_bytes, 2);
    assert(le_bytes(value as nat, 1) =~= seq![value]);
}

/// Two's complement of `width` bytes gives back every number of its range.
pub proof fn lemma_twos_complement_round_trip(value: int, width: nat)
    requires
        width >= 1,
        -(pow256(width) as int) <= 2 * value < pow256(width),
    ensures
        twos_complement(value, width) < pow256(width),
        from_twos_complement(twos_complement(value, width), width) == value,
{
}

/// Two writes, the second where the first ended, are one write of both.
pub proof fn lemma_written_twice(buffer: Seq<u8>, at: nat, first: Seq<u8>, second: Seq<u8>)
    ensures
        written(written(buffer, at, first), at + first.len(), second) == written(
            buffer,
            at,
            first + second,
        ),
{
    assert(written(written(buffer, at, first), at + first.len(), second) =~= written(
        buffer,
        at,
        first + second,
    ));
}

/// Where `bytes` holds two pieces in a row, it holds each of them.
pub proof fn lemma_agrees_split(bytes: Seq<u8>, at: int, first: Seq<u8>, second: Seq<u8>)
    requires
        agrees(bytes, at, first + second),
    ensures
        agrees(bytes, at, first),
        agrees(bytes, at + first.len(), second),
{
    let both = first + second;
    assert forall|i: int| 0 <= i < first.len() && at + i < bytes.len() implies bytes[at + i]
        == first[i] by {
        assert(both[i] == first[i]);
    }
    assert forall|i: int|
        0 <= i < second.len() && at + first.len() + i < bytes.len() implies bytes[at + first.len()
        + i] == second[i] by {
        assert(both[first.len() + i] == second[i]);
    }
}

/// Where `bytes` reaches to the end of `data`, it holds all of it.
pub proof fn lemma_agrees_whole(bytes: Seq<u8>, at: int, data: Seq<u8>)
    requires
        agrees(bytes, at, data),
        0 <= at,
        at + data.len() <= bytes.len(),
    ensures
        bytes.subrange(at, at + data.len()) == data,
{
    assert(bytes.subrange(at, at + data.len()) =~= data);
}

} // verus!
