//! Running indices and the slots they fall on.
//!
//! Both queues count up forever, wrapping at the width of a word, and mask the
//! count to find a slot. The number of slots is a power of two, so the mask is
//! one less, and any stretch of indices no longer than the queue falls on
//! different slots.

use vstd::prelude::*;

verus! {

/// `mask` turns a running index into one of `entries` slots.
pub open spec fn is_mask(entries: u32, mask: u32) -> bool {
    &&& entries >= 1
    &&& mask == entries - 1
    &&& entries & mask == 0
}

/// How far `to` is ahead of `from`, going up and wrapping.
pub open spec fn ahead(from: u32, to: u32) -> int {
    if to >= from {
        to - from
    } else {
        to - from + 0x1_0000_0000
    }
}

/// The index `n` after `from`.
pub open spec fn after(from: u32, n: int) -> u32 {
    ((from + n) % 0x1_0000_0000) as u32
}

/// A masked index is one of the slots.
pub proof fn lemma_slot_in_range(entries: u32, mask: u32, index: u32)
    requires
        is_mask(entries, mask),
    ensures
        index & mask < entries,
{
    assert(index & mask <= mask) by (bit_vector);
}

/// A power of two that fits a word is at most half the words there are.
pub proof fn lemma_entries_bound(entries: u32, mask: u32)
    requires
        is_mask(entries, mask),
    ensures
        entries <= 0x8000_0000,
{
    assert(entries <= 0x8000_0000) by (bit_vector)
        requires
            entries >= 1,
            mask == (entries - 1) as u32,
            entries & mask == 0,
    ;
}

/// Shifting by nothing, and by one.
pub proof fn lemma_doubled(masked: u32)
    ensures
        masked << 0u32 == masked,
        masked < 0x8000_0000 ==> masked << 1u32 == 2 * masked,
{
    assert(masked << 0u32 == masked && (masked < 0x8000_0000 ==> masked << 1u32 == 2 * masked))
        by (bit_vector);
}

/// Indices less than a whole queue apart fall on different slots.
pub proof fn lemma_slots_differ(entries: u32, mask: u32, i: u32, j: u32)
    requires
        is_mask(entries, mask),
        i != j,
        ahead(i, j) < entries,
    ensures
        i & mask != j & mask,
{
    let apart = ahead(i, j) as u32;
    assert((i + apart) as u32 == (i + apart) % 0x1_0000_0000) by (bit_vector);
    assert(i & mask != j & mask) by (bit_vector)
        requires
            entries >= 1,
            mask == (entries - 1) as u32,
            entries & mask == 0,
            j == (i + apart) as u32,
            apart != 0,
            apart < entries,
    ;
}

/// Counting up from an index and measuring how far that got.
pub proof fn lemma_ahead_of_after(from: u32, n: int)
    requires
        0 <= n < 0x1_0000_0000,
    ensures
        ahead(from, after(from, n)) == n,
        ahead(from, from) == 0,
        after(from, 0) == from,
{
}

/// The index reached is the one that far ahead.
pub proof fn lemma_after_ahead(from: u32, to: u32)
    ensures
        after(from, ahead(from, to)) == to,
        0 <= ahead(from, to) < 0x1_0000_0000,
{
}

/// Counting in two steps.
pub proof fn lemma_after_after(from: u32, n: int, m: int)
    requires
        n >= 0,
        m >= 0,
    ensures
        after(after(from, n), m) == after(from, n + m),
{
}

/// Half of a queue is a queue, unless it is a single slot.
proof fn lemma_halved(entries: u32, mask: u32)
    requires
        is_mask(entries, mask),
        entries > 1,
    ensures
        entries % 2 == 0,
        is_mask(entries / 2, (entries / 2 - 1) as u32),
{
    assert(entries % 2 == 0 && (entries / 2) & ((entries / 2 - 1) as u32) == 0) by (bit_vector)
        requires
            entries > 1,
            mask == (entries - 1) as u32,
            entries & mask == 0,
    ;
}

/// The power of two that a number of slots is.
proof fn lemma_exponent(entries: u32, mask: u32) -> (n: nat)
    requires
        is_mask(entries, mask),
    ensures
        n < 32,
        entries == vstd::arithmetic::power2::pow2(n),
    decreases entries,
{
    vstd::arithmetic::power2::lemma2_to64();
    if entries == 1 {
        0
    } else {
        lemma_halved(entries, mask);
        let n = lemma_exponent((entries / 2) as u32, (entries / 2 - 1) as u32);
        vstd::arithmetic::power2::lemma_pow2_unfold(n + 1);
        if n == 31 {
            vstd::arithmetic::power2::lemma_pow2_unfold(32);
        }
        n + 1
    }
}

/// There are as many slots as some power of two, and the mask is one less; and every
/// power of two that fits will do.
pub proof fn lemma_masks_are_of_powers_of_two(entries: u32, mask: u32)
    ensures
        is_mask(entries, mask) <==> exists|n: nat|
            n < 32 && entries == #[trigger] vstd::arithmetic::power2::pow2(n) && mask == vstd::arithmetic::power2::pow2(n) - 1,
{
    if is_mask(entries, mask) {
        let n = lemma_exponent(entries, mask);
        assert(entries == vstd::arithmetic::power2::pow2(n));
    }
    if exists|n: nat| n < 32 && entries == #[trigger] vstd::arithmetic::power2::pow2(n) && mask == vstd::arithmetic::power2::pow2(n) - 1 {
        let n = choose|n: nat| n < 32 && entries == #[trigger] vstd::arithmetic::power2::pow2(n) && mask == vstd::arithmetic::power2::pow2(n) - 1;
        vstd::arithmetic::power2::lemma_pow2_pos(n);
        vstd::bits::lemma_u32_low_bits_mask_is_mod(entries, n);
        assert(entries % entries == 0);
    }
}

/// Slots are taken in turn, over and over: an index falls on the slot that is its
/// remainder by the number of slots, and goes on doing so where the count wraps.
pub proof fn lemma_slots_are_taken_in_turn(entries: u32, mask: u32, from: u32, n: int)
    requires
        is_mask(entries, mask),
        0 <= n,
    ensures
        from & mask == from % entries,
        after(from, n) & mask == (from + n) % (entries as int),
{
    let k = lemma_exponent(entries, mask);
    vstd::bits::lemma_u32_low_bits_mask_is_mod(from, k);
    vstd::bits::lemma_u32_low_bits_mask_is_mod(after(from, n), k);
    vstd::arithmetic::power2::lemma_pow2_adds(k, (32 - k) as nat);
    vstd::arithmetic::power2::lemma2_to64();
    vstd::arithmetic::power2::lemma_pow2_pos((32 - k) as nat);
    vstd::arithmetic::div_mod::lemma_mod_mod(from + n, entries as int, vstd::arithmetic::power2::pow2((32 - k) as nat) as int);
}

/// Counting goes up by one and starts over at the end of a word, and measuring takes
/// the way up.
pub proof fn lemma_counting_goes_up(from: u32, to: u32)
    ensures
        after(from, 1) == from.wrapping_add(1),
        from < u32::MAX ==> after(from, 1) == from + 1,
        after(u32::MAX, 1) == 0,
        from <= to ==> ahead(from, to) == to - from,
        ahead(from, to) == to.wrapping_sub(from),
{
}

} // verus!
