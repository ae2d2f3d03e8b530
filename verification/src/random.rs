//! A linear congruential generator and draws from integer ranges. The
//! generator's state is handed in by the caller; every draw is a function of
//! that state.
use core::ops::Range;
use vstd::prelude::*;

verus! {

/// The state that the generator starts from.
pub const RNG_SEED: u64 = 0xDEADBEEF;

/// The multiplier of the generator.
pub const RNG_MULTIPLIER: u64 = 6364136223846793005;

/// The state that follows `state`: `state * RNG_MULTIPLIER + 1`, modulo 2^64.
pub open spec fn next_state(state: u64) -> u64 {
    ((state as int * RNG_MULTIPLIER as int + 1) % 0x1_0000_0000_0000_0000) as u64
}

/// The low 32 bits of `value`.
pub open spec fn low_u32(value: u64) -> int {
    value as int % 0x1_0000_0000
}

/// The low 32 bits of `value`, read as a signed number in two's complement.
pub open spec fn low_i32(value: u64) -> int {
    if low_u32(value) < 0x8000_0000 {
        low_u32(value)
    } else {
        low_u32(value) - 0x1_0000_0000
    }
}

/// `value`, read as a signed number in two's complement.
pub open spec fn as_i64(value: u64) -> int {
    if value < 0x8000_0000_0000_0000 {
        value as int
    } else {
        value as int - 0x1_0000_0000_0000_0000
    }
}

/// The remainder of `a` divided by `b` that has the sign of `a`.
pub open spec fn truncated_rem(a: int, b: int) -> int {
    let magnitude = if b < 0 {
        -b
    } else {
        b
    };
    if a >= 0 {
        a % magnitude
    } else {
        -((-a) % magnitude)
    }
}

/// What a draw from the range from `start` to `end` gives when the
/// generator yields `value`: `start`, plus the remainder of `value` divided by
/// the width of the range.
pub open spec fn sample(value: int, start: int, end: int) -> int {
    if end == start {
        start
    } else {
        start + truncated_rem(value, end - start)
    }
}

/// The state after a draw from a range: a draw from an empty range leaves
/// the generator where it was.
pub open spec fn state_after(state: u64, start: int, end: int) -> u64 {
    if end == start {
        state
    } else {
        next_state(state)
    }
}

/// Advances the generator and returns its new state.
pub fn pseudo_rand(state: &mut u64) -> (value: u64)
    ensures
        *final(state) == next_state(*old(state)),
        value == next_state(*old(state)),
{
    let product: u64 = state.wrapping_mul(RNG_MULTIPLIER);
    let next: u64 = product.wrapping_add(1);
    assert(next == next_state(*state)) by {
        let exact = *state as int * RNG_MULTIPLIER as int;
        assert(0 <= exact) by (nonlinear_arith)
            requires
                exact == *state as int * RNG_MULTIPLIER as int,
                0 <= *state as int,
                0 <= RNG_MULTIPLIER as int,
        ;
        vstd::arithmetic::div_mod::lemma_add_mod_noop(exact, 1, 0x1_0000_0000_0000_0000);
    }
    *state = next;
    next
}

/// Computes the remainder of `a` divided by `b` that has the sign of `a`.
fn rem_of(a: i128, b: i128) -> (r: i128)
    requires
        b != 0,
        -0x1_0000_0000_0000_0000 <= a <= 0x1_0000_0000_0000_0000,
        -0x1_0000_0000_0000_0000 <= b <= 0x1_0000_0000_0000_0000,
    ensures
        r == truncated_rem(a as int, b as int),
        -0x1_0000_0000_0000_0000 < r < 0x1_0000_0000_0000_0000,
{
    let magnitude: i128 = if b < 0 {
        -b
    } else {
        b
    };
    if a >= 0 {
        a % magnitude
    } else {
        -((-a) % magnitude)
    }
}

/// Draws a number from `range`. A draw from an empty range gives its
/// start and leaves the generator where it was.
pub fn pseudo_rand_in_range_i32(state: &mut u64, range: Range<i32>) -> (drawn: i32)
    requires
        i32::MIN <= range.end - range.start <= i32::MAX,
        i32::MIN <= sample(
            low_i32(next_state(*old(state))),
            range.start as int,
            range.end as int,
        ) <= i32::MAX,
    ensures
        *final(state) == state_after(*old(state), range.start as int, range.end as int),
        drawn == sample(low_i32(next_state(*old(state))), range.start as int, range.end as int),
{
    let len: i128 = range.end as i128 - range.start as i128;
    if len == 0 {
        return range.start;
    }
    let value: u64 = pseudo_rand(state);
    let low: u64 = value & 0xFFFF_FFFF;
    assert(low == value % 0x1_0000_0000) by (bit_vector)
        requires
            low == value & 0xFFFF_FFFF,
    ;
    let signed: i128 = if low < 0x8000_0000 {
        low as i128
    } else {
        low as i128 - 0x1_0000_0000
    };
    let drawn: i128 = rem_of(signed, len) + range.start as i128;
    drawn as i32
}

/// Draws a number from `range`. A draw from an empty range gives its
/// start and leaves the generator where it was.
pub fn pseudo_rand_in_range_u32(state: &mut u64, range: Range<u32>) -> (drawn: u32)
    requires
        range.start <= range.end,
    ensures
        *final(state) == state_after(*old(state), range.start as int, range.end as int),
        drawn == sample(low_u32(next_state(*old(state))), range.start as int, range.end as int),
        range.start < range.end ==> range.start <= drawn < range.end,
{
    let len: u32 = range.end - range.start;
    if len == 0 {
        return range.start;
    }
    let value: u64 = pseudo_rand(state);
    let low: u64 = value & 0xFFFF_FFFF;
    assert(low == value % 0x1_0000_0000) by (bit_vector)
        requires
            low == value & 0xFFFF_FFFF,
    ;
    let rand_val: u32 = low as u32;
    (rand_val % len) + range.start
}

/// Draws a number from `range`. A draw from an empty range gives its
/// start and leaves the generator where it was.
pub fn pseudo_rand_in_range_i64(state: &mut u64, range: Range<i64>) -> (drawn: i64)
    requires
        i64::MIN <= range.end - range.start <= i64::MAX,
        i64::MIN <= sample(
            as_i64(next_state(*old(state))),
            range.start as int,
            range.end as int,
        ) <= i64::MAX,
    ensures
        *final(state) == state_after(*old(state), range.start as int, range.end as int),
        drawn == sample(as_i64(next_state(*old(state))), range.start as int, range.end as int),
{
    let len: i128 = range.end as i128 - range.start as i128;
    if len == 0 {
        return range.start;
    }
    let value: u64 = pseudo_rand(state);
    let signed: i128 = if value < 0x8000_0000_0000_0000 {
        value as i128
    } else {
        value as i128 - 0x1_0000_0000_0000_0000
    };
    let drawn: i128 = rem_of(signed, len) + range.start as i128;
    drawn as i64
}

/// Draws a number from `range`. A draw from an empty range gives its
/// start and leaves the generator where it was.
pub fn pseudo_rand_in_range_u64(state: &mut u64, range: Range<u64>) -> (drawn: u64)
    requires
        range.start <= range.end,
    ensures
        *final(state) == state_after(*old(state), range.start as int, range.end as int),
        drawn == sample(next_state(*old(state)) as int, range.start as int, range.end as int),
        range.start < range.end ==> range.start <= drawn < range.end,
{
    let len: u64 = range.end - range.start;
    if len == 0 {
        return range.start;
    }
    let value: u64 = pseudo_rand(state);
    (value % len) + range.start
}

} // verus!
