//! Ordering of prices.
//!
//! A price is carried as the bit pattern of a double. Books sort prices by
//! the total order in which every NaN is equal to every other NaN and above
//! everything else, negative zero equals positive zero, and all other values
//! keep their numeric order. `order_key` maps a bit pattern to an unsigned
//! integer whose natural order is that order.
use vstd::prelude::*;

verus! {

/// The sign bit of a double.
pub const SIGN_BIT: u64 = 0x8000_0000_0000_0000;

/// Weight of the lowest exponent bit (two to the fifty-second).
pub const EXPONENT_UNIT: u64 = 0x10_0000_0000_0000;

/// All exponent bits set.
pub const EXPONENT_ALL_ONES: u64 = 0x7FF;

/// The eleven-bit exponent field of a bit pattern.
pub open spec fn exponent_field(bits: u64) -> int {
    (bits / EXPONENT_UNIT) as int % 0x800
}

/// The fifty-two-bit fraction field of a bit pattern.
pub open spec fn fraction_field(bits: u64) -> int {
    bits as int % EXPONENT_UNIT as int
}

/// The pattern encodes a NaN.
pub open spec fn is_nan_bits(bits: u64) -> bool {
    exponent_field(bits) == EXPONENT_ALL_ONES && fraction_field(bits) != 0
}

/// The pattern encodes positive or negative zero.
pub open spec fn is_zero_bits(bits: u64) -> bool {
    bits == 0 || bits == SIGN_BIT
}

/// Two patterns stand for the same price: both NaN, both zero, or equal.
pub open spec fn same_price(a: u64, b: u64) -> bool {
    ||| is_nan_bits(a) && is_nan_bits(b)
    ||| !is_nan_bits(a) && !is_nan_bits(b) && (a == b || (is_zero_bits(a) && is_zero_bits(b)))
}

/// The sort key of a price pattern.
pub open spec fn spec_order_key(bits: u64) -> u64 {
    if is_nan_bits(bits) {
        u64::MAX
    } else if bits == SIGN_BIT {
        SIGN_BIT
    } else if bits > SIGN_BIT {
        (u64::MAX - bits) as u64
    } else {
        (bits + SIGN_BIT) as u64
    }
}

/// Computes the sort key of a price pattern.
pub fn order_key(bits: u64) -> (key: u64)
    ensures
        key == spec_order_key(bits),
{
    let exponent = (bits / EXPONENT_UNIT) % 0x800;
    let fraction = bits % EXPONENT_UNIT;
    if exponent == EXPONENT_ALL_ONES && fraction != 0 {
        u64::MAX
    } else if bits == SIGN_BIT {
        SIGN_BIT
    } else if bits > SIGN_BIT {
        u64::MAX - bits
    } else {
        bits + SIGN_BIT
    }
}

/// Every pattern that is not a NaN lies at or below the pattern of an
/// infinity of its sign.
proof fn lemma_not_nan_bound(bits: u64)
    requires
        !is_nan_bits(bits),
    ensures
        bits < SIGN_BIT ==> bits <= 0x7FF0_0000_0000_0000,
        bits >= SIGN_BIT ==> bits <= 0xFFF0_0000_0000_0000,
{
    let q = bits / EXPONENT_UNIT;
    let r = bits % EXPONENT_UNIT;
    assert(bits == q * EXPONENT_UNIT + r);
    assert(q < 0x1000) by {
        assert(bits < 0x1000 * EXPONENT_UNIT);
    }
}

/// Two price patterns get the same key exactly when they stand for the
/// same price.
pub proof fn lemma_order_key_identifies_prices(a: u64, b: u64)
    ensures
        (spec_order_key(a) == spec_order_key(b)) <==> same_price(a, b),
{
    if !is_nan_bits(a) {
        lemma_not_nan_bound(a);
    }
    if !is_nan_bits(b) {
        lemma_not_nan_bound(b);
    }
}

/// Keys order prices: among patterns that are not NaN, a negative price
/// sorts below a non-negative one (negative zero counting as zero), two
/// non-negative patterns keep their bit order (which is their numeric
/// order), two negative patterns reverse it (a larger magnitude is a smaller
/// price); a NaN sorts above every other price and level with every NaN.
pub proof fn law_order_key_orders_prices(a: u64, b: u64)
    ensures
        !is_nan_bits(a) && !is_nan_bits(b) && a >= SIGN_BIT && b < SIGN_BIT
            && !(is_zero_bits(a) && is_zero_bits(b)) ==> spec_order_key(a) < spec_order_key(b),
        !is_nan_bits(a) && !is_nan_bits(b) && a < SIGN_BIT && b < SIGN_BIT ==> (spec_order_key(a)
            < spec_order_key(b) <==> a < b),
        !is_nan_bits(a) && !is_nan_bits(b) && a >= SIGN_BIT && b >= SIGN_BIT ==> (spec_order_key(a)
            < spec_order_key(b) <==> b < a),
        is_nan_bits(a) && !is_nan_bits(b) ==> spec_order_key(b) < spec_order_key(a),
        is_nan_bits(a) ==> spec_order_key(b) <= spec_order_key(a),
{
    if !is_nan_bits(a) {
        lemma_not_nan_bound(a);
    }
    if !is_nan_bits(b) {
        lemma_not_nan_bound(b);
    }
}

} // verus!
