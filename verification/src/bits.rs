use vstd::prelude::*;

verus! {

// Weights, learning rates and error values travel through this library as the
// 64-bit patterns of IEEE-754 binary64 (double-precision) values.  The spec
// functions below give those patterns the standard IEEE-754 comparison
// semantics: sign-magnitude ordering, the two zero patterns equal to each
// other, and any NaN pattern unordered (every comparison with it false).
// The numeric work itself (sums, products, the activation function) is done
// outside this crate on the decoded values; nothing here interprets a
// pattern beyond its sign, magnitude and the NaN range.

/// The sign bit of a binary64 pattern.
pub const SIGN_BIT: u64 = 0x8000_0000_0000_0000;

/// The magnitude of the two infinity patterns; larger magnitudes are NaN.
pub const INF_MAGNITUDE: u64 = 0x7FF0_0000_0000_0000;

/// The pattern of positive one half.
pub const HALF_BITS: u64 = 0x3FE0_0000_0000_0000;

/// The pattern of negative one half.
pub const NEG_HALF_BITS: u64 = 0xBFE0_0000_0000_0000;

/// The pattern of positive zero.
pub const POS_ZERO_BITS: u64 = 0;

/// Whether the pattern's sign bit is set.
pub open spec fn sign_of(b: u64) -> bool {
    b >= SIGN_BIT
}

/// The pattern with its sign bit cleared.
pub open spec fn magnitude_of(b: u64) -> u64 {
    if sign_of(b) {
        (b - SIGN_BIT) as u64
    } else {
        b
    }
}

/// Whether the pattern denotes NaN.
pub open spec fn is_nan_bits(b: u64) -> bool {
    magnitude_of(b) > INF_MAGNITUDE
}

/// Whether the pattern denotes a zero (either sign).
pub open spec fn is_zero_bits(b: u64) -> bool {
    magnitude_of(b) == 0
}

/// The value of `a` is strictly below the value of `b`.
/// False whenever either pattern is NaN, and the two zeros are equal.
pub open spec fn lt_bits(a: u64, b: u64) -> bool {
    &&& !is_nan_bits(a)
    &&& !is_nan_bits(b)
    &&& if sign_of(a) {
        if sign_of(b) {
            magnitude_of(b) < magnitude_of(a)
        } else {
            !(is_zero_bits(a) && is_zero_bits(b))
        }
    } else {
        if sign_of(b) {
            false
        } else {
            magnitude_of(a) < magnitude_of(b)
        }
    }
}

/// The two patterns denote the same value: equal patterns, or the two zeros.
/// False whenever either pattern is NaN.
pub open spec fn eq_bits(a: u64, b: u64) -> bool {
    &&& !is_nan_bits(a)
    &&& !is_nan_bits(b)
    &&& (a == b || (is_zero_bits(a) && is_zero_bits(b)))
}

/// The value of `a` is at or below the value of `b`; false on NaN.
pub open spec fn le_bits(a: u64, b: u64) -> bool {
    lt_bits(a, b) || eq_bits(a, b)
}

/// The pattern denotes a value strictly above zero (positive infinity included).
pub open spec fn positive_bits(b: u64) -> bool {
    lt_bits(POS_ZERO_BITS, b)
}

/// The value lies in the half-open initialization interval from minus one
/// half (inclusive) to plus one half (exclusive).
pub open spec fn in_init_range(b: u64) -> bool {
    le_bits(NEG_HALF_BITS, b) && lt_bits(b, HALF_BITS)
}


/// On non-NaN patterns the comparison is total: one of the two orderings
/// always holds.
pub proof fn lemma_le_bits_total(a: u64, b: u64)
    requires
        !is_nan_bits(a),
        !is_nan_bits(b),
    ensures
        le_bits(a, b) || le_bits(b, a),
{
}

/// Two patterns at or below each other denote the same value.
pub proof fn lemma_le_bits_antisymmetric(a: u64, b: u64)
    requires
        le_bits(a, b),
        le_bits(b, a),
    ensures
        eq_bits(a, b),
{
}

/// The comparison chains: a value at or below a second, itself at or below
/// a third, is at or below the third.
pub proof fn lemma_le_bits_transitive(a: u64, b: u64, c: u64)
    requires
        le_bits(a, b),
        le_bits(b, c),
    ensures
        le_bits(a, c),
{
}

/// Decides `le_bits` on two patterns.
pub fn cmp_le_bits(a: u64, b: u64) -> (r: bool)
    ensures
        r == le_bits(a, b),
{
    let ma: u64 = if a >= SIGN_BIT {
        a - SIGN_BIT
    } else {
        a
    };
    let mb: u64 = if b >= SIGN_BIT {
        b - SIGN_BIT
    } else {
        b
    };
    if ma > INF_MAGNITUDE || mb > INF_MAGNITUDE {
        false
    } else if ma == 0 && mb == 0 {
        true
    } else if a >= SIGN_BIT {
        if b >= SIGN_BIT {
            mb <= ma
        } else {
            true
        }
    } else {
        if b >= SIGN_BIT {
            false
        } else {
            ma <= mb
        }
    }
}

/// Decides `positive_bits` on a pattern.
pub fn cmp_positive_bits(b: u64) -> (r: bool)
    ensures
        r == positive_bits(b),
{
    1 <= b && b <= INF_MAGNITUDE
}

/// Decides `in_init_range` on a pattern.
pub fn check_init_range(b: u64) -> (r: bool)
    ensures
        r == in_init_range(b),
{
    cmp_le_bits(NEG_HALF_BITS, b) && !cmp_le_bits(HALF_BITS, b)
}

} // verus!
