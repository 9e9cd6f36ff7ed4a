//! Numbers are IEEE-754 doubles, held as their 64-bit patterns. What this
//! module decides of a double it reads off the pattern: sign, order, and the
//! whole number it stands for.

use vstd::prelude::*;

verus! {

/// The sign bit of a double.
pub const SIGN: u64 = 0x8000_0000_0000_0000;

/// All bits of a double but the sign.
pub const MAGNITUDE: u64 = 0x7FFF_FFFF_FFFF_FFFF;

/// The pattern of positive infinity: every exponent bit set, no fraction bit.
pub const INFINITY: u64 = 0x7FF0_0000_0000_0000;

/// The fraction bits of a double.
pub const FRACTION: u64 = 0x000F_FFFF_FFFF_FFFF;

/// The bit that a normal double's significand has above its fraction.
pub const HIDDEN: u64 = 0x0010_0000_0000_0000;

/// The pattern without its sign.
pub open spec fn magnitude(b: u64) -> u64 {
    b & MAGNITUDE
}

/// Whether the sign bit is set.
pub open spec fn negative(b: u64) -> bool {
    b & SIGN != 0
}

/// A pattern is not a number if its magnitude lies above infinity's.
pub open spec fn nan(b: u64) -> bool {
    magnitude(b) > INFINITY
}

/// The place of a double that is a number among all of them: doubles are
/// ordered as the integers that their sign and magnitude make. Both zeros
/// have place 0.
pub open spec fn rank(b: u64) -> int {
    if negative(b) {
        -(magnitude(b) as int)
    } else {
        magnitude(b) as int
    }
}

/// Equality of doubles: no NaN equals anything, the two zeros are equal.
pub open spec fn num_eq(a: u64, b: u64) -> bool {
    !nan(a) && !nan(b) && rank(a) == rank(b)
}

/// Strict order of doubles; false where either is a NaN.
pub open spec fn num_lt(a: u64, b: u64) -> bool {
    !nan(a) && !nan(b) && rank(a) < rank(b)
}

/// Order of doubles; false where either is a NaN.
pub open spec fn num_le(a: u64, b: u64) -> bool {
    !nan(a) && !nan(b) && rank(a) <= rank(b)
}

/// The double with the opposite sign.
pub open spec fn negated(b: u64) -> u64 {
    b ^ SIGN
}

/// The biased exponent of a double.
pub open spec fn exponent(b: u64) -> u64 {
    (b >> 52) & 0x7FF
}

/// The fraction bits of a double.
pub open spec fn fraction(b: u64) -> u64 {
    b & FRACTION
}

/// Whether a double is a whole number. A double with exponent `e >= 1075`
/// has no bit below the units; one with `1023 <= e < 1075` is whole if its
/// lowest `1075 - e` fraction bits are zero; a smaller one only if it is
/// zero. The infinities count as whole, NaN does not.
pub open spec fn integral(b: u64) -> bool {
    !nan(b) && (magnitude(b) == 0 || exponent(b) >= 1075 || (exponent(b) >= 1023 && fraction(b) & (((
    1u64 << ((1075 - exponent(b)) as u64)) - 1) as u64) == 0))
}

/// The whole part of the magnitude of a double that is a number, and
/// `u64::MAX` where that part does not fit in 64 bits.
pub open spec fn whole_part(b: u64) -> u64 {
    let e = exponent(b);
    let m = fraction(b) | HIDDEN;
    if e < 1023 {
        0
    } else if e < 1075 {
        m >> ((1075 - e) as u64)
    } else if e < 1087 {
        m << ((e - 1075) as u64)
    } else {
        u64::MAX
    }
}

/// Tells whether a pattern is a NaN.
pub fn is_nan(b: u64) -> (r: bool)
    ensures
        r == nan(b),
{
    (b & MAGNITUDE) > INFINITY
}

/// Tells whether two doubles are equal.
pub fn equal(a: u64, b: u64) -> (r: bool)
    ensures
        r == num_eq(a, b),
{
    if is_nan(a) || is_nan(b) {
        return false;
    }
    let ma: u64 = a & MAGNITUDE;
    let mb: u64 = b & MAGNITUDE;
    if (a & SIGN != 0) == (b & SIGN != 0) {
        ma == mb
    } else {
        ma == 0 && mb == 0
    }
}

/// Tells whether `a` is less than `b`.
pub fn less(a: u64, b: u64) -> (r: bool)
    ensures
        r == num_lt(a, b),
{
    if is_nan(a) || is_nan(b) {
        return false;
    }
    let ma: u64 = a & MAGNITUDE;
    let mb: u64 = b & MAGNITUDE;
    let na: bool = a & SIGN != 0;
    let nb: bool = b & SIGN != 0;
    if na && nb {
        ma > mb
    } else if na {
        ma != 0 || mb != 0
    } else if nb {
        false
    } else {
        ma < mb
    }
}

/// Tells whether `a` is less than or equal to `b`.
pub fn less_eq(a: u64, b: u64) -> (r: bool)
    ensures
        r == num_le(a, b),
{
    less(a, b) || equal(a, b)
}

/// Gives the double with the opposite sign.
pub fn negate(b: u64) -> (r: u64)
    ensures
        r == negated(b),
{
    b ^ SIGN
}

/// Tells whether a double is a whole number.
pub fn is_integral(b: u64) -> (r: bool)
    ensures
        r == integral(b),
{
    if is_nan(b) {
        return false;
    }
    if b & MAGNITUDE == 0 {
        return true;
    }
    let e: u64 = (b >> 52) & 0x7FF;
    assert(e <= 0x7FF) by (bit_vector)
        requires
            e == (b >> 52) & 0x7FF,
    ;
    if e >= 1075 {
        return true;
    }
    if e < 1023 {
        return false;
    }
    let k: u64 = 1075 - e;
    assert((1u64 << k) >= 1) by (bit_vector)
        requires
            1 <= k <= 52,
    ;
    let mask: u64 = (1u64 << k) - 1;
    (b & FRACTION) & mask == 0
}

/// Gives the whole part of a double's magnitude, at most `u64::MAX`.
pub fn truncate(b: u64) -> (r: u64)
    requires
        !nan(b),
    ensures
        r == whole_part(b),
{
    let e: u64 = (b >> 52) & 0x7FF;
    assert(e <= 0x7FF) by (bit_vector)
        requires
            e == (b >> 52) & 0x7FF,
    ;
    let m: u64 = (b & FRACTION) | HIDDEN;
    if e < 1023 {
        0
    } else if e < 1075 {
        m >> (1075 - e)
    } else if e < 1087 {
        m << (e - 1075)
    } else {
        u64::MAX
    }
}

/// The number of bits that a whole number takes: the place of its highest
/// bit that is set, counted from 1, and 0 for 0.
pub open spec fn bit_length(n: u64) -> nat
    decreases n,
{
    if n == 0 {
        0
    } else {
        bit_length(n / 2) + 1
    }
}

/// The double nearest to a whole number; of two doubles that are equally
/// near, the one whose last fraction bit is 0. A number of at most 53 bits
/// is a double as it is: its highest bit is the hidden bit, the bits below
/// it are the fraction. Of a longer number the 53 highest bits are kept,
/// and one is added to them where what is dropped is more than half of
/// their last place, or is half of it and their last bit is 1.
pub open spec fn of_whole(n: u64) -> u64 {
    let len = bit_length(n);
    if n == 0 {
        0
    } else if len <= 53 {
        (((1022 + len) as u64) << 52) | ((n << ((53 - len) as u64)) & FRACTION)
    } else {
        let drop = (len - 53) as u64;
        let kept = n >> drop;
        let rest = n & (((1u64 << drop) - 1) as u64);
        let half = 1u64 << ((drop - 1) as u64);
        let up = rest > half || (rest == half && kept & 1 == 1);
        if up && kept == 0x001F_FFFF_FFFF_FFFF {
            ((1023 + len) as u64) << 52
        } else if up {
            (((1022 + len) as u64) << 52) | (((kept + 1) as u64) & FRACTION)
        } else {
            (((1022 + len) as u64) << 52) | (kept & FRACTION)
        }
    }
}

/// Counts the bits that a whole number takes.
pub fn count_bits(n: u64) -> (len: u64)
    ensures
        len == bit_length(n),
        len <= 64,
        n > 0 ==> len >= 1 && n >> ((len - 1) as u64) == 1,
        n == 0 ==> len == 0,
{
    proof {
        if n > 0 {
            lemma_bit_length(n);
        }
    }
    let mut len: u64 = 0;
    let mut m: u64 = n;
    while m > 0
        invariant
            bit_length(n) <= 64,
            bit_length(n) == len + bit_length(m),
        decreases m,
    {
        m = m / 2;
        len = len + 1;
    }
    len
}

/// Gives the double nearest to a whole number.
pub fn from_whole(n: u64) -> (r: u64)
    ensures
        r == of_whole(n),
{
    if n == 0 {
        return 0;
    }
    let len: u64 = count_bits(n);
    if len <= 53 {
        ((1022 + len) << 52) | ((n << (53 - len)) & FRACTION)
    } else {
        let drop: u64 = len - 53;
        let kept: u64 = n >> drop;
        assert((1u64 << drop) >= 1) by (bit_vector)
            requires
                1 <= drop <= 11,
        ;
        let rest: u64 = n & ((1u64 << drop) - 1);
        let half: u64 = 1u64 << (drop - 1);
        let up: bool = rest > half || (rest == half && kept & 1 == 1);
        assert(kept <= 0x001F_FFFF_FFFF_FFFF) by (bit_vector)
            requires
                kept == n >> drop,
                54 <= len <= 64,
                drop == len - 53,
                n >> ((len - 1) as u64) == 1,
        ;
        if up && kept == 0x001F_FFFF_FFFF_FFFF {
            (1023 + len) << 52
        } else if up {
            ((1022 + len) << 52) | ((kept + 1) & FRACTION)
        } else {
            ((1022 + len) << 52) | (kept & FRACTION)
        }
    }
}

/// A whole number of at most 53 bits is found again in its double: the
/// double is a number, is whole and not negative, and its whole part is the
/// number.
pub proof fn lemma_of_whole(n: u64)
    requires
        n < 0x0020_0000_0000_0000,
    ensures
        !nan(of_whole(n)),
        !negative(of_whole(n)),
        integral(of_whole(n)),
        whole_part(of_whole(n)) == n,
{
    if n == 0 {
        assert(0u64 & MAGNITUDE == 0) by (bit_vector);
        assert(0u64 & SIGN == 0) by (bit_vector);
        assert((0u64 >> 52) & 0x7FF == 0) by (bit_vector);
    } else {
        lemma_bit_length(n);
        let len = bit_length(n) as u64;
        let r = of_whole(n);
        assert(len <= 53) by (bit_vector)
            requires
                1 <= len <= 64,
                n >> ((len - 1) as u64) == 1,
                n < 0x0020_0000_0000_0000,
        ;
        let e: u64 = (1022 + len) as u64;
        let k: u64 = (53 - len) as u64;
        let f: u64 = (n << k) & FRACTION;
        assert(r == (e << 52) | f);
        assert((r >> 52) & 0x7FF == e && r & FRACTION == f && r & SIGN == 0 && r & MAGNITUDE == r && r
            <= 0x7FF0_0000_0000_0000 && (f | HIDDEN) == n << k) by (bit_vector)
            requires
                r == (e << 52) | f,
                f == (n << k) & FRACTION,
                1023 <= e <= 1075,
                k == 1075 - e,
                n >> ((52 - k) as u64) == 1,
                n < 0x0020_0000_0000_0000,
        ;
        assert(((n << k) >> k) == n && (e < 1075 ==> f & (((1u64 << k) - 1) as u64) == 0)) by (bit_vector)
            requires
                f == (n << k) & FRACTION,
                k <= 52,
                n >> ((52 - k) as u64) == 1,
                1023 <= e <= 1075,
                k == 1075 - e,
        ;
        assert((n << 0u64) == n) by (bit_vector);
    }
}

/// The highest bit of a whole number is where its length says.
pub proof fn lemma_bit_length(n: u64)
    requires
        n > 0,
    ensures
        1 <= bit_length(n) <= 64,
        n >> ((bit_length(n) - 1) as u64) == 1,
    decreases n,
{
    if n == 1 {
        assert(bit_length(0) == 0);
        assert(1u64 / 2 == 0);
        assert(1u64 >> 0u64 == 1) by (bit_vector);
    } else {
        lemma_bit_length(n / 2);
        let l: u64 = bit_length(n / 2) as u64;
        let h: u64 = n / 2;
        assert(l <= 63 && n >> l == 1) by (bit_vector)
            requires
                h == n / 2,
                h >> ((l - 1) as u64) == 1,
                1 <= l <= 64,
        ;
    }
}

/// Negating twice gives the double back, and changes neither its magnitude
/// nor whether it is a number.
pub proof fn lemma_negated(b: u64)
    ensures
        negated(negated(b)) == b,
        magnitude(negated(b)) == magnitude(b),
        nan(negated(b)) == nan(b),
        negative(negated(b)) == !negative(b),
{
    assert((b ^ SIGN) ^ SIGN == b) by (bit_vector);
    assert((b ^ SIGN) & MAGNITUDE == b & MAGNITUDE) by (bit_vector);
    assert(((b ^ SIGN) & SIGN != 0) == !(b & SIGN != 0)) by (bit_vector);
}

} // verus!
