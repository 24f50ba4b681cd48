//! Exact ratios, floating-point values by their bit pattern, and
//! little-endian integers.

use vstd::prelude::*;

verus! {

// ---------------------------------------------------------------------------
// Ratios
// ---------------------------------------------------------------------------

/// A ratio of two integers with a positive denominator.
#[derive(Clone, Copy, Debug, PartialEq, Eq, Structural)]
pub struct Ratio {
    pub num: i64,
    pub den: i64,
}

impl Ratio {
    pub open spec fn wf(self) -> bool {
        self.den > 0
    }

    /// The ratio lies between -1 and 1.
    pub open spec fn in_unit(self) -> bool {
        self.wf() && -self.den <= self.num <= self.den
    }

    /// The value zero.
    pub fn zero() -> (r: Ratio)
        ensures
            r == zero_ratio(),
    {
        Ratio { num: 0, den: 1 }
    }

    /// `num / den`, held between -1 and 1.
    pub fn clamped(num: i64, den: i64) -> (r: Ratio)
        requires
            den > 0,
        ensures
            r == unit_ratio(num as int, den as int),
            r.in_unit(),
    {
        if num > den {
            Ratio { num: den, den }
        } else if num < -den {
            Ratio { num: -den, den }
        } else {
            Ratio { num, den }
        }
    }

    /// `num / den` with the sign moved to the numerator.
    pub fn quotient(num: i64, den: i64) -> (r: Ratio)
        requires
            den != 0,
            i64::MIN < num,
            i64::MIN < den,
        ensures
            r == quotient_ratio(num as int, den as int),
            r.wf(),
            r.num * den == num * r.den,
    {
        if den < 0 {
            assert((-num) * den == num * (-den)) by (nonlinear_arith);
            Ratio { num: -num, den: -den }
        } else {
            Ratio { num, den }
        }
    }
}

impl Default for Ratio {
    fn default() -> (r: Self)
        ensures
            r == zero_ratio(),
    {
        Ratio::zero()
    }
}

/// The value zero.
pub open spec fn zero_ratio() -> Ratio {
    Ratio { num: 0, den: 1 }
}

/// `num / den`, held between -1 and 1.
pub open spec fn unit_ratio(num: int, den: int) -> Ratio {
    let n = if num > den {
        den
    } else if num < -den {
        -den
    } else {
        num
    };
    Ratio { num: n as i64, den: den as i64 }
}

/// `num / den` with the sign moved to the numerator.
pub open spec fn quotient_ratio(num: int, den: int) -> Ratio {
    if den < 0 {
        Ratio { num: (-num) as i64, den: (-den) as i64 }
    } else {
        Ratio { num: num as i64, den: den as i64 }
    }
}

// ---------------------------------------------------------------------------
// Floating-point values
// ---------------------------------------------------------------------------

/// A 32-bit IEEE 754 value, held by its bit pattern.
///
/// `==` compares bit patterns. The comparisons of the values themselves are
/// the methods below: a NaN is neither below nor above anything, and the two
/// zeros are level.
#[derive(Clone, Copy, Debug, PartialEq, Eq, Structural)]
pub struct Real32 {
    pub bits: u32,
}

/// The bit pattern of 0.25.
pub const QUARTER_BITS: u32 = 0x3E80_0000;

/// The bit pattern of 0.40.
pub const TWO_FIFTHS_BITS: u32 = 0x3ECC_CCCD;

/// The bit pattern of 0.5.
pub const HALF_BITS: u32 = 0x3F00_0000;

/// The bit pattern of 1.0.
pub const ONE_BITS: u32 = 0x3F80_0000;

/// The bit pattern of -1.0.
pub const MINUS_ONE_BITS: u32 = 0xBF80_0000;

/// The bit pattern of 3.0.
pub const THREE_BITS: u32 = 0x4040_0000;

impl Real32 {
    /// The bit pattern without its sign.
    pub open spec fn magnitude(self) -> int {
        if self.bits >= 0x8000_0000 {
            self.bits - 0x8000_0000
        } else {
            self.bits as int
        }
    }

    /// A number that orders the values as IEEE 754 does.
    pub open spec fn key(self) -> int {
        if self.bits >= 0x8000_0000 {
            -self.magnitude()
        } else {
            self.magnitude()
        }
    }

    pub open spec fn nan(self) -> bool {
        self.magnitude() > 0x7F80_0000
    }

    /// Neither infinite nor a NaN.
    pub open spec fn finite(self) -> bool {
        self.magnitude() < 0x7F80_0000
    }

    /// `self < other`.
    pub open spec fn below(self, other: Real32) -> bool {
        !self.nan() && !other.nan() && self.key() < other.key()
    }

    /// `self <= other`.
    pub open spec fn at_most(self, other: Real32) -> bool {
        !self.nan() && !other.nan() && self.key() <= other.key()
    }

    /// The value with its sign turned round.
    pub open spec fn negated(self) -> Real32 {
        if self.bits >= 0x8000_0000 {
            Real32 { bits: (self.bits - 0x8000_0000) as u32 }
        } else {
            Real32 { bits: (self.bits + 0x8000_0000) as u32 }
        }
    }

    /// The value without its sign.
    pub open spec fn absolute(self) -> Real32 {
        Real32 { bits: self.magnitude() as u32 }
    }

    /// The value, or the end of the range that it lies beyond. A NaN stays.
    pub open spec fn limited(self, lo: Real32, hi: Real32) -> Real32 {
        if self.below(lo) {
            lo
        } else if hi.below(self) {
            hi
        } else {
            self
        }
    }

    /// Whether the value is a zero, of either sign.
    pub open spec fn null(self) -> bool {
        self.magnitude() == 0
    }

    /// Positive zero.
    pub fn zero() -> (r: Real32)
        ensures
            r == (Real32 { bits: 0 }),
    {
        Real32 { bits: 0 }
    }

    /// The value with this bit pattern.
    pub fn from_bits(bits: u32) -> (r: Real32)
        ensures
            r.bits == bits,
    {
        Real32 { bits }
    }

    /// The bit pattern without its sign.
    fn sized(self) -> (r: u32)
        ensures
            r == self.magnitude(),
    {
        if self.bits >= 0x8000_0000 {
            self.bits - 0x8000_0000
        } else {
            self.bits
        }
    }

    /// A number that orders the values as IEEE 754 does.
    fn rank(self) -> (r: i64)
        ensures
            r == self.key(),
    {
        if self.bits >= 0x8000_0000 {
            -(self.sized() as i64)
        } else {
            self.sized() as i64
        }
    }

    /// Whether the value is a NaN.
    pub fn is_nan(self) -> (r: bool)
        ensures
            r == self.nan(),
    {
        self.sized() > 0x7F80_0000
    }

    /// Whether the value is neither infinite nor a NaN.
    pub fn is_finite(self) -> (r: bool)
        ensures
            r == self.finite(),
    {
        self.sized() < 0x7F80_0000
    }

    /// `self < other`.
    pub fn lt(self, other: Real32) -> (r: bool)
        ensures
            r == self.below(other),
    {
        !self.is_nan() && !other.is_nan() && self.rank() < other.rank()
    }

    /// `self <= other`.
    pub fn le(self, other: Real32) -> (r: bool)
        ensures
            r == self.at_most(other),
    {
        !self.is_nan() && !other.is_nan() && self.rank() <= other.rank()
    }

    /// `-self`.
    pub fn neg(self) -> (r: Real32)
        ensures
            r == self.negated(),
    {
        if self.bits >= 0x8000_0000 {
            Real32 { bits: self.bits - 0x8000_0000 }
        } else {
            Real32 { bits: self.bits + 0x8000_0000 }
        }
    }

    /// The value without its sign.
    pub fn abs(self) -> (r: Real32)
        ensures
            r == self.absolute(),
    {
        Real32 { bits: self.sized() }
    }
}

impl Real32 {
    /// The value, or the end of the range that it lies beyond.
    pub fn limit(self, lo: Real32, hi: Real32) -> (r: Real32)
        ensures
            r == self.limited(lo, hi),
    {
        if self.lt(lo) {
            return lo;
        }
        if hi.lt(self) {
            return hi;
        }
        self
    }

    /// Whether the value is a zero, of either sign.
    pub fn is_zero(self) -> (r: bool)
        ensures
            r == self.null(),
    {
        self.sized() == 0
    }

    /// Whether the sign bit is set.
    pub fn is_negative(self) -> (r: bool)
        ensures
            r == (self.bits >= 0x8000_0000),
    {
        self.bits >= 0x8000_0000
    }
}

impl Default for Real32 {
    fn default() -> (r: Self)
        ensures
            r.bits == 0,
    {
        Real32 { bits: 0 }
    }
}

/// Of two values that are no NaN exactly one of the following holds: the first
/// is below the second, the second is below the first, or they are level.
pub proof fn law_order_is_total(a: Real32, b: Real32)
    requires
        !a.nan(),
        !b.nan(),
    ensures
        a.below(b) || b.below(a) || (a.at_most(b) && b.at_most(a)),
        !(a.below(b) && b.at_most(a)),
{
}

/// Turning the sign of both values round turns their order round.
pub proof fn law_negation_reverses_order(a: Real32, b: Real32)
    ensures
        a.below(b) == b.negated().below(a.negated()),
{
}

// ---------------------------------------------------------------------------
// Little-endian integers
// ---------------------------------------------------------------------------

/// The two bytes of a 16-bit number, the low one first.
pub open spec fn le16(x: u16) -> Seq<u8> {
    seq![(x % 256) as u8, (x / 256) as u8]
}

/// The four bytes of a 32-bit number, the lowest first.
pub open spec fn le32(x: u32) -> Seq<u8> {
    seq![
        (x % 256) as u8,
        (x / 256 % 256) as u8,
        (x / 65536 % 256) as u8,
        (x / 16777216) as u8,
    ]
}

/// The eight bytes of a 64-bit number, the lowest first.
pub open spec fn le64(x: u64) -> Seq<u8> {
    le32((x % 0x1_0000_0000) as u32) + le32((x / 0x1_0000_0000) as u32)
}

/// The 16-bit number with these bytes, the low one first.
pub open spec fn from_le16(lo: u8, hi: u8) -> u16 {
    (lo + 256 * hi) as u16
}

/// The signed 16-bit number with these bytes, the low one first.
pub open spec fn from_le16_signed(lo: u8, hi: u8) -> i16 {
    let v = lo + 256 * hi;
    (if v >= 0x8000 { v - 0x10000 } else { v }) as i16
}

/// The 32-bit number with these bytes, the lowest first.
pub open spec fn from_le32(a: u8, b: u8, c: u8, d: u8) -> u32 {
    (a + 256 * b + 65536 * c + 16777216 * d) as u32
}

/// The 16-bit number with these bytes, the low one first.
pub fn u16_le(lo: u8, hi: u8) -> (r: u16)
    ensures
        r == from_le16(lo, hi),
{
    lo as u16 + 256 * (hi as u16)
}

/// The signed 16-bit number with these bytes, the low one first.
pub fn i16_le(lo: u8, hi: u8) -> (r: i16)
    ensures
        r == from_le16_signed(lo, hi),
{
    let v: i32 = lo as i32 + 256 * (hi as i32);
    if v >= 0x8000 {
        (v - 0x10000) as i16
    } else {
        v as i16
    }
}

/// The 32-bit number with these bytes, the lowest first.
pub fn u32_le(a: u8, b: u8, c: u8, d: u8) -> (r: u32)
    ensures
        r == from_le32(a, b, c, d),
{
    a as u32 + 256 * (b as u32) + 65536 * (c as u32) + 16777216 * (d as u32)
}

/// Appends the bytes of a 16-bit number, the low one first.
pub fn push_le16(out: &mut Vec<u8>, x: u16)
    ensures
        final(out)@ == old(out)@ + le16(x),
{
    out.push((x % 256) as u8);
    out.push((x / 256) as u8);
    assert(out@ =~= old(out)@ + le16(x));
}

/// Appends the bytes of a 32-bit number, the lowest first.
pub fn push_le32(out: &mut Vec<u8>, x: u32)
    ensures
        final(out)@ == old(out)@ + le32(x),
{
    out.push((x % 256) as u8);
    out.push((x / 256 % 256) as u8);
    out.push((x / 65536 % 256) as u8);
    out.push((x / 16777216) as u8);
    assert(out@ =~= old(out)@ + le32(x));
}

/// Appends the bytes of a 64-bit number, the lowest first.
pub fn push_le64(out: &mut Vec<u8>, x: u64)
    ensures
        final(out)@ == old(out)@ + le64(x),
{
    push_le32(out, (x % 0x1_0000_0000) as u32);
    push_le32(out, (x / 0x1_0000_0000) as u32);
    assert(out@ =~= old(out)@ + le64(x));
}

/// Reading the bytes that were written for a 16-bit number gives it back.
pub proof fn law_le16_round_trip(x: u16)
    ensures
        from_le16(le16(x)[0], le16(x)[1]) == x,
{
}

/// Reading the bytes that were written for a 32-bit number gives it back.
pub proof fn law_le32_round_trip(x: u32)
    ensures
        from_le32(le32(x)[0], le32(x)[1], le32(x)[2], le32(x)[3]) == x,
{
}

/// The bytes of a number weigh 1, 256, 65536 and so on, from the first on.
pub proof fn law_first_byte_is_the_lowest(a: u16, b: u32, c: u64)
    ensures
        le16(a).len() == 2,
        le16(a)[0] + 0x100 * le16(a)[1] == a,
        le32(b).len() == 4,
        le32(b)[0] + 0x100 * le32(b)[1] + 0x1_0000 * le32(b)[2] + 0x100_0000 * le32(b)[3] == b,
        le64(c).len() == 8,
        le64(c)[0] + 0x100 * le64(c)[1] + 0x1_0000 * le64(c)[2] + 0x100_0000 * le64(c)[3]
            + 0x1_0000_0000 * le64(c)[4] + 0x100_0000_0000 * le64(c)[5] + 0x1_0000_0000_0000
            * le64(c)[6] + 0x100_0000_0000_0000 * le64(c)[7] == c,
{
    let lo = (c % 0x1_0000_0000) as u32;
    let hi = (c / 0x1_0000_0000) as u32;
    assert(le64(c)[0] == le32(lo)[0] && le64(c)[4] == le32(hi)[0]);
    assert(le64(c)[1] == le32(lo)[1] && le64(c)[5] == le32(hi)[1]);
    assert(le64(c)[2] == le32(lo)[2] && le64(c)[6] == le32(hi)[2]);
    assert(le64(c)[3] == le32(lo)[3] && le64(c)[7] == le32(hi)[3]);
}

/// A number is read from its bytes by their weights; a signed one lies 65536
/// lower where its highest bit is set.
pub proof fn law_bytes_are_read_by_weight(a: u8, b: u8, c: u8, d: u8)
    ensures
        from_le16(a, b) == a + 0x100 * b,
        from_le32(a, b, c, d) == a + 0x100 * b + 0x1_0000 * c + 0x100_0000 * d,
        b < 0x80 ==> from_le16_signed(a, b) == a + 0x100 * b,
        b >= 0x80 ==> from_le16_signed(a, b) == a + 0x100 * b - 0x1_0000,
{
}

/// A ratio that is held to its range keeps its value inside of it, and lies at
/// the nearer end outside of it.
pub proof fn law_unit_ratio_keeps_the_value(num: int, den: int)
    requires
        0 < den <= 0x7FFF_FFFF,
        -0x7FFF_FFFF <= num <= 0x7FFF_FFFF,
    ensures
        unit_ratio(num, den).den > 0,
        -den <= num <= den ==> unit_ratio(num, den).num * den == num * unit_ratio(num, den).den,
        num > den ==> unit_ratio(num, den).num == unit_ratio(num, den).den,
        num < -den ==> unit_ratio(num, den).num == -unit_ratio(num, den).den,
{
}

/// A quotient has the value of its numerator over its denominator, whatever
/// their signs.
pub proof fn law_quotient_keeps_the_value(num: int, den: int)
    requires
        den != 0,
        -0x7FFF_FFFF <= den <= 0x7FFF_FFFF,
        -0x7FFF_FFFF <= num <= 0x7FFF_FFFF,
    ensures
        quotient_ratio(num, den).den > 0,
        quotient_ratio(num, den).num * den == num * quotient_ratio(num, den).den,
        zero_ratio().num == 0 && zero_ratio().den > 0,
{
    assert((-num) * den == num * (-den)) by (nonlinear_arith);
}

/// Of two numbers without a sign the one with the greater bit pattern is the
/// greater; every number with a sign lies at or below every number without
/// one, and only the two zeros are level.
pub proof fn law_order_goes_by_sign_and_bits(a: Real32, b: Real32)
    requires
        a.bits <= 0x7F80_0000,
        b.bits <= 0x7F80_0000,
    ensures
        a.below(b) == (a.bits < b.bits),
        a.at_most(b) == (a.bits <= b.bits),
        a.negated().below(b) == (a.bits != 0 || b.bits != 0),
        !b.below(a.negated()),
        a.negated().negated() == a,
        a.negated().absolute() == a && a.absolute() == a,
        a.null() == (a.bits == 0) && a.negated().null() == (a.bits == 0),
        a.finite() == (a.bits != 0x7F80_0000) && a.negated().finite() == a.finite(),
        !a.nan() && !a.negated().nan(),
{
}

/// What is no number is neither below nor above anything.
pub proof fn law_nan_is_not_ordered(a: Real32, b: Real32)
    requires
        0x7F80_0000 < a.bits < 0x8000_0000 || 0xFF80_0000 < a.bits,
    ensures
        a.nan() && !a.finite(),
        !a.below(b) && !b.below(a) && !a.at_most(b) && !b.at_most(a),
{
}

/// A number is held to a range by the nearer end, and stays what it is inside.
pub proof fn law_limit_is_the_nearest(v: Real32, lo: Real32, hi: Real32)
    requires
        !v.nan(),
        lo.at_most(hi),
    ensures
        lo.at_most(v.limited(lo, hi)) && v.limited(lo, hi).at_most(hi),
        lo.at_most(v) && v.at_most(hi) ==> v.limited(lo, hi) == v,
        v.below(lo) ==> v.limited(lo, hi) == lo,
        hi.below(v) ==> v.limited(lo, hi) == hi,
{
}

/// A ratio lies in the unit range if it is no smaller than -1 and no greater
/// than 1.
pub proof fn law_unit_range(r: Ratio)
    ensures
        r.in_unit() == (r.den > 0 && -r.den <= r.num && r.num <= r.den),
        r.wf() == (r.den > 0),
{
}

} // verus!
