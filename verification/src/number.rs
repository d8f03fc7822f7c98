use vstd::prelude::*;
use vstd::std_specs::ops::{AddSpecImpl, DivSpecImpl, MulSpecImpl, SubSpecImpl};

verus! {

/// Minimal number abstraction for device code.
///
/// The arithmetic is that of the implementing type (IEEE floats in practice);
/// nothing here assumes the usual algebraic laws. Each operation is named by a
/// spec function of the implementing type, and the executable method returns
/// exactly that value. The contracts below are what an implementation
/// promises; the implementations for `f32` and `f64` live outside this crate,
/// and nothing here checks them.
pub trait Float: Copy + Sized {
    const ZERO: Self;
    const HALF: Self;
    const ONE: Self;
    const TWO: Self;
    const FOUR: Self;
    const LN_2: Self;

    spec fn add_spec(self, rhs: Self) -> Self;

    spec fn sub_spec(self, rhs: Self) -> Self;

    spec fn mul_spec(self, rhs: Self) -> Self;

    spec fn div_spec(self, rhs: Self) -> Self;

    /// `self < rhs` in the type's partial order.
    spec fn lt_spec(self, rhs: Self) -> bool;

    spec fn from_u32_spec(v: u32) -> Self;

    /// The type's approximation of the natural logarithm.
    spec fn ln_spec(self) -> Self;

    fn add(self, rhs: Self) -> (r: Self)
        ensures
            r == self.add_spec(rhs),
    ;

    fn sub(self, rhs: Self) -> (r: Self)
        ensures
            r == self.sub_spec(rhs),
    ;

    fn mul(self, rhs: Self) -> (r: Self)
        ensures
            r == self.mul_spec(rhs),
    ;

    fn div(self, rhs: Self) -> (r: Self)
        ensures
            r == self.div_spec(rhs),
    ;

    fn lt(self, rhs: Self) -> (r: bool)
        ensures
            r == self.lt_spec(rhs),
    ;

    fn from_u32(v: u32) -> (r: Self)
        ensures
            r == Self::from_u32_spec(v),
    ;

    fn approximate_ln(self) -> (r: Self)
        ensures
            r == self.ln_spec(),
    ;
}

/// A complex number over `T`.
#[derive(Copy, Clone)]
pub struct Complex<T: Float> {
    pub re: T,
    pub im: T,
}

impl<T: Float> Complex<T> {
    /// `(a + bi) + (c + di) = (a + c) + (b + d)i`.
    pub open spec fn add_spec(self, rhs: Self) -> Self {
        Complex { re: self.re.add_spec(rhs.re), im: self.im.add_spec(rhs.im) }
    }

    /// `(a + bi) - (c + di) = (a - c) + (b - d)i`.
    pub open spec fn sub_spec(self, rhs: Self) -> Self {
        Complex { re: self.re.sub_spec(rhs.re), im: self.im.sub_spec(rhs.im) }
    }

    /// `(a + bi)(c + di) = (ac - bd) + (ad + bc)i`, in that order of operations.
    pub open spec fn mul_spec(self, rhs: Self) -> Self {
        Complex {
            re: self.re.mul_spec(rhs.re).sub_spec(self.im.mul_spec(rhs.im)),
            im: self.re.mul_spec(rhs.im).add_spec(self.im.mul_spec(rhs.re)),
        }
    }

    /// `(a + bi)/(c + di) = ((ac + bd) + (bc - ad)i) / (c² + d²)`.
    pub open spec fn div_spec(self, rhs: Self) -> Self {
        let den = rhs.modulus_sq_spec();
        Complex {
            re: self.re.mul_spec(rhs.re).add_spec(self.im.mul_spec(rhs.im)).div_spec(den),
            im: self.im.mul_spec(rhs.re).sub_spec(self.re.mul_spec(rhs.im)).div_spec(den),
        }
    }

    /// `(a + bi)² = (a·a - b·b) + (2·a·b)i`.
    pub open spec fn sq_spec(self) -> Self {
        Complex {
            re: self.re.mul_spec(self.re).sub_spec(self.im.mul_spec(self.im)),
            im: T::TWO.mul_spec(self.re).mul_spec(self.im),
        }
    }

    /// `|a + bi|² = a·a + b·b`.
    pub open spec fn modulus_sq_spec(self) -> T {
        self.re.mul_spec(self.re).add_spec(self.im.mul_spec(self.im))
    }

    pub open spec fn zero_spec() -> Self {
        Complex { re: T::ZERO, im: T::ZERO }
    }

    pub open spec fn one_spec() -> Self {
        Complex { re: T::ONE, im: T::ZERO }
    }

    pub open spec fn from_u32_spec(v: u32) -> Self {
        Complex { re: T::from_u32_spec(v), im: T::ZERO }
    }

    pub fn sq(self) -> (r: Self)
        ensures
            r == self.sq_spec(),
    {
        Complex {
            re: self.re.mul(self.re).sub(self.im.mul(self.im)),
            im: T::TWO.mul(self.re).mul(self.im),
        }
    }

    pub fn modulus_sq(self) -> (r: T)
        ensures
            r == self.modulus_sq_spec(),
    {
        self.re.mul(self.re).add(self.im.mul(self.im))
    }

    pub fn zero() -> (r: Self)
        ensures
            r == Self::zero_spec(),
    {
        Complex { re: T::ZERO, im: T::ZERO }
    }

    pub fn one() -> (r: Self)
        ensures
            r == Self::one_spec(),
    {
        Complex { re: T::ONE, im: T::ZERO }
    }

    pub fn from_u32(v: u32) -> (r: Self)
        ensures
            r == Self::from_u32_spec(v),
    {
        Complex { re: T::from_u32(v), im: T::ZERO }
    }
}

impl<T: Float> core::ops::Add for Complex<T> {
    type Output = Self;

    fn add(self, rhs: Self) -> (r: Self) {
        Complex { re: self.re.add(rhs.re), im: self.im.add(rhs.im) }
    }
}

impl<T: Float> AddSpecImpl for Complex<T> {
    open spec fn obeys_add_spec() -> bool {
        true
    }

    open spec fn add_req(self, rhs: Self) -> bool {
        true
    }

    open spec fn add_spec(self, rhs: Self) -> Self {
        Complex::add_spec(self, rhs)
    }
}

impl<T: Float> core::ops::Sub for Complex<T> {
    type Output = Self;

    fn sub(self, rhs: Self) -> (r: Self) {
        Complex { re: self.re.sub(rhs.re), im: self.im.sub(rhs.im) }
    }
}

impl<T: Float> SubSpecImpl for Complex<T> {
    open spec fn obeys_sub_spec() -> bool {
        true
    }

    open spec fn sub_req(self, rhs: Self) -> bool {
        true
    }

    open spec fn sub_spec(self, rhs: Self) -> Self {
        Complex::sub_spec(self, rhs)
    }
}

impl<T: Float> core::ops::Mul for Complex<T> {
    type Output = Self;

    fn mul(self, rhs: Self) -> (r: Self) {
        Complex {
            re: self.re.mul(rhs.re).sub(self.im.mul(rhs.im)),
            im: self.re.mul(rhs.im).add(self.im.mul(rhs.re)),
        }
    }
}

impl<T: Float> MulSpecImpl for Complex<T> {
    open spec fn obeys_mul_spec() -> bool {
        true
    }

    open spec fn mul_req(self, rhs: Self) -> bool {
        true
    }

    open spec fn mul_spec(self, rhs: Self) -> Self {
        Complex::mul_spec(self, rhs)
    }
}

impl<T: Float> core::ops::Div for Complex<T> {
    type Output = Self;

    fn div(self, rhs: Self) -> (r: Self) {
        let den = rhs.modulus_sq();
        Complex {
            re: self.re.mul(rhs.re).add(self.im.mul(rhs.im)).div(den),
            im: self.im.mul(rhs.re).sub(self.re.mul(rhs.im)).div(den),
        }
    }
}

impl<T: Float> DivSpecImpl for Complex<T> {
    open spec fn obeys_div_spec() -> bool {
        true
    }

    open spec fn div_req(self, rhs: Self) -> bool {
        true
    }

    open spec fn div_spec(self, rhs: Self) -> Self {
        Complex::div_spec(self, rhs)
    }
}

/// A point that left the iteration, with the iteration count at which it did.
pub struct EscapedPoint<T: Float> {
    pub z: Complex<T>,
    pub iter: u32,
}

/// Splits the bits of a positive `f32` for the logarithm approximation: the
/// unbiased binary exponent, and the bits of the number with the same mantissa
/// and exponent zero (a value in `[1, 2)`).
pub fn f32_ln_parts(bits: u32) -> (r: (i32, u32))
    ensures
        r.0 == ((bits >> 23u32) & 0xffu32) as int - 127,
        r.1 == (bits & 0x007f_ffffu32) | 0x3f80_0000u32,
        -127 <= r.0 <= 128,
        r.1 >> 23u32 == 127u32,
        r.1 & 0x007f_ffffu32 == bits & 0x007f_ffffu32,
{
    let field = (bits >> 23u32) & 0xffu32;
    assert(field <= 0xffu32) by (bit_vector)
        requires
            field == (bits >> 23u32) & 0xffu32,
    ;
    let e = field as i32 - 127i32;
    let m = (bits & 0x007f_ffffu32) | 0x3f80_0000u32;
    assert(m >> 23u32 == 127u32 && m & 0x007f_ffffu32 == bits & 0x007f_ffffu32) by (bit_vector)
        requires
            m == (bits & 0x007f_ffffu32) | 0x3f80_0000u32,
    ;
    (e, m)
}

/// Splits the bits of a positive `f64` for the logarithm approximation: the
/// unbiased binary exponent, and the bits of the number with the same mantissa
/// and exponent zero (a value in `[1, 2)`).
pub fn f64_ln_parts(bits: u64) -> (r: (i64, u64))
    ensures
        r.0 == ((bits >> 52u64) & 0x7ffu64) as int - 1023,
        r.1 == (bits & 0x000f_ffff_ffff_ffffu64) | 0x3ff0_0000_0000_0000u64,
        -1023 <= r.0 <= 1024,
        r.1 >> 52u64 == 1023u64,
        r.1 & 0x000f_ffff_ffff_ffffu64 == bits & 0x000f_ffff_ffff_ffffu64,
{
    let field = (bits >> 52u64) & 0x7ffu64;
    assert(field <= 0x7ffu64) by (bit_vector)
        requires
            field == (bits >> 52u64) & 0x7ffu64,
    ;
    let e = field as i64 - 1023i64;
    let m = (bits & 0x000f_ffff_ffff_ffffu64) | 0x3ff0_0000_0000_0000u64;
    assert(m >> 52u64 == 1023u64 && m & 0x000f_ffff_ffff_ffffu64 == bits & 0x000f_ffff_ffff_ffffu64)
        by (bit_vector)
        requires
            m == (bits & 0x000f_ffff_ffff_ffffu64) | 0x3ff0_0000_0000_0000u64,
    ;
    (e, m)
}

} // verus!
