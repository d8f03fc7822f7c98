use vstd::prelude::*;
use crate::number::{Complex, Float};

verus! {

/// The operations of `T` obey the laws of exact arithmetic in a field (such
/// as the rationals or the reals), with `TWO = 1 + 1` and `from_u32` taking
/// nonzero numbers to nonzero values. IEEE floats meet these laws only up to
/// rounding: a law proved under this hypothesis says what the code computes
/// in exact arithmetic.
pub open spec fn exact_arithmetic<T: Float>() -> bool {
    &&& T::ONE != T::ZERO
    &&& T::TWO == T::ONE.add_spec(T::ONE)
    &&& from_u32_nonzero::<T>()
    &&& add_commutes::<T>()
    &&& add_associates::<T>()
    &&& add_zero::<T>()
    &&& sub_adds_negation::<T>()
    &&& negation_cancels::<T>()
    &&& mul_commutes::<T>()
    &&& mul_associates::<T>()
    &&& mul_one::<T>()
    &&& mul_distributes::<T>()
    &&& div_cancels::<T>()
    &&& no_zero_divisors::<T>()
}

#[verifier::opaque]
pub open spec fn from_u32_nonzero<T: Float>() -> bool {
    forall|n: u32| n > 0 ==> #[trigger] T::from_u32_spec(n) != T::ZERO
}

#[verifier::opaque]
pub open spec fn add_commutes<T: Float>() -> bool {
    forall|a: T, b: T| #[trigger] a.add_spec(b) == b.add_spec(a)
}

#[verifier::opaque]
pub open spec fn add_associates<T: Float>() -> bool {
    forall|a: T, b: T, c: T| #[trigger] a.add_spec(b).add_spec(c) == a.add_spec(b.add_spec(c))
}

#[verifier::opaque]
pub open spec fn add_zero<T: Float>() -> bool {
    forall|a: T| #[trigger] a.add_spec(T::ZERO) == a
}

#[verifier::opaque]
pub open spec fn sub_adds_negation<T: Float>() -> bool {
    forall|a: T, b: T| #[trigger] a.sub_spec(b) == a.add_spec(T::ZERO.sub_spec(b))
}

#[verifier::opaque]
pub open spec fn negation_cancels<T: Float>() -> bool {
    forall|a: T| #[trigger] a.add_spec(T::ZERO.sub_spec(a)) == T::ZERO
}

#[verifier::opaque]
pub open spec fn mul_commutes<T: Float>() -> bool {
    forall|a: T, b: T| #[trigger] a.mul_spec(b) == b.mul_spec(a)
}

#[verifier::opaque]
pub open spec fn mul_associates<T: Float>() -> bool {
    forall|a: T, b: T, c: T| #[trigger] a.mul_spec(b).mul_spec(c) == a.mul_spec(b.mul_spec(c))
}

#[verifier::opaque]
pub open spec fn mul_one<T: Float>() -> bool {
    forall|a: T| #[trigger] a.mul_spec(T::ONE) == a
}

#[verifier::opaque]
pub open spec fn mul_distributes<T: Float>() -> bool {
    forall|a: T, b: T, c: T| #[trigger]
        a.mul_spec(b.add_spec(c)) == a.mul_spec(b).add_spec(a.mul_spec(c))
}

#[verifier::opaque]
pub open spec fn div_cancels<T: Float>() -> bool {
    forall|a: T, b: T| b != T::ZERO ==> #[trigger] a.div_spec(b).mul_spec(b) == a
}

#[verifier::opaque]
pub open spec fn no_zero_divisors<T: Float>() -> bool {
    forall|a: T, b: T| #[trigger] a.mul_spec(b) == T::ZERO ==> a == T::ZERO || b == T::ZERO
}

/// The field laws, instantiated at `a`, `b` and `c`.
proof fn lemma_field<T: Float>(a: T, b: T, c: T)
    requires
        exact_arithmetic::<T>(),
    ensures
        T::ONE != T::ZERO,
        T::TWO == T::ONE.add_spec(T::ONE),
        a.add_spec(b) == b.add_spec(a),
        a.add_spec(b).add_spec(c) == a.add_spec(b.add_spec(c)),
        a.add_spec(T::ZERO) == a,
        a.sub_spec(b) == a.add_spec(T::ZERO.sub_spec(b)),
        a.add_spec(T::ZERO.sub_spec(a)) == T::ZERO,
        a.mul_spec(b) == b.mul_spec(a),
        a.mul_spec(b).mul_spec(c) == a.mul_spec(b.mul_spec(c)),
        a.mul_spec(T::ONE) == a,
        a.mul_spec(b.add_spec(c)) == a.mul_spec(b).add_spec(a.mul_spec(c)),
        b != T::ZERO ==> a.div_spec(b).mul_spec(b) == a,
        a.mul_spec(b) == T::ZERO ==> a == T::ZERO || b == T::ZERO,
{
    assert(a.add_spec(b) == b.add_spec(a)) by {
        reveal(add_commutes);
    }
    assert(a.add_spec(b).add_spec(c) == a.add_spec(b.add_spec(c))) by {
        reveal(add_associates);
    }
    assert(a.add_spec(T::ZERO) == a) by {
        reveal(add_zero);
    }
    assert(a.sub_spec(b) == a.add_spec(T::ZERO.sub_spec(b))) by {
        reveal(sub_adds_negation);
    }
    assert(a.add_spec(T::ZERO.sub_spec(a)) == T::ZERO) by {
        reveal(negation_cancels);
    }
    assert(a.mul_spec(b) == b.mul_spec(a)) by {
        reveal(mul_commutes);
    }
    assert(a.mul_spec(b).mul_spec(c) == a.mul_spec(b.mul_spec(c))) by {
        reveal(mul_associates);
    }
    assert(a.mul_spec(T::ONE) == a) by {
        reveal(mul_one);
    }
    assert(a.mul_spec(b.add_spec(c)) == a.mul_spec(b).add_spec(a.mul_spec(c))) by {
        reveal(mul_distributes);
    }
    assert(b != T::ZERO ==> a.div_spec(b).mul_spec(b) == a) by {
        reveal(div_cancels);
    }
    assert(a.mul_spec(b) == T::ZERO ==> a == T::ZERO || b == T::ZERO) by {
        reveal(no_zero_divisors);
    }
}

/// `from_u32` takes nonzero numbers to nonzero values.
pub proof fn lemma_from_u32_nonzero<T: Float>(n: u32)
    requires
        exact_arithmetic::<T>(),
        n > 0,
    ensures
        T::from_u32_spec(n) != T::ZERO,
{
    reveal(from_u32_nonzero);
}

/// `a · 0 = 0`.
pub proof fn lemma_mul_zero<T: Float>(a: T)
    requires
        exact_arithmetic::<T>(),
    ensures
        a.mul_spec(T::ZERO) == T::ZERO,
        T::ZERO.mul_spec(a) == T::ZERO,
{
    let z = T::ZERO;
    let x = a.mul_spec(z);
    lemma_field(a, z, z);
    lemma_field(z, z, z);
    lemma_field(x, x, z.sub_spec(x));
    lemma_field(x, z, z);
}

/// An additive inverse is unique: `x + y = 0` makes `y = 0 - x`.
pub proof fn lemma_neg_unique<T: Float>(x: T, y: T)
    requires
        exact_arithmetic::<T>(),
        x.add_spec(y) == T::ZERO,
    ensures
        y == T::ZERO.sub_spec(x),
{
    let z = T::ZERO;
    let nx = z.sub_spec(x);
    lemma_field(y, x, nx);
    lemma_field(x, y, z);
    lemma_field(z, nx, z);
    lemma_field(nx, z, z);
}

/// `0 - (0 - a) = a`.
pub proof fn lemma_neg_neg<T: Float>(a: T)
    requires
        exact_arithmetic::<T>(),
    ensures
        T::ZERO.sub_spec(T::ZERO.sub_spec(a)) == a,
{
    let na = T::ZERO.sub_spec(a);
    lemma_field(a, na, a);
    lemma_field(na, a, a);
    lemma_neg_unique(na, a);
}

/// `(a + b) - a = b`.
pub proof fn lemma_add_sub_cancel<T: Float>(a: T, b: T)
    requires
        exact_arithmetic::<T>(),
    ensures
        a.add_spec(b).sub_spec(a) == b,
{
    let na = T::ZERO.sub_spec(a);
    lemma_field(a.add_spec(b), a, a);
    lemma_field(b, a, na);
    lemma_field(a, b, na);
    lemma_field(a, na, a);
    lemma_field(b, T::ZERO, a);
}

/// `a - (a - b) = b`.
pub proof fn lemma_sub_sub_cancel<T: Float>(a: T, b: T)
    requires
        exact_arithmetic::<T>(),
    ensures
        a.sub_spec(a.sub_spec(b)) == b,
{
    let z = T::ZERO;
    let d = a.sub_spec(b);
    // d + (b - a) = 0
    let e = b.sub_spec(a);
    let nb = z.sub_spec(b);
    let na = z.sub_spec(a);
    lemma_field(a, b, a);
    lemma_field(b, a, a);
    lemma_field(a, nb, b.add_spec(na));
    lemma_field(nb, b, na);
    lemma_field(b, nb, na);
    lemma_field(a, na, a);
    lemma_field(z, na, z);
    lemma_field(na, z, z);
    assert(d == a.add_spec(nb));
    assert(e == b.add_spec(na));
    assert(d.add_spec(e) == a.add_spec(nb.add_spec(b.add_spec(na))));
    assert(nb.add_spec(b.add_spec(na)) == nb.add_spec(b).add_spec(na));
    assert(nb.add_spec(b) == z);
    assert(z.add_spec(na) == na);
    assert(d.add_spec(e) == z);
    lemma_neg_unique(d, e);
    // a - d = a + (0 - d) = a + e = a + (b - a) = b
    lemma_field(a, d, a);
    lemma_field(a, e, a);
    lemma_add_sub_cancel(a, b);
    lemma_field(a.add_spec(b), a, a);
    lemma_field(a, b, na);
    lemma_field(b, a, na);
    lemma_field(b, z, z);
}

/// `(0 - a) · b = 0 - a · b`.
pub proof fn lemma_neg_mul<T: Float>(a: T, b: T)
    requires
        exact_arithmetic::<T>(),
    ensures
        T::ZERO.sub_spec(a).mul_spec(b) == T::ZERO.sub_spec(a.mul_spec(b)),
{
    let z = T::ZERO;
    let na = z.sub_spec(a);
    // a·b + (0 - a)·b = b·(a + (0 - a)) = b·0 = 0
    lemma_field(b, a, na);
    lemma_field(a, b, z);
    lemma_field(na, b, z);
    lemma_field(a, na, z);
    lemma_mul_zero(b);
    lemma_neg_unique(a.mul_spec(b), na.mul_spec(b));
}

/// `(a - b) · c = a · c - b · c`.
pub proof fn lemma_sub_mul<T: Float>(a: T, b: T, c: T)
    requires
        exact_arithmetic::<T>(),
    ensures
        a.sub_spec(b).mul_spec(c) == a.mul_spec(c).sub_spec(b.mul_spec(c)),
{
    let nb = T::ZERO.sub_spec(b);
    lemma_field(a, b, c);
    lemma_field(c, a, nb);
    lemma_field(a.add_spec(nb), c, c);
    lemma_field(a, c, c);
    lemma_field(nb, c, c);
    lemma_neg_mul(b, c);
    lemma_field(a.mul_spec(c), b.mul_spec(c), c);
}

/// `(a + b) · c = a · c + b · c`.
pub proof fn lemma_add_mul<T: Float>(a: T, b: T, c: T)
    requires
        exact_arithmetic::<T>(),
    ensures
        a.add_spec(b).mul_spec(c) == a.mul_spec(c).add_spec(b.mul_spec(c)),
{
    lemma_field(c, a, b);
    lemma_field(a.add_spec(b), c, c);
    lemma_field(a, c, c);
    lemma_field(b, c, c);
}

/// `0 - (a - b) = b - a`.
pub proof fn lemma_neg_sub<T: Float>(a: T, b: T)
    requires
        exact_arithmetic::<T>(),
    ensures
        T::ZERO.sub_spec(a.sub_spec(b)) == b.sub_spec(a),
{
    lemma_sub_sub_cancel(a, b);
    let z = T::ZERO;
    let d = a.sub_spec(b);
    let na = z.sub_spec(a);
    // d + (b - a) = 0, as in lemma_sub_sub_cancel
    let nb = z.sub_spec(b);
    let e = b.sub_spec(a);
    lemma_field(a, b, a);
    lemma_field(b, a, a);
    lemma_field(a, nb, b.add_spec(na));
    lemma_field(nb, b, na);
    lemma_field(b, nb, na);
    lemma_field(a, na, a);
    lemma_field(z, na, z);
    lemma_field(na, z, z);
    assert(d.add_spec(e) == a.add_spec(nb.add_spec(b.add_spec(na))));
    assert(nb.add_spec(b.add_spec(na)) == nb.add_spec(b).add_spec(na));
    lemma_neg_unique(d, e);
}

/// `(p + t) - (t - q) = p + q`.
pub proof fn lemma_add_sub_swap<T: Float>(p: T, t: T, q: T)
    requires
        exact_arithmetic::<T>(),
    ensures
        p.add_spec(t).sub_spec(t.sub_spec(q)) == p.add_spec(q),
{
    let z = T::ZERO;
    let nt = z.sub_spec(t);
    lemma_neg_sub(t, q);
    // (p + t) - (t - q) = (p + t) + (q - t) = (p + t) + (q + nt)
    lemma_field(p.add_spec(t), t.sub_spec(q), z);
    lemma_field(q, t, z);
    // (p + t) + (q + nt) = p + (t + (q + nt)) = p + ((t + q) + nt) = p + ((q + t) + nt)
    //   = p + (q + (t + nt)) = p + (q + 0) = p + q
    lemma_field(p, t, q.add_spec(nt));
    lemma_field(t, q, nt);
    lemma_field(q, t, nt);
    lemma_field(t, nt, z);
    lemma_field(q, z, z);
}

/// `(s + x) + (y - s) = y + x`.
pub proof fn lemma_add_add_sub<T: Float>(s: T, x: T, y: T)
    requires
        exact_arithmetic::<T>(),
    ensures
        s.add_spec(x).add_spec(y.sub_spec(s)) == y.add_spec(x),
{
    let z = T::ZERO;
    let ns = z.sub_spec(s);
    lemma_field(y, s, z);
    // (s + x) + (y + ns) = (x + s) + (y + ns) = x + (s + (y + ns)) = x + ((s + y) + ns)
    //   = x + ((y + s) + ns) = x + (y + (s + ns)) = x + (y + 0) = x + y = y + x
    lemma_field(s, x, z);
    lemma_field(x, s, y.add_spec(ns));
    lemma_field(s, y, ns);
    lemma_field(y, s, ns);
    lemma_field(s, ns, z);
    lemma_field(y, z, z);
    lemma_field(x, y, z);
}

/// `x - y = 0` makes `x = y`.
pub proof fn lemma_sub_zero<T: Float>(x: T, y: T)
    requires
        exact_arithmetic::<T>(),
        x.sub_spec(y) == T::ZERO,
    ensures
        x == y,
{
    let z = T::ZERO;
    let ny = z.sub_spec(y);
    lemma_field(x, y, z);
    lemma_neg_unique(x, ny);
    lemma_neg_neg(x);
    lemma_neg_neg(y);
}

/// Cancelling a nonzero factor: `x · d = y · d` with `d ≠ 0` makes `x = y`.
pub proof fn lemma_mul_cancel<T: Float>(x: T, y: T, d: T)
    requires
        exact_arithmetic::<T>(),
        d != T::ZERO,
        x.mul_spec(d) == y.mul_spec(d),
    ensures
        x == y,
{
    let z = T::ZERO;
    lemma_sub_mul(x, y, d);
    let w = y.mul_spec(d);
    lemma_field(w, w, z);
    lemma_field(x.sub_spec(y), d, z);
    lemma_sub_zero(x, y);
}

/// Complex multiplication commutes.
pub proof fn lemma_complex_mul_commutes<T: Float>(z: Complex<T>, w: Complex<T>)
    requires
        exact_arithmetic::<T>(),
    ensures
        z.mul_spec(w) == w.mul_spec(z),
{
    lemma_field(z.re, w.re, z.re);
    lemma_field(z.im, w.im, z.re);
    lemma_field(z.re, w.im, z.re);
    lemma_field(z.im, w.re, z.re);
    lemma_field(w.re.mul_spec(z.im), w.im.mul_spec(z.re), z.re);
}

/// Squaring is multiplying by itself: `z² = z · z`.
pub proof fn lemma_sq_is_mul<T: Float>(z: Complex<T>)
    requires
        exact_arithmetic::<T>(),
    ensures
        z.sq_spec() == z.mul_spec(z),
{
    let a = z.re;
    let b = z.im;
    let one = T::ONE;
    // 2·a = (1 + 1)·a = a·(1 + 1) = a·1 + a·1 = a + a
    lemma_field(one.add_spec(one), a, a);
    lemma_field(a, one, one);
    // (a + a)·b = a·b + a·b, and b·a = a·b
    lemma_add_mul(a, a, b);
    lemma_field(a, b, a);
}

/// Complex division undone by multiplication: `(f / d) · d = f` when
/// `|d|² ≠ 0`.
pub proof fn lemma_complex_div_mul<T: Float>(f: Complex<T>, d: Complex<T>)
    requires
        exact_arithmetic::<T>(),
        d.modulus_sq_spec() != T::ZERO,
    ensures
        f.div_spec(d).mul_spec(d) == f,
{
    let a = f.re;
    let b = f.im;
    let c = d.re;
    let e = d.im;
    let den = d.modulus_sq_spec();
    let p = a.mul_spec(c).add_spec(b.mul_spec(e));
    let q = b.mul_spec(c).sub_spec(a.mul_spec(e));
    let u = p.div_spec(den);
    let v = q.div_spec(den);
    assert(f.div_spec(d) == Complex { re: u, im: v });
    lemma_field(p, den, den);
    lemma_field(q, den, den);
    // (u·k)·den = (u·den)·k for any k
    lemma_field(u, c, den);
    lemma_field(c, den, u);
    lemma_field(u, den, c);
    lemma_field(v, e, den);
    lemma_field(e, den, v);
    lemma_field(v, den, e);
    lemma_field(u, e, den);
    lemma_field(e, den, u);
    lemma_field(u, den, e);
    lemma_field(v, c, den);
    lemma_field(c, den, v);
    lemma_field(v, den, c);
    // a·den = a·(c·c) + a·(e·e), and likewise for b
    lemma_field(a, c.mul_spec(c), e.mul_spec(e));
    lemma_field(b, c.mul_spec(c), e.mul_spec(e));
    lemma_field(a, c, c);
    lemma_field(a, e, e);
    lemma_field(b, c, c);
    lemma_field(b, e, e);
    lemma_field(b, e, c);
    lemma_field(e, c, b);
    lemma_field(b, c, e);
    lemma_field(a, c, e);
    lemma_field(c, e, a);
    lemma_field(a, e, c);

    // Real part: (u·c - v·e)·den = p·c - q·e = a·den.
    let x = u.mul_spec(c).sub_spec(v.mul_spec(e));
    lemma_sub_mul(u.mul_spec(c), v.mul_spec(e), den);
    assert(u.mul_spec(c).mul_spec(den) == p.mul_spec(c));
    assert(v.mul_spec(e).mul_spec(den) == q.mul_spec(e));
    lemma_add_mul(a.mul_spec(c), b.mul_spec(e), c);
    lemma_sub_mul(b.mul_spec(c), a.mul_spec(e), e);
    assert(b.mul_spec(e).mul_spec(c) == b.mul_spec(c).mul_spec(e));
    lemma_add_sub_swap(a.mul_spec(c).mul_spec(c), b.mul_spec(c).mul_spec(e), a.mul_spec(e).mul_spec(e));
    assert(x.mul_spec(den) == a.mul_spec(den));
    lemma_mul_cancel(x, a, den);

    // Imaginary part: (u·e + v·c)·den = p·e + q·c = b·den.
    let y = u.mul_spec(e).add_spec(v.mul_spec(c));
    lemma_add_mul(u.mul_spec(e), v.mul_spec(c), den);
    assert(u.mul_spec(e).mul_spec(den) == p.mul_spec(e));
    assert(v.mul_spec(c).mul_spec(den) == q.mul_spec(c));
    lemma_add_mul(a.mul_spec(c), b.mul_spec(e), e);
    lemma_sub_mul(b.mul_spec(c), a.mul_spec(e), c);
    assert(a.mul_spec(c).mul_spec(e) == a.mul_spec(e).mul_spec(c));
    lemma_add_add_sub(a.mul_spec(c).mul_spec(e), b.mul_spec(e).mul_spec(e), b.mul_spec(c).mul_spec(c));
    assert(y.mul_spec(den) == b.mul_spec(den));
    lemma_mul_cancel(y, b, den);
}

/// `z - (z - w) = w` for complex numbers.
pub proof fn lemma_complex_sub_sub<T: Float>(z: Complex<T>, w: Complex<T>)
    requires
        exact_arithmetic::<T>(),
    ensures
        z.sub_spec(z.sub_spec(w)) == w,
{
    lemma_sub_sub_cancel(z.re, w.re);
    lemma_sub_sub_cancel(z.im, w.im);
}

/// Dividing by a ratio: `(x / (p / q)) · p = x · q` when `p ≠ 0` and `q ≠ 0`.
pub proof fn lemma_div_by_ratio<T: Float>(x: T, p: T, q: T)
    requires
        exact_arithmetic::<T>(),
        p != T::ZERO,
        q != T::ZERO,
    ensures
        x.div_spec(p.div_spec(q)).mul_spec(p) == x.mul_spec(q),
{
    let r = p.div_spec(q);
    let y = x.div_spec(r);
    lemma_field(p, q, q);
    if r == T::ZERO {
        lemma_mul_zero(q);
        assert(false);
    }
    lemma_field(x, r, r);
    lemma_field(y, r, q);
}

/// `(x - h) + h = x`.
pub proof fn lemma_sub_add_cancel<T: Float>(x: T, h: T)
    requires
        exact_arithmetic::<T>(),
    ensures
        x.sub_spec(h).add_spec(h) == x,
{
    let nh = T::ZERO.sub_spec(h);
    lemma_field(x, h, T::ZERO);
    lemma_field(x, nh, h);
    lemma_field(nh, h, T::ZERO);
    lemma_field(h, nh, T::ZERO);
}

/// `(s · (1 / n)) · n = s` when `n ≠ 0`.
pub proof fn lemma_mul_reciprocal<T: Float>(s: T, n: T)
    requires
        exact_arithmetic::<T>(),
        n != T::ZERO,
    ensures
        s.mul_spec(T::ONE.div_spec(n)).mul_spec(n) == s,
{
    lemma_field(T::ONE, n, n);
    lemma_field(s, T::ONE.div_spec(n), n);
    lemma_field(s, T::ONE, T::ONE);
}

/// `(x / n) · n = x` when `n ≠ 0`.
pub proof fn lemma_div_mul_cancel<T: Float>(x: T, n: T)
    requires
        exact_arithmetic::<T>(),
        n != T::ZERO,
    ensures
        x.div_spec(n).mul_spec(n) == x,
{
    lemma_field(x, n, n);
}

/// The squared modulus is the product with the conjugate:
/// `z · conj(z) = |z|² + 0i`.
pub proof fn lemma_modulus_sq_is_norm<T: Float>(z: Complex<T>)
    requires
        exact_arithmetic::<T>(),
    ensures
        z.mul_spec(Complex { re: z.re, im: T::ZERO.sub_spec(z.im) }) == (Complex {
            re: z.modulus_sq_spec(),
            im: T::ZERO,
        }),
{
    let a = z.re;
    let b = z.im;
    let nb = T::ZERO.sub_spec(b);
    // re: a·a - b·(0 - b) = a·a + b·b
    lemma_field(b, nb, a);
    lemma_field(nb, b, a);
    lemma_neg_mul(b, b);
    lemma_field(a.mul_spec(a), T::ZERO.sub_spec(b.mul_spec(b)), a);
    lemma_neg_neg(b.mul_spec(b));
    // im: a·(0 - b) + b·a = 0 - a·b + a·b = 0
    lemma_field(a, nb, a);
    lemma_neg_mul(b, a);
    lemma_field(b, a, a);
    lemma_field(T::ZERO.sub_spec(b.mul_spec(a)), b.mul_spec(a), a);
    lemma_field(b.mul_spec(a), T::ZERO.sub_spec(b.mul_spec(a)), a);
}

/// `1` is the identity of complex multiplication and `0` of complex
/// addition.
pub proof fn lemma_complex_identities<T: Float>(z: Complex<T>)
    requires
        exact_arithmetic::<T>(),
    ensures
        z.mul_spec(Complex::one_spec()) == z,
        z.add_spec(Complex::zero_spec()) == z,
{
    let a = z.re;
    let b = z.im;
    lemma_field(a, T::ONE, T::ZERO);
    lemma_field(b, T::ONE, T::ZERO);
    lemma_mul_zero(a);
    lemma_mul_zero(b);
    lemma_field(a, T::ZERO, T::ZERO);
    lemma_field(T::ZERO, b, T::ZERO);
    lemma_field(b, T::ZERO, T::ZERO);
    lemma_field(T::ZERO, T::ZERO, T::ZERO);
    lemma_field(a, T::ZERO, T::ZERO);
}

/// `(z + w) - z = w` for complex numbers.
pub proof fn lemma_complex_add_sub<T: Float>(z: Complex<T>, w: Complex<T>)
    requires
        exact_arithmetic::<T>(),
    ensures
        z.add_spec(w).sub_spec(z) == w,
{
    lemma_add_sub_cancel(z.re, w.re);
    lemma_add_sub_cancel(z.im, w.im);
}

} // verus!
