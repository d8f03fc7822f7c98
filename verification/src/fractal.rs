use vstd::prelude::*;
use crate::algebra::{
    exact_arithmetic, lemma_complex_div_mul, lemma_complex_mul_commutes, lemma_complex_sub_sub,
    lemma_sq_is_mul,
};
use crate::number::{Complex, Float};

verus! {

/// The state of one point's iteration.
#[derive(Copy, Clone)]
pub struct Orbit<T: Float> {
    pub z: Complex<T>,
    pub c: Complex<T>,
    pub z_prev: Complex<T>,
}

/// How an iteration ended: the orbit met the fractal's stop condition at
/// iteration `iter` with value `z`, or the iteration budget ran out first.
pub enum Outcome<T: Float> {
    Terminated { z: Complex<T>, iter: u32 },
    Exhausted,
}

/// The continuous (smoothed) escape count of a point that escaped at `iter`
/// with value `z`, clamped below at zero.
pub open spec fn smooth_spec<T: Float>(z: Complex<T>, iter: u32) -> T {
    let log_zn = T::HALF.mul_spec(z.modulus_sq_spec().ln_spec());
    let nu = log_zn.div_spec(T::LN_2).ln_spec().div_spec(T::LN_2);
    let mu = T::from_u32_spec(iter).add_spec(T::ONE).sub_spec(nu);
    if T::ZERO.lt_spec(mu) {
        mu
    } else {
        T::ZERO
    }
}

pub fn smooth<T: Float>(z: Complex<T>, iter: u32) -> (r: T)
    ensures
        r == smooth_spec(z, iter),
        r == T::ZERO || T::ZERO.lt_spec(r),
{
    let log_zn = T::HALF.mul(z.modulus_sq().approximate_ln());
    let nu = log_zn.div(T::LN_2).approximate_ln().div(T::LN_2);
    let mu = T::from_u32(iter).add(T::ONE).sub(nu);
    if T::ZERO.lt(mu) {
        mu
    } else {
        T::ZERO
    }
}

/// The escape test shared by the quadratic fractals: `|z|² > 4`.
pub open spec fn beyond_radius<T: Float>(orbit: Orbit<T>) -> bool {
    T::FOUR.lt_spec(orbit.z.modulus_sq_spec())
}

/// The measure shared by the escape-time fractals: the smoothed count of a
/// terminated orbit, zero for an exhausted one.
pub open spec fn smooth_measure<T: Float>(outcome: Outcome<T>) -> T {
    match outcome {
        Outcome::Terminated { z, iter } => smooth_spec(z, iter),
        Outcome::Exhausted => T::ZERO,
    }
}

fn escape_test<T: Float>(orbit: Orbit<T>) -> (r: bool)
    ensures
        r == beyond_radius(orbit),
{
    T::FOUR.lt(orbit.z.modulus_sq())
}

fn smooth_outcome<T: Float>(outcome: Outcome<T>) -> (r: T)
    ensures
        r == smooth_measure(outcome),
{
    match outcome {
        Outcome::Terminated { z, iter } => smooth(z, iter),
        Outcome::Exhausted => T::ZERO,
    }
}

/// An iterated map on the complex plane.
///
/// An implementation names its start state, its step, its stop condition and
/// its measure as spec functions; `run` iterates it.
pub trait Fractal<T: Float>: Copy + Sized {
    spec fn setup_spec(self, pixel: Complex<T>) -> Orbit<T>;

    spec fn step_spec(self, orbit: Orbit<T>) -> Orbit<T>;

    spec fn terminated_spec(self, orbit: Orbit<T>) -> bool;

    spec fn measure_spec(self, outcome: Outcome<T>) -> T;

    fn setup(self, pixel: Complex<T>) -> (r: Orbit<T>)
        ensures
            r == self.setup_spec(pixel),
    ;

    fn step(self, orbit: Orbit<T>) -> (r: Orbit<T>)
        ensures
            r == self.step_spec(orbit),
    ;

    fn terminated(self, orbit: Orbit<T>) -> (r: bool)
        ensures
            r == self.terminated_spec(orbit),
    ;

    fn measure(self, outcome: Outcome<T>) -> (r: T)
        ensures
            r == self.measure_spec(outcome),
    ;
}

/// Running a fractal: implemented once, for every `Fractal`.
pub trait Iterate<T: Float>: Fractal<T> {
    /// Iterates from `setup(pixel)` for at most `max_iter` steps and reports
    /// the first iteration whose orbit meets the stop condition.
    fn run(self, pixel: Complex<T>, max_iter: u32) -> (r: Outcome<T>)
        ensures
            r == escape(self, pixel, max_iter),
            match r {
                Outcome::Terminated { z, iter } => {
                    &&& iter < max_iter
                    &&& self.terminated_spec(orbit_at(self, pixel, iter as nat))
                    &&& z == orbit_at(self, pixel, iter as nat).z
                    &&& forall|j: nat| j < iter ==> !self.terminated_spec(#[trigger] orbit_at(self, pixel, j))
                },
                Outcome::Exhausted => forall|j: nat|
                    j < max_iter ==> !self.terminated_spec(#[trigger] orbit_at(self, pixel, j)),
            },
    {
        let mut orbit = self.setup(pixel);
        let mut iter: u32 = 0;
        while iter < max_iter
            invariant
                iter <= max_iter,
                orbit == orbit_at(self, pixel, iter as nat),
                escape(self, pixel, max_iter) == escape_from(self, pixel, iter as nat, max_iter as nat),
            decreases max_iter - iter,
        {
            if self.terminated(orbit) {
                proof {
                    lemma_escape_characterized(self, pixel, max_iter);
                }
                return Outcome::Terminated { z: orbit.z, iter };
            }
            orbit = self.step(orbit);
            iter += 1;
        }
        proof {
            lemma_escape_characterized(self, pixel, max_iter);
        }
        Outcome::Exhausted
    }
}

impl<T: Float, F: Fractal<T>> Iterate<T> for F {
}

/// The orbit after `k` steps from the start state of `pixel`.
pub open spec fn orbit_at<T: Float, F: Fractal<T>>(f: F, pixel: Complex<T>, k: nat) -> Orbit<T>
    decreases k,
{
    if k == 0 {
        f.setup_spec(pixel)
    } else {
        f.step_spec(orbit_at(f, pixel, (k - 1) as nat))
    }
}

/// The outcome of iterating from step `iter` on, with the budget `max_iter`.
pub open spec fn escape_from<T: Float, F: Fractal<T>>(
    f: F,
    pixel: Complex<T>,
    iter: nat,
    max_iter: nat,
) -> Outcome<T>
    decreases max_iter - iter,
{
    if iter >= max_iter {
        Outcome::Exhausted
    } else if f.terminated_spec(orbit_at(f, pixel, iter)) {
        Outcome::Terminated { z: orbit_at(f, pixel, iter).z, iter: iter as u32 }
    } else {
        escape_from(f, pixel, iter + 1, max_iter)
    }
}

/// The outcome of iterating `pixel` with the budget `max_iter`.
pub open spec fn escape<T: Float, F: Fractal<T>>(f: F, pixel: Complex<T>, max_iter: u32) -> Outcome<T> {
    escape_from(f, pixel, 0, max_iter as nat)
}

/// The outcome of `escape_from(f, pixel, start, max_iter)` when no orbit in
/// `[start, max_iter)` stops before `k`.
proof fn lemma_escape_from_skip<T: Float, F: Fractal<T>>(
    f: F,
    pixel: Complex<T>,
    start: nat,
    k: nat,
    max_iter: nat,
)
    requires
        start <= k <= max_iter,
        forall|j: nat| start <= j < k ==> !f.terminated_spec(#[trigger] orbit_at(f, pixel, j)),
    ensures
        escape_from(f, pixel, start, max_iter) == escape_from(f, pixel, k, max_iter),
    decreases k - start,
{
    if start < k {
        assert(!f.terminated_spec(orbit_at(f, pixel, start)));
        lemma_escape_from_skip(f, pixel, start + 1, k, max_iter);
    }
}

/// The outcome of an iteration is its first stop within the budget, or
/// `Exhausted` when no orbit within the budget stops.
pub proof fn lemma_escape_characterized<T: Float, F: Fractal<T>>(
    f: F,
    pixel: Complex<T>,
    max_iter: u32,
)
    ensures
        match escape(f, pixel, max_iter) {
            Outcome::Terminated { z, iter } => {
                &&& iter < max_iter
                &&& f.terminated_spec(orbit_at(f, pixel, iter as nat))
                &&& z == orbit_at(f, pixel, iter as nat).z
                &&& forall|j: nat| j < iter ==> !f.terminated_spec(#[trigger] orbit_at(f, pixel, j))
            },
            Outcome::Exhausted => forall|j: nat|
                j < max_iter ==> !f.terminated_spec(#[trigger] orbit_at(f, pixel, j)),
        },
{
    lemma_escape_from_characterized(f, pixel, 0, max_iter as nat);
}

/// A larger budget does not change a stop found within a smaller one, and a
/// smaller budget does not find a stop that a larger one missed.
pub proof fn lemma_escape_budget<T: Float, F: Fractal<T>>(
    f: F,
    pixel: Complex<T>,
    max_iter: u32,
    other_max_iter: u32,
)
    ensures
        escape(f, pixel, max_iter) matches Outcome::Terminated { iter, .. } && iter < other_max_iter
            ==> escape(f, pixel, other_max_iter) == escape(f, pixel, max_iter),
        escape(f, pixel, max_iter) is Exhausted && other_max_iter <= max_iter ==> escape(
            f,
            pixel,
            other_max_iter,
        ) is Exhausted,
{
    lemma_escape_characterized(f, pixel, max_iter);
    match escape(f, pixel, max_iter) {
        Outcome::Terminated { z, iter } => {
            if iter < other_max_iter {
                lemma_escape_from_skip(f, pixel, 0, iter as nat, other_max_iter as nat);
            }
        },
        Outcome::Exhausted => {
            if other_max_iter <= max_iter {
                lemma_escape_from_skip(f, pixel, 0, other_max_iter as nat, other_max_iter as nat);
            }
        },
    }
}

/// For a fractal whose step never changes the parameter `c`, every orbit of
/// the iteration carries the parameter that `setup` chose.
pub proof fn lemma_parameter_fixed<T: Float, F: Fractal<T>>(f: F, pixel: Complex<T>, k: nat)
    requires
        forall|o: Orbit<T>| (#[trigger] f.step_spec(o)).c == o.c,
    ensures
        orbit_at(f, pixel, k).c == f.setup_spec(pixel).c,
    decreases k,
{
    if k > 0 {
        lemma_parameter_fixed(f, pixel, (k - 1) as nat);
        assert(f.step_spec(orbit_at(f, pixel, (k - 1) as nat)).c == orbit_at(
            f,
            pixel,
            (k - 1) as nat,
        ).c);
    }
}

/// Every Mandelbrot orbit of a pixel has that pixel as its parameter.
pub proof fn lemma_mandelbrot_parameter<T: Float>(pixel: Complex<T>, k: nat)
    ensures
        orbit_at(Mandelbrot, pixel, k).c == pixel,
{
    lemma_parameter_fixed::<T, Mandelbrot>(Mandelbrot, pixel, k);
}

/// Every Julia orbit has the set's constant as its parameter.
pub proof fn lemma_julia_parameter<T: Float>(julia: Julia<T>, pixel: Complex<T>, k: nat)
    ensures
        orbit_at(julia, pixel, k).c == julia.c,
{
    lemma_parameter_fixed(julia, pixel, k);
}

/// Every Phoenix orbit has the set's constant as its parameter.
pub proof fn lemma_phoenix_parameter<T: Float>(phoenix: Phoenix<T>, pixel: Complex<T>, k: nat)
    ensures
        orbit_at(phoenix, pixel, k).c == phoenix.c,
{
    lemma_parameter_fixed(phoenix, pixel, k);
}

/// Every Newton orbit has parameter zero.
pub proof fn lemma_newton_parameter<T: Float>(newton: Newton<T>, pixel: Complex<T>, k: nat)
    ensures
        orbit_at(newton, pixel, k).c == Complex::<T>::zero_spec(),
{
    lemma_parameter_fixed(newton, pixel, k);
}

/// The smoothed count depends on `z` only through `|z|²`: two points with
/// the same squared modulus that escaped at the same iteration get the same
/// value.
pub proof fn lemma_smooth_depends_on_modulus<T: Float>(z1: Complex<T>, z2: Complex<T>, iter: u32)
    requires
        z1.modulus_sq_spec() == z2.modulus_sq_spec(),
    ensures
        smooth_spec(z1, iter) == smooth_spec(z2, iter),
{
}

/// A Julia step with constant `c` is the Mandelbrot step of an orbit whose
/// parameter is `c`.
pub proof fn lemma_julia_step_is_mandelbrot_step<T: Float>(julia: Julia<T>, orbit: Orbit<T>)
    requires
        orbit.c == julia.c,
    ensures
        julia.step_spec(orbit) == Fractal::<T>::step_spec(Mandelbrot, orbit),
{
}

/// A Julia orbit for `c` started where the Mandelbrot orbit of `c` stands
/// after `m` steps continues that Mandelbrot orbit step for step.
pub proof fn lemma_julia_continues_mandelbrot<T: Float>(julia: Julia<T>, m: nat, k: nat)
    ensures
        orbit_at(julia, orbit_at(Mandelbrot, julia.c, m).z, k).z == orbit_at(
            Mandelbrot,
            julia.c,
            m + k,
        ).z,
        orbit_at(julia, orbit_at(Mandelbrot, julia.c, m).z, k).c == orbit_at(
            Mandelbrot,
            julia.c,
            m + k,
        ).c,
    decreases k,
{
    lemma_mandelbrot_parameter::<T>(julia.c, m + k);
    if k > 0 {
        lemma_julia_continues_mandelbrot(julia, m, (k - 1) as nat);
        lemma_mandelbrot_parameter::<T>(julia.c, (m + k - 1) as nat);
        assert(orbit_at(Mandelbrot, julia.c, m + k) == Fractal::<T>::step_spec(
            Mandelbrot,
            orbit_at(Mandelbrot, julia.c, (m + k - 1) as nat),
        ));
    }
}

/// In exact arithmetic a Julia step squares `z` as a complex number and adds
/// the constant: `step(z) = z · z + c`.
pub proof fn lemma_julia_step_exact<T: Float>(julia: Julia<T>, orbit: Orbit<T>)
    requires
        exact_arithmetic::<T>(),
    ensures
        julia.step_spec(orbit).z == orbit.z.mul_spec(orbit.z).add_spec(orbit.c),
{
    lemma_sq_is_mul(orbit.z);
}

/// In exact arithmetic a Mandelbrot step squares `z` as a complex number and
/// adds the pixel: `step(z) = z · z + c`.
pub proof fn lemma_mandelbrot_step_exact<T: Float>(orbit: Orbit<T>)
    requires
        exact_arithmetic::<T>(),
    ensures
        Fractal::<T>::step_spec(Mandelbrot, orbit).z == orbit.z.mul_spec(orbit.z).add_spec(orbit.c),
{
    lemma_sq_is_mul(orbit.z);
}

/// In exact arithmetic a Newton step is a Newton step for `f(z) = z³ - 1`:
/// with `f'(z) = 3 · z · z` (a complex product), the correction `z - step(z)`
/// times `f'(z)` is `f(z) = z · z · z - 1`, wherever `|f'(z)|² ≠ 0`.
pub proof fn lemma_newton_step_exact<T: Float>(newton: Newton<T>, orbit: Orbit<T>)
    requires
        exact_arithmetic::<T>(),
        Complex::<T>::from_u32_spec(3).mul_spec(orbit.z.mul_spec(orbit.z)).modulus_sq_spec() != T::ZERO,
    ensures
        orbit.z.sub_spec(newton.step_spec(orbit).z).mul_spec(
            Complex::<T>::from_u32_spec(3).mul_spec(orbit.z.mul_spec(orbit.z)),
        ) == orbit.z.mul_spec(orbit.z).mul_spec(orbit.z).sub_spec(Complex::one_spec()),
{
    let z = orbit.z;
    let three = Complex::<T>::from_u32_spec(3);
    let d = three.mul_spec(z.mul_spec(z));
    let f = z.mul_spec(z).mul_spec(z).sub_spec(Complex::one_spec());
    lemma_sq_is_mul(z);
    lemma_complex_mul_commutes(z.mul_spec(z), three);
    assert(z.sq_spec().mul_spec(three) == d);
    assert(cubic_residual(z) == f);
    let q = f.div_spec(d);
    assert(newton.step_spec(orbit).z == z.sub_spec(q));
    lemma_complex_sub_sub(z, q);
    lemma_complex_div_mul(f, d);
}

/// In exact arithmetic a Phoenix step is `z · z + c + p · z_prev`.
pub proof fn lemma_phoenix_step_exact<T: Float>(phoenix: Phoenix<T>, orbit: Orbit<T>)
    requires
        exact_arithmetic::<T>(),
    ensures
        phoenix.step_spec(orbit).z == orbit.z.mul_spec(orbit.z).add_spec(orbit.c).add_spec(
            phoenix.p.mul_spec(orbit.z_prev),
        ),
{
    lemma_sq_is_mul(orbit.z);
}

/// The escape test of the quadratic fractals looks at `|z|²` alone: an orbit
/// stops once `|z|² > 4`, so two orbits whose values have the same squared
/// modulus both stop or both go on.
pub proof fn lemma_escape_test_depends_on_modulus<T: Float>(
    julia: Julia<T>,
    phoenix: Phoenix<T>,
    o1: Orbit<T>,
    o2: Orbit<T>,
)
    requires
        o1.z.modulus_sq_spec() == o2.z.modulus_sq_spec(),
    ensures
        Fractal::<T>::terminated_spec(Mandelbrot, o1) == Fractal::<T>::terminated_spec(Mandelbrot, o2),
        julia.terminated_spec(o1) == julia.terminated_spec(o2),
        phoenix.terminated_spec(o1) == phoenix.terminated_spec(o2),
        Fractal::<T>::terminated_spec(Mandelbrot, o1) == T::FOUR.lt_spec(o1.z.modulus_sq_spec()),
        julia.terminated_spec(o1) == T::FOUR.lt_spec(o1.z.modulus_sq_spec()),
        phoenix.terminated_spec(o1) == T::FOUR.lt_spec(o1.z.modulus_sq_spec()),
{
}

/// In exact arithmetic Newton's stop condition is `|z · z · z - 1|² < tol²`.
pub proof fn lemma_newton_stop_exact<T: Float>(newton: Newton<T>, orbit: Orbit<T>)
    requires
        exact_arithmetic::<T>(),
    ensures
        newton.terminated_spec(orbit) == orbit.z.mul_spec(orbit.z).mul_spec(orbit.z).sub_spec(
            Complex::one_spec(),
        ).modulus_sq_spec().lt_spec(newton.tol.mul_spec(newton.tol)),
{
    lemma_sq_is_mul(orbit.z);
}

/// Newton's measure counts steps: it does not depend on where the orbit
/// stopped, and it grows with the number of steps exactly as `from_u32` does.
pub proof fn lemma_newton_measure_counts<T: Float>(
    newton: Newton<T>,
    z1: Complex<T>,
    z2: Complex<T>,
    iter: u32,
)
    ensures
        newton.measure_spec(Outcome::Terminated { z: z1, iter }) == newton.measure_spec(
            Outcome::Terminated { z: z2, iter },
        ),
        newton.measure_spec(Outcome::Terminated { z: z1, iter }) == T::from_u32_spec(iter),
        newton.measure_spec(Outcome::Exhausted) == T::ZERO,
{
}

/// A Phoenix step moves the current value into `z_prev`: after one or more
/// steps, `z_prev` is the orbit's value one step earlier.
pub proof fn lemma_phoenix_history<T: Float>(phoenix: Phoenix<T>, pixel: Complex<T>, k: nat)
    requires
        k > 0,
    ensures
        orbit_at(phoenix, pixel, k).z_prev == orbit_at(phoenix, pixel, (k - 1) as nat).z,
{
}

proof fn lemma_escape_from_characterized<T: Float, F: Fractal<T>>(
    f: F,
    pixel: Complex<T>,
    start: nat,
    max_iter: nat,
)
    requires
        max_iter <= u32::MAX,
    ensures
        match escape_from(f, pixel, start, max_iter) {
            Outcome::Terminated { z, iter } => {
                &&& start <= iter < max_iter
                &&& f.terminated_spec(orbit_at(f, pixel, iter as nat))
                &&& z == orbit_at(f, pixel, iter as nat).z
                &&& forall|j: nat| start <= j < iter ==> !f.terminated_spec(#[trigger] orbit_at(f, pixel, j))
            },
            Outcome::Exhausted => forall|j: nat|
                start <= j < max_iter ==> !f.terminated_spec(#[trigger] orbit_at(f, pixel, j)),
        },
    decreases max_iter - start,
{
    if start < max_iter && !f.terminated_spec(orbit_at(f, pixel, start)) {
        lemma_escape_from_characterized(f, pixel, start + 1, max_iter);
    }
}

/// `z ↦ z² + c`, started at `z = 0` with `c` the pixel.
#[derive(Copy, Clone)]
pub struct Mandelbrot;

impl<T: Float> Fractal<T> for Mandelbrot {
    open spec fn setup_spec(self, pixel: Complex<T>) -> Orbit<T> {
        Orbit { z: Complex::zero_spec(), c: pixel, z_prev: Complex::zero_spec() }
    }

    open spec fn step_spec(self, orbit: Orbit<T>) -> Orbit<T> {
        Orbit { z: orbit.z.sq_spec().add_spec(orbit.c), c: orbit.c, z_prev: orbit.z_prev }
    }

    open spec fn terminated_spec(self, orbit: Orbit<T>) -> bool {
        beyond_radius(orbit)
    }

    open spec fn measure_spec(self, outcome: Outcome<T>) -> T {
        smooth_measure(outcome)
    }

    fn setup(self, pixel: Complex<T>) -> (r: Orbit<T>) {
        Orbit { z: Complex::zero(), c: pixel, z_prev: Complex::zero() }
    }

    fn step(self, orbit: Orbit<T>) -> (r: Orbit<T>) {
        Orbit { z: orbit.z.sq() + orbit.c, c: orbit.c, z_prev: orbit.z_prev }
    }

    fn terminated(self, orbit: Orbit<T>) -> (r: bool) {
        escape_test(orbit)
    }

    fn measure(self, outcome: Outcome<T>) -> (r: T) {
        smooth_outcome(outcome)
    }
}

/// `z ↦ z² + c` for a fixed `c`, started at the pixel.
#[derive(Copy, Clone)]
pub struct Julia<F: Float> {
    pub c: Complex<F>,
}

impl<T: Float> Fractal<T> for Julia<T> {
    open spec fn setup_spec(self, pixel: Complex<T>) -> Orbit<T> {
        Orbit { z: pixel, c: self.c, z_prev: Complex::zero_spec() }
    }

    open spec fn step_spec(self, orbit: Orbit<T>) -> Orbit<T> {
        Orbit { z: orbit.z.sq_spec().add_spec(orbit.c), c: orbit.c, z_prev: orbit.z_prev }
    }

    open spec fn terminated_spec(self, orbit: Orbit<T>) -> bool {
        beyond_radius(orbit)
    }

    open spec fn measure_spec(self, outcome: Outcome<T>) -> T {
        smooth_measure(outcome)
    }

    fn setup(self, pixel: Complex<T>) -> (r: Orbit<T>) {
        Orbit { z: pixel, c: self.c, z_prev: Complex::zero() }
    }

    fn step(self, orbit: Orbit<T>) -> (r: Orbit<T>) {
        Orbit { z: orbit.z.sq() + orbit.c, c: orbit.c, z_prev: orbit.z_prev }
    }

    fn terminated(self, orbit: Orbit<T>) -> (r: bool) {
        escape_test(orbit)
    }

    fn measure(self, outcome: Outcome<T>) -> (r: T) {
        smooth_outcome(outcome)
    }
}

/// `z ↦ z² + c + p·z_prev` for fixed `c` and `p`, started at the pixel.
#[derive(Copy, Clone)]
pub struct Phoenix<F: Float> {
    pub c: Complex<F>,
    pub p: Complex<F>,
}

impl<T: Float> Fractal<T> for Phoenix<T> {
    open spec fn setup_spec(self, pixel: Complex<T>) -> Orbit<T> {
        Orbit { z: pixel, c: self.c, z_prev: Complex::zero_spec() }
    }

    open spec fn step_spec(self, orbit: Orbit<T>) -> Orbit<T> {
        Orbit {
            z: orbit.z.sq_spec().add_spec(orbit.c).add_spec(self.p.mul_spec(orbit.z_prev)),
            c: orbit.c,
            z_prev: orbit.z,
        }
    }

    open spec fn terminated_spec(self, orbit: Orbit<T>) -> bool {
        beyond_radius(orbit)
    }

    open spec fn measure_spec(self, outcome: Outcome<T>) -> T {
        smooth_measure(outcome)
    }

    fn setup(self, pixel: Complex<T>) -> (r: Orbit<T>) {
        Orbit { z: pixel, c: self.c, z_prev: Complex::zero() }
    }

    fn step(self, orbit: Orbit<T>) -> (r: Orbit<T>) {
        Orbit {
            z: orbit.z.sq() + orbit.c + self.p * orbit.z_prev,
            c: orbit.c,
            z_prev: orbit.z,
        }
    }

    fn terminated(self, orbit: Orbit<T>) -> (r: bool) {
        escape_test(orbit)
    }

    fn measure(self, outcome: Outcome<T>) -> (r: T) {
        smooth_outcome(outcome)
    }
}

/// Newton's method for `f(z) = z³ - 1`, started at the pixel; stops once
/// `|f(z)|² < tol²` and measures the number of steps taken.
#[derive(Copy, Clone)]
pub struct Newton<F: Float> {
    pub tol: F,
}

/// `f(z) = z³ - 1`, computed as `z²·z - 1`.
pub open spec fn cubic_residual<T: Float>(z: Complex<T>) -> Complex<T> {
    z.sq_spec().mul_spec(z).sub_spec(Complex::one_spec())
}

impl<T: Float> Fractal<T> for Newton<T> {
    open spec fn setup_spec(self, pixel: Complex<T>) -> Orbit<T> {
        Orbit { z: pixel, c: Complex::zero_spec(), z_prev: Complex::zero_spec() }
    }

    /// `z - f(z)/f'(z)` with `f'(z) = 3z²`.
    open spec fn step_spec(self, orbit: Orbit<T>) -> Orbit<T> {
        let z = orbit.z;
        let fp = z.sq_spec().mul_spec(Complex::from_u32_spec(3));
        Orbit { z: z.sub_spec(cubic_residual(z).div_spec(fp)), c: orbit.c, z_prev: orbit.z_prev }
    }

    open spec fn terminated_spec(self, orbit: Orbit<T>) -> bool {
        cubic_residual(orbit.z).modulus_sq_spec().lt_spec(self.tol.mul_spec(self.tol))
    }

    open spec fn measure_spec(self, outcome: Outcome<T>) -> T {
        match outcome {
            Outcome::Terminated { iter, .. } => T::from_u32_spec(iter),
            Outcome::Exhausted => T::ZERO,
        }
    }

    fn setup(self, pixel: Complex<T>) -> (r: Orbit<T>) {
        Orbit { z: pixel, c: Complex::zero(), z_prev: Complex::zero() }
    }

    fn step(self, orbit: Orbit<T>) -> (r: Orbit<T>) {
        let z = orbit.z;
        let f = z.sq() * z - Complex::one();
        let fp = z.sq() * Complex::from_u32(3);
        Orbit { z: z - f / fp, c: orbit.c, z_prev: orbit.z_prev }
    }

    fn terminated(self, orbit: Orbit<T>) -> (r: bool) {
        let z = orbit.z;
        let f = z.sq() * z - Complex::one();
        f.modulus_sq().lt(self.tol.mul(self.tol))
    }

    fn measure(self, outcome: Outcome<T>) -> (r: T) {
        match outcome {
            Outcome::Terminated { iter, .. } => T::from_u32(iter),
            Outcome::Exhausted => T::ZERO,
        }
    }
}

} // verus!
