use fractals::fractal::{smooth, Fractal, Iterate, Julia, Mandelbrot, Newton, Orbit, Outcome, Phoenix};
use fractals::number::{f32_ln_parts, f64_ln_parts, Complex, EscapedPoint, Float};
use fractals::render::render_pixel;
use fractals::view::{Bounds, View};

#[derive(Copy, Clone, Debug, PartialEq)]
struct F64(f64);

impl Float for F64 {
    const ZERO: Self = F64(0.0);
    const HALF: Self = F64(0.5);
    const ONE: Self = F64(1.0);
    const TWO: Self = F64(2.0);
    const FOUR: Self = F64(4.0);
    const LN_2: Self = F64(std::f64::consts::LN_2);

    fn add_spec(self, rhs: Self) -> Self {
        F64(self.0 + rhs.0)
    }

    fn sub_spec(self, rhs: Self) -> Self {
        F64(self.0 - rhs.0)
    }

    fn mul_spec(self, rhs: Self) -> Self {
        F64(self.0 * rhs.0)
    }

    fn div_spec(self, rhs: Self) -> Self {
        F64(self.0 / rhs.0)
    }

    fn lt_spec(self, rhs: Self) -> bool {
        self.0 < rhs.0
    }

    fn from_u32_spec(v: u32) -> Self {
        F64(v as f64)
    }

    fn ln_spec(self) -> Self {
        F64(self.0.ln())
    }

    fn add(self, rhs: Self) -> Self {
        F64(self.0 + rhs.0)
    }

    fn sub(self, rhs: Self) -> Self {
        F64(self.0 - rhs.0)
    }

    fn mul(self, rhs: Self) -> Self {
        F64(self.0 * rhs.0)
    }

    fn div(self, rhs: Self) -> Self {
        F64(self.0 / rhs.0)
    }

    fn lt(self, rhs: Self) -> bool {
        self.0 < rhs.0
    }

    fn from_u32(v: u32) -> Self {
        F64(v as f64)
    }

    fn approximate_ln(self) -> Self {
        F64(self.0.ln())
    }
}

fn c(re: f64, im: f64) -> Complex<F64> {
    Complex { re: F64(re), im: F64(im) }
}

fn parts(z: Complex<F64>) -> (f64, f64) {
    (z.re.0, z.im.0)
}

#[test]
fn complex_add_and_sub() {
    assert_eq!(parts(c(1.0, 2.0) + c(3.0, -5.0)), (4.0, -3.0));
    assert_eq!(parts(c(1.0, 2.0) - c(3.0, -5.0)), (-2.0, 7.0));
}

#[test]
fn complex_mul() {
    // (1 + 2i)(3 + 4i) = -5 + 10i
    assert_eq!(parts(c(1.0, 2.0) * c(3.0, 4.0)), (-5.0, 10.0));
}

#[test]
fn complex_div() {
    // (-5 + 10i)/(3 + 4i) = 1 + 2i
    assert_eq!(parts(c(-5.0, 10.0) / c(3.0, 4.0)), (1.0, 2.0));
}

#[test]
fn complex_sq() {
    // (3 + 2i)² = 5 + 12i
    assert_eq!(parts(c(3.0, 2.0).sq()), (5.0, 12.0));
}

#[test]
fn complex_modulus_sq() {
    assert_eq!(c(3.0, 4.0).modulus_sq(), F64(25.0));
}

#[test]
fn complex_constants() {
    assert_eq!(parts(Complex::<F64>::zero()), (0.0, 0.0));
    assert_eq!(parts(Complex::<F64>::one()), (1.0, 0.0));
    assert_eq!(parts(Complex::<F64>::from_u32(3)), (3.0, 0.0));
}

#[test]
fn f32_parts_of_one() {
    assert_eq!(f32_ln_parts(1.0f32.to_bits()), (0, 0x3f80_0000));
}

#[test]
fn f32_parts_of_three() {
    // 3 = 1.5 · 2¹
    let (e, m) = f32_ln_parts(3.0f32.to_bits());
    assert_eq!(e, 1);
    assert_eq!(f32::from_bits(m), 1.5);
}

#[test]
fn f32_parts_of_small_number() {
    // 0.375 = 1.5 · 2⁻²
    let (e, m) = f32_ln_parts(0.375f32.to_bits());
    assert_eq!(e, -2);
    assert_eq!(f32::from_bits(m), 1.5);
}

#[test]
fn f32_parts_exponent_range() {
    assert_eq!(f32_ln_parts(0).0, -127);
    assert_eq!(f32_ln_parts(0x7f80_0000).0, 128);
}

#[test]
fn f64_parts_of_eight() {
    assert_eq!(f64_ln_parts(8.0f64.to_bits()), (3, 0x3ff0_0000_0000_0000));
}

#[test]
fn f64_parts_of_fraction() {
    // 0.625 = 1.25 · 2⁻¹
    let (e, m) = f64_ln_parts(0.625f64.to_bits());
    assert_eq!(e, -1);
    assert_eq!(f64::from_bits(m), 1.25);
}

#[test]
fn f64_parts_exponent_range() {
    assert_eq!(f64_ln_parts(0).0, -1023);
    assert_eq!(f64_ln_parts(0x7ff0_0000_0000_0000).0, 1024);
}

fn terminated_at(o: Outcome<F64>) -> Option<(f64, f64, u32)> {
    match o {
        Outcome::Terminated { z, iter } => Some((z.re.0, z.im.0, iter)),
        Outcome::Exhausted => None,
    }
}

fn smoothed(z: Complex<F64>, iter: u32) -> f64 {
    let ln2 = std::f64::consts::LN_2;
    let log_zn = 0.5 * z.modulus_sq().0.ln();
    let nu = (log_zn / ln2).ln() / ln2;
    let mu = iter as f64 + 1.0 - nu;
    if mu > 0.0 { mu } else { 0.0 }
}

#[test]
fn mandelbrot_origin_never_escapes() {
    assert_eq!(terminated_at(Mandelbrot.run(c(0.0, 0.0), 100)), None);
}

#[test]
fn mandelbrot_two_escapes_at_second_step() {
    // 0 -> 2 -> 6: |2|² = 4 is not beyond the radius, |6|² = 36 is.
    assert_eq!(terminated_at(Mandelbrot.run(c(2.0, 0.0), 100)), Some((6.0, 0.0, 2)));
}

#[test]
fn run_with_zero_budget_is_exhausted() {
    assert_eq!(terminated_at(Mandelbrot.run(c(5.0, 5.0), 0)), None);
}

#[test]
fn run_budget_law() {
    // The stop at iteration 2 is found by every budget above 2 and by none below.
    assert_eq!(terminated_at(Mandelbrot.run(c(2.0, 0.0), 3)), Some((6.0, 0.0, 2)));
    assert_eq!(terminated_at(Mandelbrot.run(c(2.0, 0.0), 4000)), Some((6.0, 0.0, 2)));
    assert_eq!(terminated_at(Mandelbrot.run(c(2.0, 0.0), 2)), None);
}

#[test]
fn run_reports_first_stop() {
    // The first orbit already meets the stop condition.
    let julia = Julia { c: c(0.0, 0.0) };
    assert_eq!(terminated_at(julia.run(c(3.0, 0.0), 10)), Some((3.0, 0.0, 0)));
}

#[test]
fn mandelbrot_setup_and_step() {
    let o = Mandelbrot.setup(c(0.25, -0.5));
    assert_eq!((parts(o.z), parts(o.c), parts(o.z_prev)), ((0.0, 0.0), (0.25, -0.5), (0.0, 0.0)));
    let o = Mandelbrot.step(Orbit { z: c(1.0, 1.0), c: c(0.25, -0.5), z_prev: c(0.0, 0.0) });
    // (1 + i)² + (0.25 - 0.5i) = 0.25 + 1.5i
    assert_eq!(parts(o.z), (0.25, 1.5));
    assert_eq!(parts(o.c), (0.25, -0.5));
}

#[test]
fn mandelbrot_parameter_stays_the_pixel() {
    let pixel = c(-0.75, 0.1);
    let mut o = Mandelbrot.setup(pixel);
    for _ in 0..10 {
        o = Mandelbrot.step(o);
        assert_eq!(parts(o.c), parts(pixel));
    }
}

#[test]
fn julia_starts_at_pixel_with_fixed_parameter() {
    let julia = Julia { c: c(-0.7, 0.27015) };
    let o = julia.setup(c(0.3, 0.4));
    assert_eq!((parts(o.z), parts(o.c), parts(o.z_prev)), ((0.3, 0.4), (-0.7, 0.27015), (0.0, 0.0)));
    let o = julia.step(o);
    assert_eq!(parts(o.c), (-0.7, 0.27015));
}

#[test]
fn julia_escape() {
    // 2 -> 4 + c = 3.3 + 0.27015i, beyond the radius.
    let julia = Julia { c: c(-0.7, 0.27015) };
    assert_eq!(terminated_at(julia.run(c(2.0, 0.0), 50)), Some((3.3, 0.27015, 1)));
}

#[test]
fn phoenix_step_keeps_history() {
    let phoenix = Phoenix { c: c(0.5667, 0.0), p: c(-0.5, 0.0) };
    let o0 = phoenix.setup(c(0.5, 0.5));
    assert_eq!(parts(o0.z_prev), (0.0, 0.0));
    let o1 = phoenix.step(o0);
    // (0.5 + 0.5i)² + 0.5667 + (-0.5)·0 = 0.5667 + 0.5i
    assert_eq!(parts(o1.z), (0.5667, 0.5));
    assert_eq!(parts(o1.z_prev), (0.5, 0.5));
    let o2 = phoenix.step(o1);
    assert_eq!(parts(o2.z_prev), parts(o1.z));
    // z2 = z1² + c + p·z0
    let expected = o1.z.sq() + o1.c + c(-0.5, 0.0) * o0.z;
    assert_eq!(parts(o2.z), parts(expected));
    assert_eq!(parts(o2.c), (0.5667, 0.0));
}

#[test]
fn newton_root_stops_at_once() {
    let newton = Newton { tol: F64(1e-6) };
    let o = newton.run(c(1.0, 0.0), 50);
    assert_eq!(terminated_at(o), Some((1.0, 0.0, 0)));
    assert_eq!(newton.measure(newton.run(c(1.0, 0.0), 50)), F64(0.0));
}

#[test]
fn newton_step_formula() {
    // 2 - (8 - 1)/(3·4) = 2 - 7/12
    let newton = Newton { tol: F64(1e-6) };
    let o = newton.step(newton.setup(c(2.0, 0.0)));
    assert_eq!(parts(o.z), (2.0 - 7.0 / 12.0, 0.0));
    assert_eq!(parts(o.c), (0.0, 0.0));
}

#[test]
fn newton_converges_to_a_cube_root_of_one() {
    let newton = Newton { tol: F64(1e-6) };
    match newton.run(c(2.0, 0.0), 50) {
        Outcome::Terminated { z, iter } => {
            assert!(iter > 0);
            assert!((z.re.0 - 1.0).abs() < 1e-3);
            assert!(z.im.0.abs() < 1e-3);
            assert_eq!(newton.measure(Outcome::Terminated { z, iter }), F64(iter as f64));
        },
        Outcome::Exhausted => panic!("expected convergence"),
    }
}

#[test]
fn newton_origin_never_stops() {
    // f'(0) = 0: the step divides by zero and the orbit never meets the tolerance.
    let newton = Newton { tol: F64(1e-6) };
    assert_eq!(terminated_at(newton.run(c(0.0, 0.0), 20)), None);
}

#[test]
fn exhausted_measures_zero() {
    assert_eq!(Mandelbrot.measure(Outcome::<F64>::Exhausted), F64(0.0));
    assert_eq!(Julia { c: c(0.0, 0.0) }.measure(Outcome::Exhausted), F64(0.0));
    assert_eq!(Phoenix { c: c(0.0, 0.0), p: c(0.0, 0.0) }.measure(Outcome::Exhausted), F64(0.0));
    assert_eq!(Newton { tol: F64(0.1) }.measure(Outcome::Exhausted), F64(0.0));
}

#[test]
fn escape_test_radius() {
    let at = |re: f64| Orbit { z: c(re, 0.0), c: c(0.0, 0.0), z_prev: c(0.0, 0.0) };
    assert!(!Fractal::<F64>::terminated(Mandelbrot, at(2.0)));
    assert!(Fractal::<F64>::terminated(Mandelbrot, at(2.0001)));
}

#[test]
fn smooth_value() {
    let z = c(6.0, 0.0);
    let v = smooth(z, 2).0;
    assert_eq!(v, smoothed(z, 2));
    assert!((v - 1.6299).abs() < 1e-3);
    assert_eq!(Mandelbrot.measure(Mandelbrot.run(c(2.0, 0.0), 100)), F64(v));
}

#[test]
fn smooth_clamps_at_zero() {
    assert_eq!(smooth(c(1e50, 0.0), 0), F64(0.0));
}

#[test]
fn render_smooth_of_exhausted_point() {
    let e = EscapedPoint { z: c(6.0, 0.0), iter: 5 };
    assert_eq!(fractals::render::smooth(e, 5), F64(0.0));
    let e = EscapedPoint { z: c(6.0, 0.0), iter: 2 };
    assert_eq!(fractals::render::smooth(e, 5), smooth(c(6.0, 0.0), 2));
}

fn pixel(i: u32, samples: u32) -> F64 {
    render_pixel(Mandelbrot, i, 3, 3, F64(-2.0), F64(2.0), F64(-2.0), F64(2.0), 50, samples)
}

#[test]
fn render_pixel_inside_the_set() {
    // Pixel 4 of a 3×3 image of [-2, 2]² is the origin.
    assert_eq!(pixel(4, 1), F64(0.0));
}

#[test]
fn render_pixel_corner() {
    // Pixel 0 is -2 - 2i, which escapes after one step.
    assert_eq!(pixel(0, 1), smooth(c(-2.0, -2.0), 1));
}

#[test]
fn render_pixel_row_major() {
    // Pixel 5 is column 2, row 1: the point 2 + 0i.
    assert_eq!(pixel(5, 1), smooth(c(6.0, 0.0), 2));
}

#[test]
fn render_pixel_supersampled() {
    // A 2×2 grid around the origin with a pixel width of 2: offsets of ±0.5.
    let m = |re: f64, im: f64| Mandelbrot.measure(Mandelbrot.run(c(re, im), 50));
    let sum = F64(0.0).add(m(-0.5, -0.5)).add(m(0.5, -0.5)).add(m(-0.5, 0.5)).add(m(0.5, 0.5));
    assert_eq!(pixel(4, 2), sum.div(F64(4.0)));
    assert!(pixel(4, 2).0 > 0.0);
}

#[test]
fn render_pixel_without_samples() {
    assert!(pixel(4, 0).0.is_nan());
}

#[test]
fn view_bounds() {
    let view = View { center_x: F64(-0.5), center_y: F64(0.0), half_x: F64(1.5) };
    let b: Bounds<F64> = view.get_bounds(300, 200);
    assert_eq!((b.min_x, b.max_x, b.min_y, b.max_y), (F64(-2.0), F64(1.0), F64(-1.0), F64(1.0)));
    assert_eq!(b.span_x(), F64(3.0));
    assert_eq!(b.span_y(), F64(2.0));
}
