use vstd::prelude::*;
use vstd::arithmetic::div_mod::lemma_fundamental_div_mod_converse;
use crate::algebra::{
    exact_arithmetic, lemma_div_mul_cancel, lemma_from_u32_nonzero, lemma_mul_reciprocal,
    lemma_sub_add_cancel,
};
use crate::fractal::{escape, smooth_spec, Fractal, Iterate};
use crate::number::{Complex, EscapedPoint, Float};
use crate::view::Bounds;

verus! {

/// The smoothed escape count of an escaped point, zero for a point that used
/// the whole budget.
pub fn smooth<T: Float>(e: EscapedPoint<T>, max_iter: u32) -> (r: T)
    ensures
        r == (if e.iter >= max_iter {
            T::ZERO
        } else {
            smooth_spec(e.z, e.iter)
        }),
{
    if e.iter >= max_iter {
        return T::ZERO;
    }
    crate::fractal::smooth(e.z, e.iter)
}

/// The width of one pixel when `n` pixels span `[lo, hi]` end to end.
pub open spec fn cell_size<T: Float>(lo: T, hi: T, n: u32) -> T {
    hi.sub_spec(lo).div_spec(T::from_u32_spec((n - 1) as u32))
}

/// The offset, in pixels, of sample `s` of `samples` evenly spaced ones
/// centred on the pixel.
pub open spec fn sample_offset<T: Float>(s: u32, samples: u32) -> T {
    T::from_u32_spec(s).add_spec(T::HALF).mul_spec(T::ONE.div_spec(T::from_u32_spec(samples))).sub_spec(
        T::HALF,
    )
}

/// The point of the plane that sample `(sx, sy)` of pixel `i` stands for.
/// Pixels are numbered row by row, `width` to a row.
pub open spec fn sample_point<T: Float>(
    b: Bounds<T>,
    i: u32,
    width: u32,
    height: u32,
    samples: u32,
    sx: u32,
    sy: u32,
) -> Complex<T> {
    let px_w = cell_size(b.min_x, b.max_x, width);
    let px_h = cell_size(b.min_y, b.max_y, height);
    let base_x = b.min_x.add_spec(T::from_u32_spec(i % width).mul_spec(px_w));
    let base_y = b.min_y.add_spec(T::from_u32_spec(i / width).mul_spec(px_h));
    Complex {
        re: base_x.add_spec(sample_offset::<T>(sx, samples).mul_spec(px_w)),
        im: base_y.add_spec(sample_offset::<T>(sy, samples).mul_spec(px_h)),
    }
}

/// The measure of the `k`-th sample of pixel `i`, samples taken row by row.
pub open spec fn sample_value<T: Float, F: Fractal<T>>(
    f: F,
    b: Bounds<T>,
    i: u32,
    width: u32,
    height: u32,
    max_iter: u32,
    samples: u32,
    k: nat,
) -> T {
    let p = sample_point(b, i, width, height, samples, (k % (samples as nat)) as u32, (k / (samples as nat)) as u32);
    f.measure_spec(escape(f, p, max_iter))
}

/// The sum, in sampling order, of the first `n` sample measures of pixel `i`.
pub open spec fn sample_sum<T: Float, F: Fractal<T>>(
    f: F,
    b: Bounds<T>,
    i: u32,
    width: u32,
    height: u32,
    max_iter: u32,
    samples: u32,
    n: nat,
) -> T
    decreases n,
{
    if n == 0 {
        T::ZERO
    } else {
        sample_sum(f, b, i, width, height, max_iter, samples, (n - 1) as nat).add_spec(
            sample_value(f, b, i, width, height, max_iter, samples, (n - 1) as nat),
        )
    }
}

/// The value of pixel `i`: the mean of the fractal's measure over a
/// `samples` by `samples` grid of points inside the pixel.
pub open spec fn pixel_value<T: Float, F: Fractal<T>>(
    f: F,
    b: Bounds<T>,
    i: u32,
    width: u32,
    height: u32,
    max_iter: u32,
    samples: u32,
) -> T {
    let n = samples as nat * samples as nat;
    sample_sum(f, b, i, width, height, max_iter, samples, n).div_spec(T::from_u32_spec(n as u32))
}

/// Renders pixel `i` of a `width` by `height` image of the rectangle
/// `[min_x, max_x] × [min_y, max_y]`, supersampled `samples` times per axis.
pub fn render_pixel<T: Float, F: Fractal<T>>(
    fractal: F,
    i: u32,
    width: u32,
    height: u32,
    min_x: T,
    max_x: T,
    min_y: T,
    max_y: T,
    max_iter: u32,
    samples: u32,
) -> (r: T)
    requires
        width >= 1,
        height >= 1,
        samples * samples <= u32::MAX,
    ensures
        r == pixel_value(
            fractal,
            Bounds { min_x, max_x, min_y, max_y },
            i,
            width,
            height,
            max_iter,
            samples,
        ),
{
    let ghost b = Bounds { min_x, max_x, min_y, max_y };
    let total = T::from_u32(samples * samples);

    let px = i % width;
    let py = i / width;

    let span_x = max_x.sub(min_x);
    let span_y = max_y.sub(min_y);
    let px_w = span_x.div(T::from_u32(width - 1));
    let px_h = span_y.div(T::from_u32(height - 1));

    let base_x = min_x.add(T::from_u32(px).mul(px_w));
    let base_y = min_y.add(T::from_u32(py).mul(px_h));

    let mut acc = T::ZERO;
    let mut sy: u32 = 0;
    let inv_n = T::ONE.div(T::from_u32(samples));

    while sy < samples
        invariant
            sy <= samples,
            samples * samples <= u32::MAX,
            width >= 1,
            px_w == cell_size(min_x, max_x, width),
            px_h == cell_size(min_y, max_y, height),
            base_x == min_x.add_spec(T::from_u32_spec(i % width).mul_spec(px_w)),
            base_y == min_y.add_spec(T::from_u32_spec(i / width).mul_spec(px_h)),
            inv_n == T::ONE.div_spec(T::from_u32_spec(samples)),
            b == (Bounds { min_x, max_x, min_y, max_y }),
            acc == sample_sum(fractal, b, i, width, height, max_iter, samples, sy as nat * samples as nat),
        decreases samples - sy,
    {
        let oy = T::from_u32(sy).add(T::HALF).mul(inv_n).sub(T::HALF);
        let mut sx: u32 = 0;
        while sx < samples
            invariant
                sy < samples,
                sx <= samples,
                samples * samples <= u32::MAX,
                width >= 1,
                px_w == cell_size(min_x, max_x, width),
                px_h == cell_size(min_y, max_y, height),
                base_x == min_x.add_spec(T::from_u32_spec(i % width).mul_spec(px_w)),
                base_y == min_y.add_spec(T::from_u32_spec(i / width).mul_spec(px_h)),
                inv_n == T::ONE.div_spec(T::from_u32_spec(samples)),
                oy == sample_offset::<T>(sy, samples),
                b == (Bounds { min_x, max_x, min_y, max_y }),
                acc == sample_sum(
                    fractal,
                    b,
                    i,
                    width,
                    height,
                    max_iter,
                    samples,
                    sy as nat * samples as nat + sx as nat,
                ),
            decreases samples - sx,
        {
            let ox = T::from_u32(sx).add(T::HALF).mul(inv_n).sub(T::HALF);
            let c = Complex { re: base_x.add(ox.mul(px_w)), im: base_y.add(oy.mul(px_h)) };
            let outcome = fractal.run(c, max_iter);
            let v = fractal.measure(outcome);
            proof {
                let k = sy as nat * samples as nat + sx as nat;
                lemma_fundamental_div_mod_converse(k as int, samples as int, sy as int, sx as int);
                assert(c == sample_point(b, i, width, height, samples, sx, sy));
                assert(v == sample_value(fractal, b, i, width, height, max_iter, samples, k));
            }
            acc = acc.add(v);
            sx += 1;
        }
        assert(sy as nat * samples as nat + samples as nat == (sy as nat + 1) * samples as nat)
            by (nonlinear_arith);
        sy += 1;
    }
    acc.div(total)
}

/// Pixels are numbered row by row, `width` to a row, whatever the height:
/// every sample of pixel `row * width + col` (with `col < width`) lies in
/// column `col` and row `row` of the pixel grid, offset within the pixel by
/// the sample's offset.
pub proof fn lemma_pixel_numbering<T: Float>(
    b: Bounds<T>,
    width: u32,
    height: u32,
    samples: u32,
    col: u32,
    row: u32,
    sx: u32,
    sy: u32,
)
    requires
        col < width,
        row * width + col <= u32::MAX,
    ensures
        sample_point(b, (row * width + col) as u32, width, height, samples, sx, sy) == (Complex {
            re: b.min_x.add_spec(T::from_u32_spec(col).mul_spec(cell_size(b.min_x, b.max_x, width))).add_spec(
                sample_offset::<T>(sx, samples).mul_spec(cell_size(b.min_x, b.max_x, width)),
            ),
            im: b.min_y.add_spec(T::from_u32_spec(row).mul_spec(cell_size(b.min_y, b.max_y, height))).add_spec(
                sample_offset::<T>(sy, samples).mul_spec(cell_size(b.min_y, b.max_y, height)),
            ),
        }),
{
    let i = row * width + col;
    assert(i == row as int * width as int + col as int) by (nonlinear_arith)
        requires
            i == row * width + col,
    ;
    lemma_fundamental_div_mod_converse(i as int, width as int, row as int, col as int);
}

/// Two pixels in the same row and column of images that differ only in
/// height sample the same real parts; two pixels with the same number in
/// images that differ only in height lie in the same row and column.
pub proof fn lemma_pixel_row_ignores_height<T: Float>(
    b: Bounds<T>,
    i: u32,
    width: u32,
    height: u32,
    other_height: u32,
    samples: u32,
    sx: u32,
    sy: u32,
)
    requires
        width >= 1,
        cell_size(b.min_y, b.max_y, height) == cell_size(b.min_y, b.max_y, other_height),
    ensures
        sample_point(b, i, width, height, samples, sx, sy) == sample_point(
            b,
            i,
            width,
            other_height,
            samples,
            sx,
            sy,
        ),
{
}

/// In exact arithmetic the samples of a pixel sit evenly inside it: sample
/// `s` of `n` is at `(s + ½) / n - ½` pixel widths from the pixel's corner
/// point, that is, `(offset + ½) · n = s + ½`.
pub proof fn lemma_sample_offset_exact<T: Float>(s: u32, n: u32)
    requires
        exact_arithmetic::<T>(),
        n > 0,
    ensures
        sample_offset::<T>(s, n).add_spec(T::HALF).mul_spec(T::from_u32_spec(n)) == T::from_u32_spec(
            s,
        ).add_spec(T::HALF),
{
    let x = T::from_u32_spec(s).add_spec(T::HALF).mul_spec(T::ONE.div_spec(T::from_u32_spec(n)));
    lemma_sub_add_cancel(x, T::HALF);
    lemma_from_u32_nonzero::<T>(n);
    lemma_mul_reciprocal(T::from_u32_spec(s).add_spec(T::HALF), T::from_u32_spec(n));
}

/// In exact arithmetic `n` pixels span `[lo, hi]` end to end: the pixel
/// width times `n - 1` is `hi - lo`.
pub proof fn lemma_cell_size_exact<T: Float>(lo: T, hi: T, n: u32)
    requires
        exact_arithmetic::<T>(),
        n >= 2,
    ensures
        cell_size(lo, hi, n).mul_spec(T::from_u32_spec((n - 1) as u32)) == hi.sub_spec(lo),
{
    lemma_from_u32_nonzero::<T>((n - 1) as u32);
    lemma_div_mul_cancel(hi.sub_spec(lo), T::from_u32_spec((n - 1) as u32));
}

/// In exact arithmetic a pixel's value is the mean of its samples: the value
/// times the number of samples is their sum.
pub proof fn lemma_pixel_value_is_mean<T: Float, F: Fractal<T>>(
    f: F,
    b: Bounds<T>,
    i: u32,
    width: u32,
    height: u32,
    max_iter: u32,
    samples: u32,
)
    requires
        exact_arithmetic::<T>(),
        samples >= 1,
        samples * samples <= u32::MAX,
    ensures
        pixel_value(f, b, i, width, height, max_iter, samples).mul_spec(
            T::from_u32_spec((samples * samples) as u32),
        ) == sample_sum(f, b, i, width, height, max_iter, samples, samples as nat * samples as nat),
{
    let n = samples as nat * samples as nat;
    assert(n >= 1) by (nonlinear_arith)
        requires
            samples >= 1,
            n == samples as nat * samples as nat,
    ;
    assert(n == samples * samples);
    lemma_from_u32_nonzero::<T>(n as u32);
    lemma_div_mul_cancel(sample_sum(f, b, i, width, height, max_iter, samples, n), T::from_u32_spec(n as u32));
}

} // verus!
