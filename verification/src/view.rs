use vstd::prelude::*;
use crate::algebra::{exact_arithmetic, lemma_add_sub_cancel, lemma_div_by_ratio, lemma_from_u32_nonzero, lemma_sub_sub_cancel};
use crate::number::Float;

verus! {

/// A view of the complex plane: its center and its half-width.
pub struct View<F: Float> {
    pub center_x: F,
    pub center_y: F,
    pub half_x: F,
}

/// The rectangle of the complex plane that an image covers.
#[derive(Clone, Copy)]
pub struct Bounds<F: Float> {
    pub min_x: F,
    pub max_x: F,
    pub min_y: F,
    pub max_y: F,
}

impl<F: Float> View<F> {
    /// The half-height that keeps the aspect ratio of a `width` by `height` image.
    pub open spec fn half_y_spec(&self, width: u32, height: u32) -> F {
        self.half_x.div_spec(F::from_u32_spec(width).div_spec(F::from_u32_spec(height)))
    }

    /// The view's rectangle for a `width` by `height` image: `half_x` either
    /// side of the center horizontally, the aspect-keeping half-height
    /// vertically.
    pub fn get_bounds(&self, width: u32, height: u32) -> (b: Bounds<F>)
        ensures
            b.min_x == self.center_x.sub_spec(self.half_x),
            b.max_x == self.center_x.add_spec(self.half_x),
            b.min_y == self.center_y.sub_spec(self.half_y_spec(width, height)),
            b.max_y == self.center_y.add_spec(self.half_y_spec(width, height)),
            exact_arithmetic::<F>() ==> b.max_x.sub_spec(self.center_x) == self.half_x
                && self.center_x.sub_spec(b.min_x) == self.half_x,
            exact_arithmetic::<F>() && width > 0 && height > 0 ==> b.max_y.sub_spec(
                self.center_y,
            ).mul_spec(F::from_u32_spec(width)) == self.half_x.mul_spec(F::from_u32_spec(height))
                && self.center_y.sub_spec(b.min_y).mul_spec(F::from_u32_spec(width))
                == self.half_x.mul_spec(F::from_u32_spec(height)),
    {
        proof {
            if exact_arithmetic::<F>() {
                lemma_add_sub_cancel(self.center_x, self.half_x);
                lemma_sub_sub_cancel(self.center_x, self.half_x);
                lemma_add_sub_cancel(self.center_y, self.half_y_spec(width, height));
                lemma_sub_sub_cancel(self.center_y, self.half_y_spec(width, height));
                if width > 0 && height > 0 {
                    lemma_view_keeps_aspect(*self, width, height);
                }
            }
        }
        let aspect = F::from_u32(width).div(F::from_u32(height));
        let half_y = self.half_x.div(aspect);

        Bounds {
            min_x: self.center_x.sub(self.half_x),
            max_x: self.center_x.add(self.half_x),
            min_y: self.center_y.sub(half_y),
            max_y: self.center_y.add(half_y),
        }
    }
}

/// In exact arithmetic the view's half-height keeps the image's aspect
/// ratio: `half_y · width = half_x · height`.
pub proof fn lemma_view_keeps_aspect<F: Float>(view: View<F>, width: u32, height: u32)
    requires
        exact_arithmetic::<F>(),
        width > 0,
        height > 0,
    ensures
        view.half_y_spec(width, height).mul_spec(F::from_u32_spec(width)) == view.half_x.mul_spec(
            F::from_u32_spec(height),
        ),
{
    lemma_from_u32_nonzero::<F>(width);
    lemma_from_u32_nonzero::<F>(height);
    lemma_div_by_ratio(view.half_x, F::from_u32_spec(width), F::from_u32_spec(height));
}

impl<F: Float> Bounds<F> {
    pub fn span_x(&self) -> (r: F)
        ensures
            r == self.max_x.sub_spec(self.min_x),
    {
        self.max_x.sub(self.min_x)
    }

    pub fn span_y(&self) -> (r: F)
        ensures
            r == self.max_y.sub_spec(self.min_y),
    {
        self.max_y.sub(self.min_y)
    }
}

} // verus!
