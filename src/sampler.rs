use vstd::arithmetic::div_mod::{
    lemma_div_is_ordered_by_denominator, lemma_fundamental_div_mod_converse, lemma_mod_bound,
};
use vstd::prelude::*;

verus! {

/// How a camera spreads its rays over one pixel.
#[derive(Debug, Clone, Copy, PartialEq, Eq)]
pub enum SamplerType {
    /// One ray per pixel, at the pixel's own coordinates.
    Simple,
    /// One jittered ray in each cell of a square grid laid over the pixel.
    Stratified,
}

/// `n` is the square of some natural number.
pub open spec fn is_perfect_square(n: nat) -> bool {
    exists|k: nat| #[trigger] (k * k) == n
}

/// The largest `r` with `r * r <= n`.
fn integer_sqrt(n: usize) -> (r: usize)
    ensures
        r * r <= n,
        n < (r + 1) * (r + 1),
{
    let mut lo: u128 = 0;
    let mut hi: u128 = n as u128 + 1;
    assert(n < hi * hi) by (nonlinear_arith)
        requires
            hi == n + 1,
    ;
    while hi - lo > 1
        invariant
            lo < hi <= n + 1,
            lo * lo <= n,
            n < hi * hi,
        decreases hi - lo,
    {
        let mid: u128 = lo + (hi - lo) / 2;
        assert(mid * mid <= u128::MAX) by (nonlinear_arith)
            requires
                mid < hi <= n + 1,
                n <= usize::MAX,
        ;
        if mid * mid <= n as u128 {
            lo = mid;
        } else {
            hi = mid;
        }
    }
    lo as usize
}

/// Why a sampler could not be built.
#[derive(Debug, Clone, Copy, PartialEq, Eq)]
pub enum SamplerError {
    /// A stratified sampler needs a square number of samples per pixel.
    NotPerfectSquare { samples_per_pixel: usize },
}

/// The square grid of sub-cells that a stratified sampler lays over a pixel.
/// Cell `(i, j)` covers the fractions `[i / n, (i + 1) / n)` along x and
/// `[j / n, (j + 1) / n)` along y of the pixel, where `n` is the side.
#[derive(Debug, Clone, Copy, PartialEq, Eq)]
pub struct StratifiedGrid {
    samples_per_pixel: usize,
    samples_per_side: usize,
}

/// The cells of a grid of side `n`, row by row along the first index:
/// cell number `k` is `(k / n, k % n)`.
pub open spec fn grid_cells(n: nat) -> Seq<(usize, usize)> {
    Seq::new(n * n, |k: int| ((k / n as int) as usize, (k % n as int) as usize))
}

impl StratifiedGrid {
    /// The side times itself is the number of samples.
    pub closed spec fn wf(&self) -> bool {
        self.samples_per_side * self.samples_per_side == self.samples_per_pixel
    }

    pub closed spec fn spec_samples_per_pixel(&self) -> nat {
        self.samples_per_pixel as nat
    }

    pub closed spec fn spec_samples_per_side(&self) -> nat {
        self.samples_per_side as nat
    }

    /// Builds the grid for `spp` samples per pixel; fails exactly when `spp`
    /// is not a square number.
    pub fn new(spp: usize) -> (r: Result<StratifiedGrid, SamplerError>)
        ensures
            r is Ok <==> is_perfect_square(spp as nat),
            r matches Ok(g) ==> g.wf() && g.spec_samples_per_pixel() == spp,
            r matches Err(e) ==> e == (SamplerError::NotPerfectSquare { samples_per_pixel: spp }),
    {
        let side = integer_sqrt(spp);
        if side * side == spp {
            assert((side as nat) * (side as nat) == spp as nat);
            Ok(StratifiedGrid { samples_per_pixel: spp, samples_per_side: side })
        } else {
            assert forall|k: nat| #[trigger] (k * k) != spp as nat by {
                if k <= side {
                    assert(k * k <= side * side) by (nonlinear_arith)
                        requires
                            k <= side,
                    ;
                } else {
                    assert(k * k >= (side + 1) * (side + 1)) by (nonlinear_arith)
                        requires
                            k >= side + 1,
                    ;
                }
            }
            Err(SamplerError::NotPerfectSquare { samples_per_pixel: spp })
        }
    }

    /// Number of samples drawn for each pixel.
    pub fn samples_per_pixel(&self) -> (r: usize)
        ensures
            r == self.spec_samples_per_pixel(),
    {
        self.samples_per_pixel
    }

    /// Number of cells along each side of the pixel.
    pub fn samples_per_side(&self) -> (r: usize)
        ensures
            r == self.spec_samples_per_side(),
    {
        self.samples_per_side
    }

    /// Every cell of the grid, once each, in the order in which the sampler
    /// visits them: the second index runs fastest.
    pub fn cells(&self) -> (r: Vec<(usize, usize)>)
        requires
            self.wf(),
        ensures
            r@ == grid_cells(self.spec_samples_per_side()),
            r@.len() == self.spec_samples_per_pixel(),
    {
        let n = self.samples_per_side;
        let ghost nn = n as int;
        let mut out: Vec<(usize, usize)> = Vec::new();
        let mut i: usize = 0;
        while i < n
            invariant
                nn == n,
                i <= n,
                n * n == self.samples_per_pixel,
                out@.len() == i * n,
                forall|k: int|
                    0 <= k < out@.len() ==> #[trigger] out@[k].0 as int == k / nn && out@[k].1 as int == k % nn,
            decreases n - i,
        {
            let mut j: usize = 0;
            assert(i * n + n <= n * n) by (nonlinear_arith)
                requires
                    i < n,
            ;
            while j < n
                invariant
                    nn == n,
                    i < n,
                    j <= n,
                    i * n + n <= n * n,
                    n * n == self.samples_per_pixel,
                    out@.len() == i * n + j,
                    forall|k: int|
                        0 <= k < out@.len() ==> #[trigger] out@[k].0 as int == k / nn && out@[k].1 as int == k % nn,
                decreases n - j,
            {
                proof {
                    lemma_fundamental_div_mod_converse(i * nn + j, nn, i as int, j as int);
                }
                out.push((i, j));
                j += 1;
            }
            assert(i * n + n == (i + 1) * n) by (nonlinear_arith);
            i += 1;
        }
        assert forall|k: int| 0 <= k < out@.len() implies #[trigger] out@[k] == grid_cells(
            n as nat,
        )[k] by {
            lemma_div_is_ordered_by_denominator(k, 1, nn);
            lemma_mod_bound(k, nn);
        }
        assert(out@ =~= grid_cells(n as nat));
        out
    }
}

} // verus!
