//! Scanning a rectangular grid: one escape time per cell.
//!
//! The caller says where each cell's orbit starts (`seed`), how it advances
//! (`step`) and when it is still inside the escape region (`within`). For the
//! Mandelbrot set `seed(i, j)` is the pair `(0, c)` with
//! `c = (re_low + i * re_step, im_low + j * im_step)`.
use crate::buffer::{check_grid, grid_fits, DivergenceBuffer};
use crate::error::FractalError;
use crate::escape::{
    can_iterate, escape_time, is_escape_time, lemma_escape_time_unique, step_is_function,
    test_is_function,
};
use vstd::prelude::*;

verus! {

/// Whether every cell of a `width` by `height` grid may be evaluated: `seed`
/// accepts the cell, and the iteration may be run from whatever it returns.
pub open spec fn can_sample<Z, P: Fn(usize, usize) -> Z, S: Fn(Z) -> Z, W: Fn(&Z) -> bool>(
    width: usize,
    height: usize,
    cutoff: u32,
    seed: &P,
    step: &S,
    within: &W,
) -> bool {
    &&& forall|i: usize, j: usize| i < width && j < height ==> #[trigger] seed.requires((i, j))
    &&& forall|i: usize, j: usize, start: Z|
        i < width && j < height && #[trigger] seed.ensures((i, j), start) ==> can_iterate(
            start,
            step,
            within,
            cutoff,
        )
}

/// Whether `count` is an escape time of cell `(i, j)`: of some starting point
/// that `seed` can return for that cell.
pub open spec fn is_cell_escape_time<
    Z,
    P: Fn(usize, usize) -> Z,
    S: Fn(Z) -> Z,
    W: Fn(&Z) -> bool,
>(seed: &P, step: &S, within: &W, cutoff: u32, i: usize, j: usize, count: u32) -> bool {
    exists|start: Z| #[trigger]
        seed.ensures((i, j), start) && is_escape_time(
            start,
            step,
            within,
            cutoff,
            count,
        )
}

/// Evaluates every cell of a `width` by `height` grid and returns the escape
/// times as a buffer of exactly that shape: cell `(i, j)` holds an escape time
/// of `seed(i, j)`, which lies below `cutoff`. Each cell is evaluated once and
/// independently of the others.
///
/// A grid with an axis of length zero has no cell to evaluate and always
/// yields an empty buffer of the given extents, however long its other axis
/// and whatever the cutoff. A grid with cells is rejected with
/// `InvalidDimension` when it has more of them than can be allocated, and
/// otherwise with `InvalidCutoff` when the cutoff is zero.
pub fn sample_grid<Z, P: Fn(usize, usize) -> Z, S: Fn(Z) -> Z, W: Fn(&Z) -> bool>(
    width: usize,
    height: usize,
    cutoff: u32,
    seed: &P,
    step: &S,
    within: &W,
) -> (result: Result<DivergenceBuffer, FractalError>)
    requires
        can_sample(width, height, cutoff, seed, step, within),
    ensures
        width == 0 || height == 0 ==> result is Ok,
        width > 0 && height > 0 && !grid_fits(width as nat, height as nat) ==> result
            == Err::<DivergenceBuffer, _>(FractalError::InvalidDimension),
        width > 0 && height > 0 && grid_fits(width as nat, height as nat) && cutoff == 0
            ==> result == Err::<DivergenceBuffer, _>(FractalError::InvalidCutoff),
        width > 0 && height > 0 && grid_fits(width as nat, height as nat) && cutoff > 0
            ==> result is Ok,
        result matches Ok(buffer) ==> {
            &&& buffer.width() == width
            &&& buffer.height() == height
            &&& buffer.bounded_by(cutoff)
            &&& forall|i: usize, j: usize|
                i < width && j < height ==> is_cell_escape_time(
                    seed,
                    step,
                    within,
                    cutoff,
                    i,
                    j,
                    #[trigger] buffer@[(i as int, j as int)],
                )
        },
{
    if !check_grid(width, height) {
        return Err(FractalError::InvalidDimension);
    }
    if cutoff == 0 && width > 0 && height > 0 {
        return Err(FractalError::InvalidCutoff);
    }
    let mut buffer = match DivergenceBuffer::new(width, height) {
        Ok(buffer) => buffer,
        Err(error) => {
            return Err(error);
        },
    };
    let mut i: usize = 0;
    while i < width
        invariant
            can_sample(width, height, cutoff, seed, step, within),
            cutoff > 0 || width == 0 || height == 0,
            i <= width,
            buffer.width() == width,
            buffer.height() == height,
            forall|a: usize, b: usize|
                a < i && b < height ==> {
                    &&& #[trigger] buffer@[(a as int, b as int)] < cutoff
                    &&& is_cell_escape_time(
                        seed,
                        step,
                        within,
                        cutoff,
                        a,
                        b,
                        buffer@[(a as int, b as int)],
                    )
                },
        decreases width - i,
    {
        let mut j: usize = 0;
        while j < height
            invariant
                can_sample(width, height, cutoff, seed, step, within),
                cutoff > 0 || width == 0 || height == 0,
                i < width,
                j <= height,
                buffer.width() == width,
                buffer.height() == height,
                forall|a: usize, b: usize|
                    (a < i && b < height) || (a == i && b < j) ==> {
                        &&& #[trigger] buffer@[(a as int, b as int)] < cutoff
                        &&& is_cell_escape_time(
                            seed,
                            step,
                            within,
                            cutoff,
                            a,
                            b,
                            buffer@[(a as int, b as int)],
                        )
                    },
            decreases height - j,
        {
            let start = seed(i, j);
            match escape_time(start, step, within, cutoff) {
                Ok(count) => {
                    buffer.set(i, j, count);
                },
                Err(error) => {
                    return Err(error);
                },
            }
            j += 1;
        }
        i += 1;
    }
    Ok(buffer)
}

/// Whether `seed` yields one starting point for each cell.
pub open spec fn seed_is_function<Z, P: Fn(usize, usize) -> Z>(seed: &P) -> bool {
    forall|i: usize, j: usize, a: Z, b: Z| #[trigger]
        seed.ensures((i, j), a) && #[trigger] seed.ensures((i, j), b) ==> a == b
}

/// The scan is a function of its inputs: where `seed`, `step` and `within`
/// each give one answer per argument, a cell has at most one escape time, so
/// the buffer that [`sample_grid`] returns does not depend on the order in
/// which the cells are evaluated.
pub proof fn lemma_cell_escape_time_unique<
    Z,
    P: Fn(usize, usize) -> Z,
    S: Fn(Z) -> Z,
    W: Fn(&Z) -> bool,
>(seed: &P, step: &S, within: &W, cutoff: u32, i: usize, j: usize, first: u32, second: u32)
    requires
        seed_is_function(seed),
        step_is_function(step),
        test_is_function(within),
        is_cell_escape_time(seed, step, within, cutoff, i, j, first),
        is_cell_escape_time(seed, step, within, cutoff, i, j, second),
    ensures
        first == second,
{
    let a = choose|start: Z| #[trigger]
        seed.ensures((i, j), start) && is_escape_time(start, step, within, cutoff, first);
    let b = choose|start: Z| #[trigger]
        seed.ensures((i, j), start) && is_escape_time(start, step, within, cutoff, second);
    lemma_escape_time_unique(a, step, within, cutoff, first, second);
}

} // verus!
