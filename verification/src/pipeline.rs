//! The whole pipeline in one call: scan the grid, then colour it.
use crate::buffer::{grid_fits, PixelBuffer};
use crate::colormap::{apply_colormap, color_of};
use crate::error::FractalError;
use crate::escape::{step_is_function, test_is_function};
use crate::grid::{
    can_sample, is_cell_escape_time, lemma_cell_escape_time_unique, sample_grid, seed_is_function,
};
use vstd::prelude::*;

verus! {

/// Whether `color` is a colour of cell `(i, j)`: the colour that `table`
/// assigns to an escape time of that cell.
pub open spec fn is_cell_color<Z, P: Fn(usize, usize) -> Z, S: Fn(Z) -> Z, W: Fn(&Z) -> bool>(
    seed: &P,
    step: &S,
    within: &W,
    cutoff: u32,
    table: Seq<(u8, u8, u8)>,
    i: usize,
    j: usize,
    color: (u8, u8, u8),
) -> bool {
    exists|count: u32| #[trigger]
        is_cell_escape_time(seed, step, within, cutoff, i, j, count) && color == color_of(
            count,
            cutoff,
            table,
        )
}

/// Scans a `width` by `height` grid and colours it, as
/// [`sample_grid`] followed by [`apply_colormap`] would: cell `(i, j)` of the
/// result holds the colour that `table` assigns to an escape time of
/// `seed(i, j)`. This is the one operation that the Python module of the same
/// name offers.
///
/// Every input is checked before any cell is evaluated: an empty table is
/// rejected with `EmptyColorTable`, otherwise a cutoff of zero with
/// `InvalidCutoff`, otherwise a grid with more cells than can be allocated
/// with `InvalidDimension`. Every other input yields a fully coloured buffer;
/// for a grid with an axis of length zero that is an empty one.
pub fn pyo3<Z, P: Fn(usize, usize) -> Z, S: Fn(Z) -> Z, W: Fn(&Z) -> bool>(
    width: usize,
    height: usize,
    cutoff: u32,
    seed: &P,
    step: &S,
    within: &W,
    table: &[(u8, u8, u8)],
) -> (result: Result<PixelBuffer, FractalError>)
    requires
        can_sample(width, height, cutoff, seed, step, within),
    ensures
        table@.len() == 0 ==> result == Err::<PixelBuffer, _>(FractalError::EmptyColorTable),
        table@.len() > 0 && cutoff == 0 ==> result == Err::<PixelBuffer, _>(
            FractalError::InvalidCutoff,
        ),
        table@.len() > 0 && cutoff > 0 && (width == 0 || height == 0) ==> result is Ok,
        table@.len() > 0 && cutoff > 0 && width > 0 && height > 0 && !grid_fits(
            width as nat,
            height as nat,
        ) ==> result == Err::<PixelBuffer, _>(FractalError::InvalidDimension),
        table@.len() > 0 && cutoff > 0 && grid_fits(width as nat, height as nat) ==> result is Ok,
        result matches Ok(pixels) ==> {
            &&& pixels.width() == width
            &&& pixels.height() == height
            &&& forall|i: usize, j: usize|
                i < width && j < height ==> is_cell_color(
                    seed,
                    step,
                    within,
                    cutoff,
                    table@,
                    i,
                    j,
                    #[trigger] pixels.color_at(i as int, j as int),
                )
        },
{
    if table.len() == 0 {
        return Err(FractalError::EmptyColorTable);
    }
    if cutoff == 0 {
        return Err(FractalError::InvalidCutoff);
    }
    let divergence = match sample_grid(width, height, cutoff, seed, step, within) {
        Ok(divergence) => divergence,
        Err(error) => {
            return Err(error);
        },
    };
    let result = apply_colormap(&divergence, cutoff, table);
    proof {
        if result is Ok {
            let pixels = result->Ok_0;
            assert forall|i: usize, j: usize| i < width && j < height implies is_cell_color(
                seed,
                step,
                within,
                cutoff,
                table@,
                i,
                j,
                #[trigger] pixels.color_at(i as int, j as int),
            ) by {
                let count = divergence@[(i as int, j as int)];
                assert(is_cell_escape_time(seed, step, within, cutoff, i, j, count));
            }
        }
    }
    result
}

/// The fused call is a function of its inputs: where `seed`, `step` and
/// `within` each give one answer per argument, a cell has at most one colour.
pub proof fn lemma_cell_color_unique<
    Z,
    P: Fn(usize, usize) -> Z,
    S: Fn(Z) -> Z,
    W: Fn(&Z) -> bool,
>(
    seed: &P,
    step: &S,
    within: &W,
    cutoff: u32,
    table: Seq<(u8, u8, u8)>,
    i: usize,
    j: usize,
    first: (u8, u8, u8),
    second: (u8, u8, u8),
)
    requires
        seed_is_function(seed),
        step_is_function(step),
        test_is_function(within),
        is_cell_color(seed, step, within, cutoff, table, i, j, first),
        is_cell_color(seed, step, within, cutoff, table, i, j, second),
    ensures
        first == second,
{
    let a = choose|count: u32| #[trigger]
        is_cell_escape_time(seed, step, within, cutoff, i, j, count) && first == color_of(
            count,
            cutoff,
            table,
        );
    let b = choose|count: u32| #[trigger]
        is_cell_escape_time(seed, step, within, cutoff, i, j, count) && second == color_of(
            count,
            cutoff,
            table,
        );
    lemma_cell_escape_time_unique(seed, step, within, cutoff, i, j, a, b);
}

} // verus!
