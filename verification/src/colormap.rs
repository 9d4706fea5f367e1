//! Quantizing escape times into colours.
//!
//! A count `v` under cutoff `c` selects entry `floor(v * n / c)` of a table of
//! `n` colours, so the counts `0..c` spread evenly over the table. A count at
//! or above the cutoff would select an entry past the end; it is given the
//! last entry instead.
use crate::buffer::{DivergenceBuffer, PixelBuffer};
use crate::error::FractalError;
use vstd::prelude::*;

verus! {

/// The table index of the count `value` under `cutoff` in a table of `colors`
/// entries: `floor(value * colors / cutoff)`, or the last index where that
/// lies past the end of the table.
pub open spec fn color_index_of(value: u32, cutoff: u32, colors: nat) -> nat
    recommends
        cutoff > 0,
        colors > 0,
{
    let scaled = (value as nat * colors) / (cutoff as nat);
    if scaled < colors {
        scaled
    } else {
        (colors - 1) as nat
    }
}

/// The colour that `table` assigns to the count `value` under `cutoff`.
pub open spec fn color_of(value: u32, cutoff: u32, table: Seq<(u8, u8, u8)>) -> (u8, u8, u8)
    recommends
        cutoff > 0,
        table.len() > 0,
{
    table[color_index_of(value, cutoff, table.len()) as int]
}

/// A count below the cutoff never needs the clamp: its scaled value already
/// lies inside the table.
pub proof fn lemma_count_below_cutoff_is_unclamped(value: u32, cutoff: u32, colors: nat)
    requires
        value < cutoff,
        colors > 0,
    ensures
        color_index_of(value, cutoff, colors) == (value as nat * colors) / (cutoff as nat),
        color_index_of(value, cutoff, colors) < colors,
{
    let v = value as int;
    let c = cutoff as int;
    let n = colors as int;
    assert((v * n) / c < n) by (nonlinear_arith)
        requires
            0 <= v < c,
            0 < n,
    ;
}

/// The table index of one count, computed without overflow.
///
/// An empty table is rejected with `EmptyColorTable`, and otherwise a cutoff
/// of zero with `InvalidCutoff`; every other input yields an index, which
/// always lies inside the table.
pub fn color_index(value: u32, cutoff: u32, colors: usize) -> (result: Result<
    usize,
    FractalError,
>)
    ensures
        colors == 0 ==> result == Err::<usize, _>(FractalError::EmptyColorTable),
        colors > 0 && cutoff == 0 ==> result == Err::<usize, _>(FractalError::InvalidCutoff),
        colors > 0 && cutoff > 0 ==> result == Ok::<_, FractalError>(
            color_index_of(value, cutoff, colors as nat) as usize,
        ),
        result matches Ok(index) ==> index < colors,
{
    if colors == 0 {
        return Err(FractalError::EmptyColorTable);
    }
    if cutoff == 0 {
        return Err(FractalError::InvalidCutoff);
    }
    assert(value * colors <= 0xffff_ffff * 0xffff_ffff_ffff_ffff) by (nonlinear_arith)
        requires
            0 <= value <= 0xffff_ffff,
            0 <= colors <= 0xffff_ffff_ffff_ffff,
    ;
    let scaled: u128 = (value as u128 * colors as u128) / (cutoff as u128);
    if scaled < colors as u128 {
        Ok(scaled as usize)
    } else {
        Ok(colors - 1)
    }
}

/// Colours every cell of `divergence`: the result has the shape of
/// `divergence` with three channels per cell, and cell `(i, j)` holds the
/// entry of `table` that the count at `(i, j)` selects under `cutoff`, red
/// first, then green, then blue.
///
/// An empty table is rejected with `EmptyColorTable` before anything is
/// looked up, and otherwise a cutoff of zero with `InvalidCutoff`. Nothing
/// else fails: counts at or above the cutoff take the last colour.
pub fn apply_colormap(divergence: &DivergenceBuffer, cutoff: u32, table: &[(u8, u8, u8)]) -> (result:
    Result<PixelBuffer, FractalError>)
    ensures
        table@.len() == 0 ==> result == Err::<PixelBuffer, _>(FractalError::EmptyColorTable),
        table@.len() > 0 && cutoff == 0 ==> result == Err::<PixelBuffer, _>(
            FractalError::InvalidCutoff,
        ),
        table@.len() > 0 && cutoff > 0 ==> result is Ok,
        result matches Ok(pixels) ==> {
            &&& pixels.width() == divergence.width()
            &&& pixels.height() == divergence.height()
            &&& forall|i: int, j: int|
                divergence.has_cell(i, j) ==> #[trigger] pixels.color_at(i, j) == color_of(
                    divergence@[(i, j)],
                    cutoff,
                    table@,
                )
        },
{
    if table.len() == 0 {
        return Err(FractalError::EmptyColorTable);
    }
    if cutoff == 0 {
        return Err(FractalError::InvalidCutoff);
    }
    let width = divergence.width();
    let height = divergence.height();
    let mut pixels = PixelBuffer::like(divergence);
    let mut i: usize = 0;
    while i < width
        invariant
            table@.len() > 0,
            cutoff > 0,
            width == divergence.width(),
            height == divergence.height(),
            pixels.width() == width,
            pixels.height() == height,
            i <= width,
            forall|a: int, b: int|
                0 <= a < i && 0 <= b < height ==> pixels.color_at(a, b) == color_of(
                    #[trigger] divergence@[(a, b)],
                    cutoff,
                    table@,
                ),
        decreases width - i,
    {
        let mut j: usize = 0;
        while j < height
            invariant
                table@.len() > 0,
                cutoff > 0,
                width == divergence.width(),
                height == divergence.height(),
                pixels.width() == width,
                pixels.height() == height,
                i < width,
                j <= height,
                forall|a: int, b: int|
                    (0 <= a < i && 0 <= b < height) || (a == i && 0 <= b < j)
                        ==> pixels.color_at(a, b) == color_of(
                        #[trigger] divergence@[(a, b)],
                        cutoff,
                        table@,
                    ),
            decreases height - j,
        {
            let value = divergence.count(i, j);
            match color_index(value, cutoff, table.len()) {
                Ok(index) => {
                    pixels.set_color(i, j, table[index]);
                },
                Err(error) => {
                    return Err(error);
                },
            }
            j += 1;
        }
        i += 1;
    }
    Ok(pixels)
}

} // verus!
