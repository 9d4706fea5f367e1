//! The two result buffers: iteration counts per grid cell, and colours per
//! grid cell.
use crate::array::{
    block_indices, byte_at, byte_cells, count_at, count_cells, grid_indices,
    store_byte, store_count, zeroed_bytes, zeroed_counts, ByteArray, CountArray,
};
use crate::error::FractalError;
use vstd::prelude::*;

verus! {

/// The number of colour channels of a pixel: red, green, blue.
pub const CHANNELS: usize = 3;

/// Whether a grid of `width` by `height` cells can be held, both as a buffer
/// of 32-bit counts and as a buffer of three bytes per cell. A grid with an
/// axis of length zero has no cells and always can, however long its other
/// axis; a grid with cells can when its counts take at most `isize::MAX`
/// bytes.
pub open spec fn grid_fits(width: nat, height: nat) -> bool {
    width == 0 || height == 0 || width * height * 4 <= isize::MAX
}

/// A grid of at most 16384 cells along each axis fits on every platform.
pub proof fn lemma_small_grid_fits(width: nat, height: nat)
    requires
        width <= 0x4000,
        height <= 0x4000,
    ensures
        grid_fits(width, height),
{
    assert(width * height * 4 <= 0x4000_0000) by (nonlinear_arith)
        requires
            width <= 0x4000,
            height <= 0x4000,
    ;
}

/// Decides [`grid_fits`] without overflowing.
pub fn check_grid(width: usize, height: usize) -> (fits: bool)
    ensures
        fits == grid_fits(width as nat, height as nat),
        width == 0 || height == 0 ==> fits,
{
    if width == 0 || height == 0 {
        return true;
    }
    match width.checked_mul(height) {
        Some(cells) => match cells.checked_mul(4) {
            Some(bytes) => bytes <= isize::MAX as usize,
            None => false,
        },
        None => {
            assert(width * height * 4 >= width * height) by (nonlinear_arith)
                requires
                    width * height >= 0,
            ;
            false
        },
    }
}

/// A two-dimensional buffer of iteration counts, one per grid cell. Cell
/// `(i, j)` has `i` below the width and `j` below the height, so a buffer
/// with an axis of length zero has no cells and stores nothing.
pub struct DivergenceBuffer {
    width: usize,
    height: usize,
    cells: CountArray,
}

impl View for DivergenceBuffer {
    type V = Map<(int, int), u32>;

    /// The count stored at each cell; the cells are the keys.
    closed spec fn view(&self) -> Map<(int, int), u32> {
        Map::new(
            |k: (int, int)| grid_indices(self.width as nat, self.height as nat).contains(k),
            |k: (int, int)| count_cells(self.cells)[k],
        )
    }
}

impl DivergenceBuffer {
    #[verifier::type_invariant]
    spec fn well_formed(self) -> bool {
        &&& count_cells(self.cells).dom() =~= grid_indices(self.width as nat, self.height as nat)
        &&& grid_fits(self.width as nat, self.height as nat)
    }

    /// The extent of the first axis.
    pub closed spec fn spec_width(&self) -> usize {
        self.width
    }

    /// The extent of the second axis.
    pub closed spec fn spec_height(&self) -> usize {
        self.height
    }

    /// Whether `(i, j)` is a cell of this buffer.
    pub open spec fn has_cell(&self, i: int, j: int) -> bool {
        0 <= i < self.width() && 0 <= j < self.height()
    }

    /// Whether every count in the buffer lies below `cutoff`, as the counts
    /// of a scan with that cutoff do.
    pub open spec fn bounded_by(&self, cutoff: u32) -> bool {
        forall|i: int, j: int| self.has_cell(i, j) ==> #[trigger] self@[(i, j)] < cutoff
    }

    /// A buffer of the given shape with every count zero. A shape with an
    /// axis of length zero always yields an empty buffer; a shape with cells
    /// is rejected with `InvalidDimension` when it has more of them than can
    /// be allocated.
    pub fn new(width: usize, height: usize) -> (result: Result<DivergenceBuffer, FractalError>)
        ensures
            width == 0 || height == 0 ==> result is Ok,
            grid_fits(width as nat, height as nat) ==> result is Ok,
            width > 0 && height > 0 && !grid_fits(width as nat, height as nat) ==> result
                == Err::<DivergenceBuffer, _>(FractalError::InvalidDimension),
            result matches Ok(buffer) ==> {
                &&& buffer.width() == width
                &&& buffer.height() == height
                &&& forall|i: int, j: int| buffer.has_cell(i, j) ==> #[trigger] buffer@[(i, j)] == 0
            },
    {
        if !check_grid(width, height) {
            return Err(FractalError::InvalidDimension);
        }
        // A grid without cells stores nothing, whatever its extents.
        let cells = if width == 0 || height == 0 {
            zeroed_counts(0, 0)
        } else {
            zeroed_counts(width, height)
        };
        Ok(DivergenceBuffer { width, height, cells })
    }

    /// The extent of the first axis.
    #[verifier::when_used_as_spec(spec_width)]
    pub fn width(&self) -> (width: usize)
        ensures
            width == self.width(),
    {
        self.width
    }

    /// The extent of the second axis.
    #[verifier::when_used_as_spec(spec_height)]
    pub fn height(&self) -> (height: usize)
        ensures
            height == self.height(),
    {
        self.height
    }

    /// The keys of the view are exactly the cells of the buffer.
    pub proof fn lemma_view_keys(&self)
        ensures
            forall|i: int, j: int| self@.dom().contains((i, j)) <==> self.has_cell(i, j),
    {
    }

    /// The count at cell `(i, j)`.
    pub(crate) fn count(&self, i: usize, j: usize) -> (value: u32)
        requires
            self.has_cell(i as int, j as int),
        ensures
            value == self@[(i as int, j as int)],
    {
        proof {
            use_type_invariant(self);
        }
        count_at(&self.cells, i, j)
    }

    /// The count at cell `(i, j)`, or `None` when there is no such cell.
    pub fn get(&self, i: usize, j: usize) -> (value: Option<u32>)
        ensures
            value == if self.has_cell(i as int, j as int) {
                Some(self@[(i as int, j as int)])
            } else {
                None
            },
    {
        if i < self.width && j < self.height {
            Some(self.count(i, j))
        } else {
            None
        }
    }

    /// Stores `value` at cell `(i, j)` and leaves every other cell and the
    /// shape as they were.
    pub fn set(&mut self, i: usize, j: usize, value: u32)
        requires
            old(self).has_cell(i as int, j as int),
        ensures
            final(self).width() == old(self).width(),
            final(self).height() == old(self).height(),
            final(self)@ == old(self)@.insert((i as int, j as int), value),
    {
        proof {
            use_type_invariant(&*self);
        }
        store_count(&mut self.cells, i, j, value);
    }
}

/// A three-dimensional buffer of bytes holding one colour per grid cell: the
/// byte at `(i, j, c)` is channel `c` of cell `(i, j)`, the channels being
/// red, green and blue in that order.
pub struct PixelBuffer {
    width: usize,
    height: usize,
    cells: ByteArray,
}

impl View for PixelBuffer {
    type V = Map<(int, int, int), u8>;

    /// The byte stored at each cell and channel; the cells with their
    /// channels are the keys.
    closed spec fn view(&self) -> Map<(int, int, int), u8> {
        Map::new(
            |k: (int, int, int)|
                block_indices(self.width as nat, self.height as nat, CHANNELS as nat).contains(k),
            |k: (int, int, int)| byte_cells(self.cells)[k],
        )
    }
}

impl PixelBuffer {
    #[verifier::type_invariant]
    spec fn well_formed(self) -> bool {
        byte_cells(self.cells).dom() =~= block_indices(
            self.width as nat,
            self.height as nat,
            CHANNELS as nat,
        )
    }

    /// The extent of the first axis.
    pub closed spec fn spec_width(&self) -> usize {
        self.width
    }

    /// The extent of the second axis.
    pub closed spec fn spec_height(&self) -> usize {
        self.height
    }

    /// Whether `(i, j)` is a cell of this buffer.
    pub open spec fn has_cell(&self, i: int, j: int) -> bool {
        0 <= i < self.width() && 0 <= j < self.height()
    }

    /// The colour of cell `(i, j)` as a red, green, blue triple.
    pub open spec fn color_at(&self, i: int, j: int) -> (u8, u8, u8) {
        (self@[(i, j, 0)], self@[(i, j, 1)], self@[(i, j, 2)])
    }

    /// A buffer for the grid of `counts` with every byte zero. It can always
    /// be allocated: it takes three bytes per cell where `counts` takes four,
    /// and nothing at all for a grid without cells.
    pub(crate) fn like(counts: &DivergenceBuffer) -> (buffer: PixelBuffer)
        ensures
            buffer.width() == counts.width(),
            buffer.height() == counts.height(),
    {
        proof {
            use_type_invariant(counts);
        }
        let width = counts.width;
        let height = counts.height;
        let cells = if width == 0 || height == 0 {
            zeroed_bytes(0, 0, CHANNELS)
        } else {
            assert(width * height * 3 <= isize::MAX) by (nonlinear_arith)
                requires
                    width * height * 4 <= isize::MAX,
                    width > 0,
                    height > 0,
            ;
            zeroed_bytes(width, height, CHANNELS)
        };
        PixelBuffer { width, height, cells }
    }

    /// The keys of the view are exactly the cells of the buffer, each with
    /// its three channels.
    pub proof fn lemma_view_keys(&self)
        ensures
            forall|i: int, j: int, c: int|
                self@.dom().contains((i, j, c)) <==> self.has_cell(i, j) && 0 <= c < CHANNELS,
    {
    }

    /// The extent of the first axis.
    #[verifier::when_used_as_spec(spec_width)]
    pub fn width(&self) -> (width: usize)
        ensures
            width == self.width(),
    {
        self.width
    }

    /// The extent of the second axis.
    #[verifier::when_used_as_spec(spec_height)]
    pub fn height(&self) -> (height: usize)
        ensures
            height == self.height(),
    {
        self.height
    }

    /// The byte of channel `channel` at cell `(i, j)`, or `None` when there
    /// is no such cell or channel.
    pub fn get(&self, i: usize, j: usize, channel: usize) -> (value: Option<u8>)
        ensures
            value == if self.has_cell(i as int, j as int) && channel < CHANNELS {
                Some(self@[(i as int, j as int, channel as int)])
            } else {
                None
            },
    {
        proof {
            use_type_invariant(self);
        }
        if i < self.width && j < self.height && channel < CHANNELS {
            Some(byte_at(&self.cells, i, j, channel))
        } else {
            None
        }
    }

    /// The colour of cell `(i, j)`, or `None` when there is no such cell.
    pub fn color(&self, i: usize, j: usize) -> (value: Option<(u8, u8, u8)>)
        ensures
            value == if self.has_cell(i as int, j as int) {
                Some(self.color_at(i as int, j as int))
            } else {
                None
            },
    {
        proof {
            use_type_invariant(self);
        }
        if i < self.width && j < self.height {
            Some(
                (
                    byte_at(&self.cells, i, j, 0),
                    byte_at(&self.cells, i, j, 1),
                    byte_at(&self.cells, i, j, 2),
                ),
            )
        } else {
            None
        }
    }

    /// Stores `color` at cell `(i, j)`, one byte per channel, and leaves
    /// every other cell and the shape as they were.
    pub(crate) fn set_color(&mut self, i: usize, j: usize, color: (u8, u8, u8))
        requires
            old(self).has_cell(i as int, j as int),
        ensures
            final(self).width() == old(self).width(),
            final(self).height() == old(self).height(),
            final(self)@ == old(self)@.insert((i as int, j as int, 0), color.0).insert(
                (i as int, j as int, 1),
                color.1,
            ).insert((i as int, j as int, 2), color.2),
    {
        proof {
            use_type_invariant(&*self);
        }
        store_byte(&mut self.cells, i, j, 0, color.0);
        store_byte(&mut self.cells, i, j, 1, color.1);
        store_byte(&mut self.cells, i, j, 2, color.2);
    }
}

} // verus!
