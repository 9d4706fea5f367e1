//! Storage for the two kinds of result buffer, kept in `ndarray` arrays.
//!
//! Nothing in this file is proved. Each array type is opaque to the verifier;
//! what it holds is named by a specification function, and each operation on
//! it is a thin call into `ndarray` whose contract is stated over that name.
//! The rest of the crate is verified against these contracts.
use vstd::prelude::*;

verus! {

/// A two-dimensional `ndarray` array of iteration counts.
#[verifier::external_body]
pub struct CountArray {
    cells: ndarray::Array2<u32>,
}

/// A three-dimensional `ndarray` array of bytes.
#[verifier::external_body]
pub struct ByteArray {
    cells: ndarray::Array3<u8>,
}

/// What a [`CountArray`] holds: the count stored at each index pair. The
/// domain is the set of index pairs inside the array's shape.
pub uninterp spec fn count_cells(a: CountArray) -> Map<(int, int), u32>;

/// What a [`ByteArray`] holds: the byte stored at each index triple. The
/// domain is the set of index triples inside the array's shape.
pub uninterp spec fn byte_cells(a: ByteArray) -> Map<(int, int, int), u8>;

/// What an axis of length `n` contributes to the size that `ndarray` checks
/// when it allocates: axes of length zero are left out of the product.
pub open spec fn axis_factor(n: nat) -> nat {
    if n == 0 {
        1
    } else {
        n
    }
}

/// The index pairs of a two-dimensional shape.
pub open spec fn grid_indices(width: nat, height: nat) -> Set<(int, int)> {
    Set::new(|k: (int, int)| 0 <= k.0 < width && 0 <= k.1 < height)
}

/// The index triples of a three-dimensional shape.
pub open spec fn block_indices(width: nat, height: nat, depth: nat) -> Set<(int, int, int)> {
    Set::new(|k: (int, int, int)| 0 <= k.0 < width && 0 <= k.1 < height && 0 <= k.2 < depth)
}

/// The contents of a freshly zeroed two-dimensional array.
pub open spec fn zero_counts(width: nat, height: nat) -> Map<(int, int), u32> {
    Map::new(|k: (int, int)| grid_indices(width, height).contains(k), |k: (int, int)| 0u32)
}

/// The contents of a freshly zeroed three-dimensional array.
pub open spec fn zero_bytes(width: nat, height: nat, depth: nat) -> Map<(int, int, int), u8> {
    Map::new(
        |k: (int, int, int)| block_indices(width, height, depth).contains(k),
        |k: (int, int, int)| 0u8,
    )
}

/// Calls `ndarray::Array2::<u32>::zeros` with the shape `(width, height)`.
///
/// `ndarray` panics when the product of the non-zero axis lengths exceeds
/// `isize::MAX`, and the allocation behind it panics when the array would take
/// more than `isize::MAX` bytes; the precondition rules both out. (An
/// allocation that the system cannot serve aborts the process; nothing is
/// claimed of that.) The result has exactly the index pairs of the shape, each
/// holding zero.
#[verifier::external_body]
pub(crate) fn zeroed_counts(width: usize, height: usize) -> (a: CountArray)
    requires
        axis_factor(width as nat) * axis_factor(height as nat) * 4 <= isize::MAX,
    ensures
        count_cells(a) == zero_counts(width as nat, height as nat),
{
    CountArray { cells: ndarray::Array2::<u32>::zeros((width, height)) }
}

/// Reads `a[[i, j]]` through `ndarray`'s `Index` impl, which panics on an
/// index outside the shape; inside it, it yields the element stored there.
#[verifier::external_body]
pub(crate) fn count_at(a: &CountArray, i: usize, j: usize) -> (value: u32)
    requires
        count_cells(*a).dom().contains((i as int, j as int)),
    ensures
        value == count_cells(*a)[(i as int, j as int)],
{
    a.cells[[i, j]]
}

/// Writes `a[[i, j]]` through `ndarray`'s `IndexMut` impl, which panics on an
/// index outside the shape; inside it, it does not unwind, replaces that one
/// element and leaves the shape and every other element as they were.
#[verifier::external_body]
pub(crate) fn store_count(a: &mut CountArray, i: usize, j: usize, value: u32)
    requires
        count_cells(*old(a)).dom().contains((i as int, j as int)),
    ensures
        count_cells(*final(a)) == count_cells(*old(a)).insert((i as int, j as int), value),
    no_unwind
{
    a.cells[[i, j]] = value;
}

/// Calls `ndarray::Array3::<u8>::zeros` with the shape `(width, height, depth)`.
///
/// `ndarray` panics when the product of the non-zero axis lengths exceeds
/// `isize::MAX`; the precondition rules that out, and with one byte per
/// element it also keeps the allocation within `isize::MAX` bytes. (An
/// allocation that the system cannot serve aborts the process; nothing is
/// claimed of that.) The result has exactly the index triples of the shape,
/// each holding zero.
#[verifier::external_body]
pub(crate) fn zeroed_bytes(width: usize, height: usize, depth: usize) -> (a: ByteArray)
    requires
        axis_factor(width as nat) * axis_factor(height as nat) * axis_factor(depth as nat)
            <= isize::MAX,
    ensures
        byte_cells(a) == zero_bytes(width as nat, height as nat, depth as nat),
{
    ByteArray { cells: ndarray::Array3::<u8>::zeros((width, height, depth)) }
}

/// Reads `a[[i, j, k]]` through `ndarray`'s `Index` impl, which panics on an
/// index outside the shape; inside it, it yields the element stored there.
#[verifier::external_body]
pub(crate) fn byte_at(a: &ByteArray, i: usize, j: usize, k: usize) -> (value: u8)
    requires
        byte_cells(*a).dom().contains((i as int, j as int, k as int)),
    ensures
        value == byte_cells(*a)[(i as int, j as int, k as int)],
{
    a.cells[[i, j, k]]
}

/// Writes `a[[i, j, k]]` through `ndarray`'s `IndexMut` impl, which panics on
/// an index outside the shape; inside it, it does not unwind, replaces that
/// one element and leaves the shape and every other element as they were.
#[verifier::external_body]
pub(crate) fn store_byte(a: &mut ByteArray, i: usize, j: usize, k: usize, value: u8)
    requires
        byte_cells(*old(a)).dom().contains((i as int, j as int, k as int)),
    ensures
        byte_cells(*final(a)) == byte_cells(*old(a)).insert(
            (i as int, j as int, k as int),
            value,
        ),
    no_unwind
{
    a.cells[[i, j, k]] = value;
}

} // verus!
