use mandelbrot::buffer::check_grid;
use mandelbrot::{DivergenceBuffer, FractalError};

#[test]
fn new_buffer_is_zero_filled() {
    let buffer = DivergenceBuffer::new(3, 5).unwrap();
    assert_eq!(buffer.width(), 3);
    assert_eq!(buffer.height(), 5);
    for i in 0..3 {
        for j in 0..5 {
            assert_eq!(buffer.get(i, j), Some(0));
        }
    }
}

#[test]
fn get_outside_the_shape_is_none() {
    let buffer = DivergenceBuffer::new(3, 5).unwrap();
    assert_eq!(buffer.get(3, 0), None);
    assert_eq!(buffer.get(0, 5), None);
    assert_eq!(buffer.get(5, 3), None);
    assert_eq!(buffer.get(usize::MAX, usize::MAX), None);
}

#[test]
fn set_changes_one_cell_only() {
    let mut buffer = DivergenceBuffer::new(4, 3).unwrap();
    buffer.set(2, 1, 77);
    buffer.set(0, 0, 5);
    buffer.set(3, 2, u32::MAX);
    for i in 0..4 {
        for j in 0..3 {
            let expected = match (i, j) {
                (2, 1) => 77,
                (0, 0) => 5,
                (3, 2) => u32::MAX,
                _ => 0,
            };
            assert_eq!(buffer.get(i, j), Some(expected), "cell ({i}, {j})");
        }
    }
    buffer.set(2, 1, 78);
    assert_eq!(buffer.get(2, 1), Some(78));
    assert_eq!(buffer.get(1, 2), Some(0));
    assert_eq!((buffer.width(), buffer.height()), (4, 3));
}

#[test]
fn axes_are_not_interchanged() {
    let mut buffer = DivergenceBuffer::new(2, 7).unwrap();
    buffer.set(1, 6, 9);
    assert_eq!(buffer.get(1, 6), Some(9));
    assert_eq!(buffer.get(6, 1), None);
}

#[test]
fn empty_shapes_are_buffers_without_cells() {
    for (width, height) in [(0usize, 0usize), (0, 9), (9, 0)] {
        let buffer = DivergenceBuffer::new(width, height).unwrap();
        assert_eq!((buffer.width(), buffer.height()), (width, height));
        assert_eq!(buffer.get(0, 0), None);
    }
}

#[test]
fn empty_shapes_fit_however_long_the_other_axis() {
    let most = isize::MAX as usize;
    let long = [most / 4, most / 4 + 1, most / 3 + 1, most, most + 1, usize::MAX];
    for extent in long {
        for (width, height) in [(0, extent), (extent, 0)] {
            assert!(check_grid(width, height), "{width} x {height}");
            let buffer = DivergenceBuffer::new(width, height).unwrap();
            assert_eq!((buffer.width(), buffer.height()), (width, height));
            assert_eq!(buffer.get(0, 0), None);
            assert_eq!(buffer.get(width / 2, height / 2), None);
            assert_eq!(buffer.get(extent - 1, 0), None);
            assert_eq!(buffer.get(0, extent - 1), None);
        }
    }
}

#[test]
fn oversized_shapes_are_rejected() {
    let too_large = [
        (usize::MAX, usize::MAX),
        (usize::MAX, 1),
        (1, usize::MAX),
        (isize::MAX as usize / 4 + 1, 1),
        (1 << (usize::BITS / 2), 1 << (usize::BITS / 2 - 2)),
    ];
    for (width, height) in too_large {
        assert!(!check_grid(width, height), "{width} x {height}");
        assert_eq!(
            DivergenceBuffer::new(width, height).err(),
            Some(FractalError::InvalidDimension),
            "{width} x {height}"
        );
    }
}

#[test]
fn check_grid_limit_is_exact() {
    let most = isize::MAX as usize / 4;
    assert!(check_grid(most, 1));
    assert!(check_grid(1, most));
    assert!(check_grid(most, 0));
    assert!(check_grid(0, 0));
    assert!(check_grid(16384, 16384));
    assert!(!check_grid(most + 1, 1));
    assert!(!check_grid(most / 2 + 1, 2));
    assert!(check_grid(most / 2, 2));
}
