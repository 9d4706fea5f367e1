use mandelbrot::{apply_colormap, pyo3, sample_grid, FractalError};
use std::cell::Cell;

#[derive(Clone, Copy)]
struct State {
    zr: f64,
    zi: f64,
    cr: f64,
    ci: f64,
}

fn advance(s: State) -> State {
    State { zr: s.zr * s.zr - s.zi * s.zi + s.cr, zi: s.zr * s.zi + s.zi * s.zr + s.ci, ..s }
}

fn bounded(s: &State) -> bool {
    s.zr * s.zr + s.zi * s.zi <= 4.0
}

fn plane(i: usize, j: usize) -> State {
    State { zr: 0.0, zi: 0.0, cr: -2.0 + 0.5 * i as f64, ci: -1.0 + 0.5 * j as f64 }
}

fn palette(colors: usize) -> Vec<(u8, u8, u8)> {
    (0..colors).map(|k| (k as u8, 100 + k as u8, 200 - k as u8)).collect()
}

#[test]
fn fused_call_equals_scan_then_colour() {
    let table = palette(8);
    let fused = pyo3(6, 5, 16, &plane, &advance, &bounded, &table).unwrap();
    let counts = sample_grid(6, 5, 16, &plane, &advance, &bounded).unwrap();
    let staged = apply_colormap(&counts, 16, &table).unwrap();
    assert_eq!((fused.width(), fused.height()), (6, 5));
    for i in 0..6 {
        for j in 0..5 {
            assert_eq!(fused.color(i, j), staged.color(i, j), "cell ({i}, {j})");
            let count = counts.get(i, j).unwrap() as usize;
            assert_eq!(fused.color(i, j), Some(table[count * 8 / 16]));
        }
    }
}

#[test]
fn fused_call_colours_known_points() {
    // Cells c = -2.5 (escapes at once) and c = -0.5 (never escapes).
    let seed = |i: usize, _: usize| State { zr: 0.0, zi: 0.0, cr: -2.5 + 2.0 * i as f64, ci: 0.0 };
    let table = vec![(1, 2, 3), (4, 5, 6), (7, 8, 9)];
    let pixels = pyo3(2, 1, 30, &seed, &advance, &bounded, &table).unwrap();
    assert_eq!(pixels.color(0, 0), Some((1, 2, 3)));
    assert_eq!(pixels.color(1, 0), Some((7, 8, 9)));
    assert_eq!(pixels.get(1, 0, 2), Some(9));
}

#[test]
fn fused_call_checks_inputs_in_order() {
    let calls = Cell::new(0u32);
    let seed = |i: usize, j: usize| {
        calls.set(calls.get() + 1);
        plane(i, j)
    };
    let none: Vec<(u8, u8, u8)> = Vec::new();
    let some = palette(3);
    let huge = usize::MAX;
    let cases = [
        (2usize, 2usize, 10u32, &none, FractalError::EmptyColorTable),
        (2, 2, 0, &none, FractalError::EmptyColorTable),
        (huge, 2, 0, &none, FractalError::EmptyColorTable),
        (2, 2, 0, &some, FractalError::InvalidCutoff),
        (0, 0, 0, &some, FractalError::InvalidCutoff),
        (huge, 2, 0, &some, FractalError::InvalidCutoff),
        (huge, 2, 10, &some, FractalError::InvalidDimension),
        (2, huge, 10, &some, FractalError::InvalidDimension),
        (0, huge, 0, &some, FractalError::InvalidCutoff),
        (0, huge, 10, &none, FractalError::EmptyColorTable),
    ];
    for (width, height, cutoff, table, expected) in cases {
        let result = pyo3(width, height, cutoff, &seed, &advance, &bounded, table);
        assert_eq!(result.err(), Some(expected), "{width} x {height}, cutoff {cutoff}");
    }
    assert_eq!(calls.get(), 0);
}

#[test]
fn fused_call_on_an_empty_grid() {
    let pixels = pyo3(0, 4, 10, &plane, &advance, &bounded, &palette(3)).unwrap();
    assert_eq!((pixels.width(), pixels.height()), (0, 4));
    assert_eq!(pixels.color(0, 0), None);
}

#[test]
fn fused_call_on_an_empty_grid_with_a_long_axis() {
    let most = isize::MAX as usize;
    for extent in [most / 4 + 1, most / 3 + 1, most, usize::MAX] {
        for (width, height) in [(0, extent), (extent, 0)] {
            let pixels =
                pyo3(width, height, 10, &plane, &advance, &bounded, &palette(3)).unwrap();
            assert_eq!((pixels.width(), pixels.height()), (width, height));
            assert_eq!(pixels.color(0, 0), None);
            assert_eq!(pixels.get(0, 0, 0), None);
        }
    }
}
