use fractals::escape::EscapeCounter;
use fractals::raster::Size;
use fractals::render::render;
use fractals::symbol::to_symbol;
use fractals::terminal::{fit_terminal, odd_height, term_transform};
use num::complex::Complex64;

fn run_counter(max_iters: usize, exceeded: &[bool]) -> usize {
    let mut counter = EscapeCounter::new(max_iters);
    for &e in exceeded {
        if let Some(n) = counter.observe(e) {
            return n;
        }
    }
    panic!("the counter asked for more escape tests than were given");
}

fn orbit_count(z0: Complex64, c: Complex64, max_iters: usize) -> usize {
    let mut z = z0;
    let mut counter = EscapeCounter::new(max_iters);
    loop {
        if let Some(n) = counter.observe(z.norm() > 2.0) {
            return n;
        }
        z = z.powu(2) + c;
    }
}

#[test]
fn symbol_examples() {
    assert_eq!(to_symbol(0), ' ');
    assert_eq!(to_symbol(5), '.');
    assert_eq!(to_symbol(30), '*');
    assert_eq!(to_symbol(1000), '%');
}

#[test]
fn symbol_bucket_edges() {
    let cases = [
        (2, ' '),
        (3, '.'),
        (6, '\u{2022}'),
        (10, '\u{2022}'),
        (11, '*'),
        (31, '+'),
        (100, '+'),
        (101, 'x'),
        (200, 'x'),
        (201, '$'),
        (400, '$'),
        (401, '#'),
        (700, '#'),
        (701, '%'),
        (usize::MAX, '%'),
    ];
    for (n, ch) in cases {
        assert_eq!(to_symbol(n), ch, "count {}", n);
    }
}

#[test]
fn symbol_each_count_one_of_nine() {
    let glyphs = [' ', '.', '\u{2022}', '*', '+', 'x', '$', '#', '%'];
    let mut last = 0;
    for n in 0..2000 {
        let idx = glyphs.iter().position(|&g| g == to_symbol(n)).unwrap();
        assert!(idx == last || idx == last + 1);
        last = idx;
    }
    assert_eq!(last, 8);
}

#[test]
fn size_dimensions() {
    let s = Size::new(4, 3);
    assert_eq!(s.width(), 4);
    assert_eq!(s.height(), 3);
    assert_eq!(s.total(), 12);
}

#[test]
fn pixel_cells_row_major() {
    let s = Size::new(4, 3);
    assert_eq!(s.pixel_cell(0), (0, 0));
    assert_eq!(s.pixel_cell(5), (1, 1));
    assert_eq!(s.pixel_cell(11), (3, 2));
    for pos in 0..s.total() {
        let (col, row) = s.pixel_cell(pos);
        assert!(col < 4 && row < 3);
        let x = (col as f64 + 0.5) / 4.0;
        let y = (row as f64 + 0.5) / 3.0;
        assert!(x > 0.0 && x < 1.0 && y > 0.0 && y < 1.0);
    }
}

#[test]
fn escape_never_exceeding_reaches_cap() {
    assert_eq!(run_counter(1000, &[false; 1001]), 1000);
    assert_eq!(run_counter(0, &[false]), 0);
}

#[test]
fn escape_returns_first_exceeding_step() {
    let mut tests = [false; 11];
    tests[3] = true;
    tests[7] = true;
    assert_eq!(run_counter(10, &tests), 3);
    assert_eq!(run_counter(10, &[true; 11]), 0);
}

#[test]
fn escape_exceeding_at_cap() {
    let mut tests = [false; 6];
    tests[5] = true;
    assert_eq!(run_counter(5, &tests), 5);
}

#[test]
fn escape_counter_state() {
    let mut counter = EscapeCounter::new(2);
    assert_eq!(counter.step(), 0);
    assert_eq!(counter.max_iters(), 2);
    assert_eq!(counter.observe(false), None);
    assert_eq!(counter.step(), 1);
    assert_eq!(counter.observe(true), Some(1));
}

#[test]
fn origin_orbit_never_escapes() {
    let zero = Complex64::new(0.0, 0.0);
    assert_eq!(orbit_count(zero, zero, 1000), 1000);
}

#[test]
fn far_point_escapes_at_once() {
    let zero = Complex64::new(0.0, 0.0);
    assert_eq!(orbit_count(Complex64::new(3.0, 0.0), zero, 1000), 0);
    assert_eq!(orbit_count(zero, Complex64::new(3.0, 0.0), 1000), 1);
}

#[test]
fn render_single_pixel_mandelbrot() {
    let size = Size::new(1, 1);
    let (col, row) = size.pixel_cell(0);
    let x = -1.0 + (col as f64 + 0.5) / 1.0 * 2.0;
    let y = -1.0 + (row as f64 + 0.5) / 1.0 * 2.0;
    assert_eq!((x, y), (0.0, 0.0));
    let n = orbit_count(Complex64::new(0.0, 0.0), Complex64::new(x, y), 10);
    assert_eq!(n, 10);
    assert_eq!(render(&size, &vec![n]), "\u{2022}\n");
}

#[test]
fn render_rows_in_order() {
    let size = Size::new(3, 2);
    let text = render(&size, &vec![0, 5, 30, 1000, 10, 100]);
    assert_eq!(text, " .*\n%\u{2022}+\n");
}

#[test]
fn render_line_shape() {
    let size = Size::new(7, 5);
    let counts: Vec<usize> = (0..35).map(|i| i * 37).collect();
    let text = render(&size, &counts);
    assert!(text.ends_with('\n'));
    let lines: Vec<&str> = text.split_terminator('\n').collect();
    assert_eq!(lines.len(), 5);
    for line in lines {
        assert_eq!(line.chars().count(), 7);
    }
}

#[test]
fn terminal_limited_by_height() {
    assert_eq!(term_transform(120, 30, 3, 1), (90, 30));
    let size = fit_terminal(120, 30, 3, 1).unwrap();
    assert_eq!((size.width(), size.height()), (90, 29));
}

#[test]
fn terminal_limited_by_width() {
    assert_eq!(term_transform(80, 40, 3, 1), (80, 26));
    let size = fit_terminal(80, 40, 3, 1).unwrap();
    assert_eq!((size.width(), size.height()), (80, 25));
    assert_eq!(term_transform(90, 30, 3, 1), (90, 30));
}

#[test]
fn terminal_fractional_aspect() {
    assert_eq!(term_transform(100, 10, 5, 2), (25, 10));
    assert_eq!(term_transform(20, 10, 5, 2), (20, 8));
}

#[test]
fn terminal_too_small() {
    assert_eq!(term_transform(2, 30, 3, 1), (2, 0));
    assert!(fit_terminal(2, 30, 3, 1).is_none());
    assert!(fit_terminal(0, 0, 3, 1).is_none());
}

#[test]
fn odd_heights() {
    assert_eq!(odd_height(30), 29);
    assert_eq!(odd_height(29), 29);
    assert_eq!(odd_height(1), 1);
    assert_eq!(odd_height(2), 1);
}
