use wleave::grid::{pack, AspectRatio, Fraction, GridGeometry, LayoutConfig};
use wleave::measure::{collect, measure, Orientation, SizeRequest};
use wleave::placement::{allocate, Placement};

fn value(f: Fraction) -> f64 {
    f.num as f64 / f.den as f64
}

fn area(g: &GridGeometry) -> f64 {
    value(g.cell_width) * value(g.cell_height)
}

fn config(spacing: i32, aspect: Option<(u32, u32)>) -> LayoutConfig {
    LayoutConfig {
        column_spacing: spacing,
        row_spacing: spacing,
        aspect_ratio: aspect.map(|(num, den)| AspectRatio { num, den }),
    }
}

fn is_tight(n: usize, rows: usize, cols: usize) -> bool {
    rows * cols >= n && rows * cols - n < rows && rows * cols - n < cols
}

/// The cell of one candidate, computed here in floating point.
fn cell_area(n_rows: usize, n_cols: usize, w: f64, h: f64, cs: f64, rs: f64, a: Option<f64>) -> f64 {
    let qw = (w - (n_cols as f64 - 1.0) * cs) / n_cols as f64;
    let qh = (h - (n_rows as f64 - 1.0) * rs) / n_rows as f64;
    match a {
        None => qw * qh,
        Some(a) => {
            let cw = qw.min(qh * a);
            cw * (cw / a)
        }
    }
}

#[test]
fn six_items_wide_box() {
    // Two tight grids tie on area here (1 x 6 cells of 100 x 300 and 2 x 3
    // cells of 200 x 150); the first one searched is kept.
    let g = pack(6, 600, 300, &config(0, None)).unwrap();
    assert_eq!((g.rows, g.cols), (1, 6));
    assert_eq!(value(g.cell_width), 100.0);
    assert_eq!(value(g.cell_height), 300.0);
    assert_eq!(area(&g), 200.0 * 150.0);
}

#[test]
fn six_items_with_spacing_prefers_two_by_three() {
    let g = pack(6, 600, 400, &config(10, None)).unwrap();
    assert_eq!((g.rows, g.cols), (2, 3));
    assert_eq!(g.cell_width.num * 3, 580 * g.cell_width.den);
    assert_eq!(value(g.cell_height), 195.0);
}

#[test]
fn five_items_square_box() {
    // 1 x 5 gives cells of 100 x 500, larger than the 166.7 x 250 of 2 x 3.
    let g = pack(5, 500, 500, &config(0, None)).unwrap();
    assert_eq!((g.rows, g.cols), (1, 5));
    assert!(area(&g) > cell_area(2, 3, 500.0, 500.0, 0.0, 0.0, None));
    assert!(area(&g) > cell_area(3, 2, 500.0, 500.0, 0.0, 0.0, None));
}

#[test]
fn four_items_wide_tiles() {
    let g = pack(4, 400, 400, &config(0, Some((2, 1)))).unwrap();
    assert_eq!(g.rows * g.cols, 4);
    assert_eq!((g.rows, g.cols), (2, 2));
    assert!(g.cols as f64 * value(g.cell_width) <= 400.0);
    assert_eq!(value(g.cell_width), 200.0);
    assert_eq!(value(g.cell_height), 100.0);
    assert_eq!(
        g.cell_width.num * g.cell_height.den,
        2 * g.cell_height.num * g.cell_width.den
    );
}

#[test]
fn no_items_places_nothing() {
    assert!(pack(0, 400, 400, &config(8, None)).is_none());
    assert!(allocate(&vec![], &config(8, None), 400, 400, -1).is_empty());
    let m = measure(&vec![], Orientation::Horizontal, -1, 400, 300, None);
    assert_eq!(
        m,
        SizeRequest { minimum: 0, natural: 0, minimum_baseline: -1, natural_baseline: -1 }
    );
    let m = measure(&vec![], Orientation::Vertical, 50, 400, 300, Some(AspectRatio { num: 2, den: 1 }));
    assert_eq!(
        m,
        SizeRequest { minimum: 0, natural: 0, minimum_baseline: -1, natural_baseline: -1 }
    );
}

#[test]
fn wider_box_never_shrinks_cells() {
    let c = config(0, None);
    let narrow = pack(6, 600, 300, &c).unwrap();
    let wide = pack(6, 1200, 300, &c).unwrap();
    assert!(area(&wide) >= area(&narrow));
    assert_eq!(area(&narrow), 30000.0);
    assert_eq!(area(&wide), 60000.0);
    for aspect in [None, Some((2, 1)), Some((1, 3))] {
        let c = config(6, aspect);
        for n in 1..8usize {
            let mut last = 0.0;
            for w in (100..1400).step_by(37) {
                let g = pack(n, w, 500, &c).unwrap();
                assert!(area(&g) >= last - 1e-6, "n={n} w={w}");
                last = area(&g);
            }
        }
    }
}

#[test]
fn chosen_grid_is_tight_and_largest() {
    for aspect in [None, Some((1, 1)), Some((3, 2)), Some((2, 5))] {
        let a = aspect.map(|(p, q)| p as f64 / q as f64);
        for n in 1..12usize {
            for (w, h) in [(800, 600), (300, 900), (1000, 100)] {
                let g = pack(n, w, h, &config(10, aspect)).unwrap();
                assert!(is_tight(n, g.rows, g.cols));
                let best = cell_area(g.rows, g.cols, w as f64, h as f64, 10.0, 10.0, a);
                assert!((best - area(&g)).abs() < 1e-6);
                for r in 1..=n {
                    for c in 1..=n {
                        if is_tight(n, r, c) {
                            let other = cell_area(r, c, w as f64, h as f64, 10.0, 10.0, a);
                            assert!(other <= area(&g) + 1e-6, "n={n} {r}x{c}");
                        }
                    }
                }
            }
        }
    }
}

#[test]
fn tiles_keep_the_aspect_ratio() {
    for (p, q) in [(1u32, 1u32), (16, 9), (2, 3), (7, 1)] {
        for n in 1..10usize {
            let g = pack(n, 1234, 567, &config(12, Some((p, q)))).unwrap();
            assert_eq!(
                g.cell_width.num * g.cell_height.den * q as i128,
                g.cell_height.num * g.cell_width.den * p as i128
            );
        }
    }
}

fn bounding_box(ps: &[Option<Placement>]) -> (i32, i32, i32, i32) {
    let ps: Vec<Placement> = ps.iter().flatten().copied().collect();
    let left = ps.iter().map(|p| p.x).min().unwrap();
    let right = ps.iter().map(|p| p.x + p.width).max().unwrap();
    let top = ps.iter().map(|p| p.y).min().unwrap();
    let bottom = ps.iter().map(|p| p.y + p.height).max().unwrap();
    (left, right, top, bottom)
}

#[test]
fn grid_is_centered() {
    let ps = allocate(&vec![true; 4], &config(0, Some((1, 1))), 500, 300, -1);
    let expected = [(100, 0), (250, 0), (100, 150), (250, 150)];
    for (p, (x, y)) in ps.iter().zip(expected) {
        let p = p.unwrap();
        assert_eq!((p.x, p.y, p.width, p.height), (x, y, 150, 150));
    }
    let (l, r, t, b) = bounding_box(&ps);
    assert!(((l + r) as f64 / 2.0 - 250.0).abs() <= 0.5);
    assert!(((t + b) as f64 / 2.0 - 150.0).abs() <= 0.5);

    let ps = allocate(&vec![true; 7], &config(10, None), 700, 500, -1);
    let (l, r, t, b) = bounding_box(&ps);
    assert!(((l + r) as f64 / 2.0 - 350.0).abs() <= 1.0);
    assert!(((t + b) as f64 / 2.0 - 250.0).abs() <= 1.0);
}

#[test]
fn aspect_scaled_column_spacing_is_pinned() {
    // With a ratio set, the gap between columns is the spacing times the
    // ratio: 10 * 2 here.
    let ps = allocate(&vec![true, true], &config(10, Some((2, 1))), 500, 200, 7);
    let a = ps[0].unwrap();
    let b = ps[1].unwrap();
    assert_eq!((a.x, a.y, a.width, a.height, a.baseline), (-5, 38, 245, 122, 7));
    assert_eq!((b.x, b.y, b.width, b.height, b.baseline), (260, 38, 245, 122, 7));
}

#[test]
fn allocate_is_repeatable() {
    let c = config(8, Some((4, 3)));
    let flags = vec![true, true, false, true, true];
    let first = allocate(&flags, &c, 640, 480, 3);
    let second = allocate(&flags, &c, 640, 480, 3);
    assert_eq!(first, second);
    assert!(first[2].is_none());
    assert_eq!(first.iter().filter(|p| p.is_some()).count(), 4);
}

#[test]
fn items_placed_row_major() {
    let ps = allocate(&vec![true; 6], &config(0, Some((1, 1))), 600, 400, -1);
    let xs: Vec<i32> = ps.iter().map(|p| p.unwrap().x).collect();
    let ys: Vec<i32> = ps.iter().map(|p| p.unwrap().y).collect();
    assert_eq!(xs, vec![0, 200, 400, 0, 200, 400]);
    assert_eq!(ys, vec![0, 0, 0, 200, 200, 200]);
}

#[test]
fn negative_spacing_counts_as_zero() {
    let a = pack(6, 600, 400, &config(-20, None)).unwrap();
    let b = pack(6, 600, 400, &config(0, None)).unwrap();
    assert_eq!(a, b);
}

#[test]
fn degenerate_box_still_gives_a_grid() {
    let g = pack(3, 10, 10, &config(50, None)).unwrap();
    assert!(is_tight(3, g.rows, g.cols));
    let ps = allocate(&vec![true; 3], &config(50, None), 10, 10, 0);
    assert_eq!(ps.len(), 3);
}

#[test]
fn collect_keeps_participating_in_order() {
    assert_eq!(collect(&vec![true, false, true, true, false]), vec![0, 2, 3]);
    assert_eq!(collect(&vec![false, false]), Vec::<usize>::new());
    assert_eq!(collect(&vec![]), Vec::<usize>::new());
}

fn req(minimum: i32, natural: i32, minimum_baseline: i32, natural_baseline: i32) -> SizeRequest {
    SizeRequest { minimum, natural, minimum_baseline, natural_baseline }
}

#[test]
fn measure_takes_envelope() {
    let items = vec![req(10, 20, -1, 5), req(15, 18, 7, -1)];
    let m = measure(&items, Orientation::Horizontal, -1, 400, 300, None);
    assert_eq!(m, req(15, 20, 7, 5));
}

#[test]
fn measure_bends_natural_to_aspect() {
    let items = vec![req(10, 20, -1, 5), req(15, 18, 7, -1)];
    let two = Some(AspectRatio { num: 2, den: 1 });
    // width from the container's height: 8 * 2 = 16
    assert_eq!(measure(&items, Orientation::Horizontal, -1, 400, 8, two).natural, 16);
    // height from a known width: 30 / 2 = 15
    assert_eq!(measure(&items, Orientation::Vertical, 30, 400, 8, two).natural, 15);
    // never below the minimum
    assert_eq!(measure(&items, Orientation::Vertical, 4, 400, 8, two).natural, 15);
    // never above the items' natural size
    assert_eq!(measure(&items, Orientation::Horizontal, 100, 400, 8, two).natural, 20);
    // halves round away from zero: 41 / 2 = 20.5
    let small = vec![req(0, 100, -1, -1)];
    assert_eq!(measure(&small, Orientation::Vertical, 41, 0, 0, two).natural, 21);
    // 50 / 3 = 16.67
    let third = Some(AspectRatio { num: 1, den: 3 });
    assert_eq!(measure(&small, Orientation::Horizontal, 50, 0, 0, third).natural, 17);
    // the container's width when measuring a height with no known width
    assert_eq!(measure(&small, Orientation::Vertical, -1, 90, 0, third).natural, 100);
    assert_eq!(measure(&small, Orientation::Vertical, -1, 30, 0, third).natural, 90);
}

#[test]
fn measure_ignores_missing_baselines() {
    let items = vec![req(1, 1, -1, -1), req(1, 1, -1, -1)];
    let m = measure(&items, Orientation::Vertical, -1, 0, 0, None);
    assert_eq!((m.minimum_baseline, m.natural_baseline), (-1, -1));
}
