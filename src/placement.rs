//! The allocator: places each tile of the chosen grid, centred in the box.
use crate::grid::{
    area_gt, before, best_pair, cell_of, is_best, is_candidate, lemma_cell_bounds,
    lemma_mul_bounds, lemma_room_antitone, p108, p31, p44, p76, pack, room, GridGeometry,
    LayoutConfig, MAX_ITEMS,
};
use vstd::arithmetic::div_mod::{lemma_fundamental_div_mod, lemma_mod_pos_bound};
use vstd::prelude::*;

verus! {

/// Where one tile goes, in pixels of the content box.
#[derive(Clone, Copy, Debug, PartialEq, Eq)]
pub struct Placement {
    pub x: i32,
    pub y: i32,
    pub width: i32,
    pub height: i32,
    pub baseline: i32,
}

/// `num / den` rounded toward zero.
pub open spec fn trunc_div(num: int, den: int) -> int {
    if num >= 0 {
        num / den
    } else {
        -((-num) / den)
    }
}

/// `v` clamped to the range of `i32`.
pub open spec fn saturate(v: int) -> i32 {
    if v < i32::MIN {
        i32::MIN
    } else if v > i32::MAX {
        i32::MAX
    } else {
        v as i32
    }
}

/// The pixel value of the length `num / den`: rounded toward zero, then
/// clamped to `i32`.
pub open spec fn to_pixel(num: int, den: int) -> i32 {
    saturate(trunc_div(num, den))
}

/// The left edge of column `col` is `x_num(..) / x_den(..)`.
///
/// The grid is `cols` cells of width `w = c.0 / c.1` with `cols - 1` gaps of the
/// effective spacing `e` between them, which is the column spacing scaled by
/// the aspect ratio `p / q` when one is set. Its left edge is
/// `(width - cols * w - (cols - 1) * e) / 2` and each column adds `w + e`.
pub open spec fn x_num(cfg: LayoutConfig, width: int, cols: int, c: (int, int, int, int), col: int) -> int {
    let p = cfg.ratio_num();
    let q = cfg.ratio_den();
    let cs = cfg.col_gap();
    width * c.1 * q - cols * c.0 * q - (cols - 1) * cs * p * c.1 + 2 * col * (c.0 * q + cs * p
        * c.1)
}

pub open spec fn x_den(cfg: LayoutConfig, c: (int, int, int, int)) -> int {
    2 * c.1 * cfg.ratio_den()
}

/// The top edge of row `row` is `y_num(..) / y_den(..)`: rows of height
/// `c.2 / c.3` with the row spacing between them, centred vertically.
pub open spec fn y_num(cfg: LayoutConfig, height: int, rows: int, c: (int, int, int, int), row: int) -> int {
    let rs = cfg.row_gap();
    height * c.3 - rows * c.2 - (rows - 1) * rs * c.3 + 2 * row * (c.2 + rs * c.3)
}

pub open spec fn y_den(c: (int, int, int, int)) -> int {
    2 * c.3
}

/// The placement of the item at row-major index `i` in a `rows x cols` grid.
pub open spec fn placement_of(
    cfg: LayoutConfig,
    width: int,
    height: int,
    rows: int,
    cols: int,
    i: int,
    baseline: i32,
) -> Placement {
    let c = cell_of(cfg, width, height, rows, cols);
    Placement {
        x: to_pixel(x_num(cfg, width, cols, c, i % cols), x_den(cfg, c)),
        y: to_pixel(y_num(cfg, height, rows, c, i / cols), y_den(c)),
        width: to_pixel(c.0, c.1),
        height: to_pixel(c.2, c.3),
        baseline,
    }
}

/// What `allocate` hands back for the items whose current participation flags
/// are `flags`: a placement for each participating item, nothing for the others.
pub open spec fn allocation(
    flags: Seq<bool>,
    cfg: LayoutConfig,
    width: int,
    height: int,
    baseline: i32,
) -> Seq<Option<Placement>> {
    let rc = best_pair(flags.len() as int, cfg, width, height);
    Seq::new(
        flags.len(),
        |i: int|
            if flags[i] {
                Some(placement_of(cfg, width, height, rc.0, rc.1, i, baseline))
            } else {
                None
            },
    )
}

/// At most one partition is the packer's choice.
pub proof fn lemma_best_unique(
    n: int,
    cfg: LayoutConfig,
    width: int,
    height: int,
    r1: int,
    c1: int,
    r2: int,
    c2: int,
)
    requires
        is_best(n, cfg, width, height, r1, c1),
        is_best(n, cfg, width, height, r2, c2),
    ensures
        r1 == r2 && c1 == c2,
{
    let k1 = cell_of(cfg, width, height, r1, c1);
    let k2 = cell_of(cfg, width, height, r2, c2);
    if before(r1, c1, r2, c2) {
        assert(area_gt(k2, k1));
        assert(!area_gt(k1, k2));
        assert(false);
    } else if before(r2, c2, r1, c1) {
        assert(area_gt(k1, k2));
        assert(!area_gt(k2, k1));
        assert(false);
    }
}

/// The packer's result is the partition named by `best_pair`.
pub proof fn lemma_pack_is_best_pair(n: int, cfg: LayoutConfig, width: int, height: int, rows: int, cols: int)
    requires
        is_best(n, cfg, width, height, rows, cols),
    ensures
        best_pair(n, cfg, width, height) == (rows, cols),
{
    let w = (rows, cols);
    assert(is_best(n, cfg, width, height, w.0, w.1));
    let p = best_pair(n, cfg, width, height);
    lemma_best_unique(n, cfg, width, height, p.0, p.1, rows, cols);
}

/// Rounds `num / den` toward zero and clamps it to `i32`.
fn pixel(num: i128, den: i128) -> (r: i32)
    requires
        den > 0,
        -p108() * 0x8000 <= num <= p108() * 0x8000,
    ensures
        r == to_pixel(num as int, den as int),
{
    let t: i128 = if num >= 0 {
        proof {
            assert(num / den <= num) by (nonlinear_arith)
                requires
                    num >= 0,
                    den > 0,
            ;
            assert(num / den >= 0) by (nonlinear_arith)
                requires
                    num >= 0,
                    den > 0,
            ;
        }
        num / den
    } else {
        let m: i128 = -num;
        proof {
            assert(m / den <= m) by (nonlinear_arith)
                requires
                    m >= 0,
                    den > 0,
            ;
            assert(m / den >= 0) by (nonlinear_arith)
                requires
                    m >= 0,
                    den > 0,
            ;
        }
        -(m / den)
    };
    if t < i32::MIN as i128 {
        i32::MIN
    } else if t > i32::MAX as i128 {
        i32::MAX
    } else {
        t as i32
    }
}

/// Computes the placement of item `i` in the grid `g`.
fn place(cfg: &LayoutConfig, width: i32, height: i32, g: &GridGeometry, i: usize, baseline: i32) -> (r:
    Placement)
    requires
        cfg.wf(),
        is_candidate(*cfg, width as int, height as int, *g),
        i < MAX_ITEMS,
    ensures
        r == placement_of(
            *cfg,
            width as int,
            height as int,
            g.rows as int,
            g.cols as int,
            i as int,
            baseline,
        ),
{
    let ghost c = g.cell();
    proof {
        lemma_cell_bounds(*cfg, width as int, height as int, g.rows as int, g.cols as int);
    }
    let (p, q): (i128, i128) = match cfg.aspect_ratio {
        Some(a) => (a.num as i128, a.den as i128),
        None => (1, 1),
    };
    let cs: i128 = if cfg.column_spacing < 0 {
        0
    } else {
        cfg.column_spacing as i128
    };
    let rs: i128 = if cfg.row_spacing < 0 {
        0
    } else {
        cfg.row_spacing as i128
    };
    let col: usize = i % g.cols;
    let row: usize = i / g.cols;
    proof {
        lemma_mod_pos_bound(i as int, g.cols as int);
        lemma_fundamental_div_mod(i as int, g.cols as int);
        assert(row <= i) by (nonlinear_arith)
            requires
                row == i as int / g.cols as int,
                g.cols >= 1,
                i >= 0,
        ;
    }
    let wn = g.cell_width.num;
    let wd = g.cell_width.den;
    let hn = g.cell_height.num;
    let hd = g.cell_height.den;
    let cols = g.cols as i128;
    let rows = g.rows as i128;
    let pw: i128 = 0x1_0000_0000;
    proof {
        // terms of the x numerator
        lemma_mul_bounds(width as int, wd as int, p31(), p44());
        lemma_mul_bounds(width * wd, q as int, p31() * p44(), pw as int);
        lemma_mul_bounds(cols as int, wn as int, 4096, p76());
        lemma_mul_bounds(cols * wn, q as int, 4096 * p76(), pw as int);
        lemma_mul_bounds(cols - 1, cs as int, 4096, p31());
        lemma_mul_bounds((cols - 1) * cs, p as int, 4096 * p31(), pw as int);
        lemma_mul_bounds((cols - 1) * cs * p, wd as int, 4096 * p31() * pw, p44());
        lemma_mul_bounds(wn as int, q as int, p76(), pw as int);
        lemma_mul_bounds(cs as int, p as int, p31(), pw as int);
        lemma_mul_bounds(cs * p, wd as int, p31() * pw, p44());
        lemma_mul_bounds(2 * col, wn * q + cs * p * wd, 8192, p76() * pw + p31() * pw * p44());
        lemma_mul_bounds(2 * wd, q as int, 2 * p44(), pw as int);
        // terms of the y numerator
        lemma_mul_bounds(height as int, hd as int, p31(), p76());
        lemma_mul_bounds(rows as int, hn as int, 4096, p108());
        lemma_mul_bounds(rows - 1, rs as int, 4096, p31());
        lemma_mul_bounds((rows - 1) * rs, hd as int, 4096 * p31(), p76());
        lemma_mul_bounds(rs as int, hd as int, p31(), p76());
        lemma_mul_bounds(2 * row, hn + rs * hd, 8192, p108() + p31() * p76());
    }
    let xn: i128 = width as i128 * wd * q - cols * wn * q - (cols - 1) * cs * p * wd + 2 * (
    col as i128) * (wn * q + cs * p * wd);
    let xd: i128 = 2 * wd * q;
    let yn: i128 = height as i128 * hd - rows * hn - (rows - 1) * rs * hd + 2 * (row as i128) * (hn
        + rs * hd);
    let yd: i128 = 2 * hd;
    proof {
        assert(xd > 0) by (nonlinear_arith)
            requires
                xd == 2 * wd * q,
                wd > 0,
                q > 0,
        ;
    }
    Placement {
        x: pixel(xn, xd),
        y: pixel(yn, yd),
        width: pixel(wn, wd),
        height: pixel(hn, hd),
        baseline,
    }
}

/// Lays out the collected items in a `width x height` box: packs the grid for
/// all of them, then places each item that still participates by its index,
/// row-major, passing `baseline` through. Items that stopped participating get
/// no placement; with no items nothing is placed.
pub fn allocate(
    items: &Vec<bool>,
    cfg: &LayoutConfig,
    width: i32,
    height: i32,
    baseline: i32,
) -> (r: Vec<Option<Placement>>)
    requires
        items.len() <= MAX_ITEMS,
        cfg.wf(),
    ensures
        r@ == allocation(items@, *cfg, width as int, height as int, baseline),
{
    let n = items.len();
    let mut out: Vec<Option<Placement>> = Vec::new();
    let ghost spec_all = allocation(items@, *cfg, width as int, height as int, baseline);
    match pack(n, width, height, cfg) {
        None => {
            assert(out@ =~= spec_all);
            out
        },
        Some(g) => {
            proof {
                lemma_pack_is_best_pair(
                    n as int,
                    *cfg,
                    width as int,
                    height as int,
                    g.rows as int,
                    g.cols as int,
                );
                assert(g.rows <= MAX_ITEMS && g.cols <= MAX_ITEMS);
            }
            let mut i: usize = 0;
            while i < n
                invariant
                    i <= n,
                    n == items.len(),
                    n <= MAX_ITEMS,
                    cfg.wf(),
                    is_candidate(*cfg, width as int, height as int, g),
                    best_pair(n as int, *cfg, width as int, height as int) == (
                        g.rows as int,
                        g.cols as int,
                    ),
                    spec_all == allocation(items@, *cfg, width as int, height as int, baseline),
                    out@ =~= spec_all.take(i as int),
                decreases n - i,
            {
                if items[i] {
                    let pl = place(cfg, width, height, &g, i, baseline);
                    out.push(Some(pl));
                } else {
                    out.push(None);
                }
                i = i + 1;
            }
            assert(out@ =~= spec_all);
            out
        },
    }
}

/// The grid is centred in the box. Item `0` holds the leftmost and topmost
/// edges, item `cols - 1` the rightmost edge and item `(rows - 1) * cols` the
/// bottom edge; every item lies between them; and the left and right edges
/// (the top and bottom edges) add up to the width (the height) of the box, so
/// the bounding box has the box's centre. Exact lengths are compared: the
/// right edge of a column is its left edge plus the cell width, which over
/// `x_den` is `2 * c.0 * q`. This holds when the box holds the gaps of a single
/// row of all `n` items and those of a single column.
pub proof fn lemma_grid_centered(
    n: int,
    cfg: LayoutConfig,
    width: i32,
    height: i32,
    rows: int,
    cols: int,
)
    requires
        1 <= n <= MAX_ITEMS,
        cfg.wf(),
        is_best(n, cfg, width as int, height as int, rows, cols),
        room(width as int, cfg.col_gap(), n) >= 0,
        room(height as int, cfg.row_gap(), n) >= 0,
    ensures
        ({
            let c = cell_of(cfg, width as int, height as int, rows, cols);
            let q = cfg.ratio_den();
            let w = width as int;
            let h = height as int;
            &&& x_den(cfg, c) > 0
            &&& y_den(c) > 0
            &&& cols - 1 < n
            &&& (rows - 1) * cols < n
            &&& forall|i: int|
                0 <= i < n ==> x_num(cfg, w, cols, c, 0) <= #[trigger] x_num(
                    cfg,
                    w,
                    cols,
                    c,
                    i % cols,
                ) <= x_num(cfg, w, cols, c, cols - 1)
            &&& forall|i: int|
                0 <= i < n ==> y_num(cfg, h, rows, c, 0) <= #[trigger] y_num(
                    cfg,
                    h,
                    rows,
                    c,
                    i / cols,
                ) <= y_num(cfg, h, rows, c, rows - 1)
            &&& x_num(cfg, w, cols, c, 0) + (x_num(cfg, w, cols, c, cols - 1) + 2 * c.0 * q) == w
                * x_den(cfg, c)
            &&& y_num(cfg, h, rows, c, 0) + (y_num(cfg, h, rows, c, rows - 1) + 2 * c.2) == h
                * y_den(c)
        }),
{
    let w = width as int;
    let h = height as int;
    let c = cell_of(cfg, w, h, rows, cols);
    let p = cfg.ratio_num();
    let q = cfg.ratio_den();
    let cs = cfg.col_gap();
    let rs = cfg.row_gap();
    lemma_cell_bounds(cfg, w, h, rows, cols);
    lemma_room_antitone(w, cs, cols, n);
    lemma_room_antitone(h, rs, rows, n);
    let a = room(w, cs, cols);
    let b = room(h, rs, rows);
    // the cell has non-negative sides
    assert(c.0 >= 0 && c.2 >= 0) by {
        match cfg.aspect_ratio {
            None => {},
            Some(r) => {
                assert(p * b >= 0 && a * q >= 0 && p * b * q >= 0) by (nonlinear_arith)
                    requires
                        p > 0,
                        q > 0,
                        a >= 0,
                        b >= 0,
                ;
            },
        }
    }
    assert(x_den(cfg, c) > 0) by (nonlinear_arith)
        requires
            c.1 > 0,
            q > 0,
            x_den(cfg, c) == 2 * c.1 * q,
    ;
    assert((rows - 1) * cols == rows * cols - cols) by (nonlinear_arith);
    let sx = c.0 * q + cs * p * c.1;
    let sy = c.2 + rs * c.3;
    assert(sx >= 0 && sy >= 0) by (nonlinear_arith)
        requires
            c.0 >= 0,
            c.2 >= 0,
            c.1 > 0,
            c.3 > 0,
            q > 0,
            p > 0,
            cs >= 0,
            rs >= 0,
            sx == c.0 * q + cs * p * c.1,
            sy == c.2 + rs * c.3,
    ;
    assert forall|i: int| 0 <= i < n implies x_num(cfg, w, cols, c, 0) <= #[trigger] x_num(
        cfg,
        w,
        cols,
        c,
        i % cols,
    ) <= x_num(cfg, w, cols, c, cols - 1) by {
        lemma_mod_pos_bound(i, cols);
        let k = i % cols;
        assert(0 <= 2 * k * sx <= 2 * (cols - 1) * sx) by (nonlinear_arith)
            requires
                0 <= k <= cols - 1,
                sx >= 0,
        ;
    }
    assert forall|i: int| 0 <= i < n implies y_num(cfg, h, rows, c, 0) <= #[trigger] y_num(
        cfg,
        h,
        rows,
        c,
        i / cols,
    ) <= y_num(cfg, h, rows, c, rows - 1) by {
        lemma_fundamental_div_mod(i, cols);
        lemma_mod_pos_bound(i, cols);
        let k = i / cols;
        assert(0 <= k <= rows - 1) by (nonlinear_arith)
            requires
                i == cols * k + i % cols,
                0 <= i % cols < cols,
                0 <= i < n,
                n <= rows * cols,
                cols > 0,
        ;
        assert(0 <= 2 * k * sy <= 2 * (rows - 1) * sy) by (nonlinear_arith)
            requires
                0 <= k <= rows - 1,
                sy >= 0,
        ;
    }
    let u = c.0 * q;
    let v = cs * p * c.1;
    let wide = w * c.1 * q;
    assert(cols * c.0 * q == cols * u) by (nonlinear_arith)
        requires
            u == c.0 * q,
    ;
    assert((cols - 1) * cs * p * c.1 == (cols - 1) * v) by (nonlinear_arith)
        requires
            v == cs * p * c.1,
    ;
    assert(w * x_den(cfg, c) == 2 * wide) by (nonlinear_arith)
        requires
            x_den(cfg, c) == 2 * c.1 * q,
            wide == w * c.1 * q,
    ;
    assert(x_num(cfg, w, cols, c, 0) == wide - cols * u - (cols - 1) * v);
    assert(x_num(cfg, w, cols, c, cols - 1) == wide - cols * u - (cols - 1) * v + 2 * (cols - 1) * (
    u + v));
    assert((wide - cols * u - (cols - 1) * v) + (wide - cols * u - (cols - 1) * v + 2 * (cols - 1)
        * (u + v) + 2 * u) == 2 * wide) by (nonlinear_arith);
    assert(y_num(cfg, h, rows, c, 0) + (y_num(cfg, h, rows, c, rows - 1) + 2 * c.2) == h * y_den(
        c,
    )) by (nonlinear_arith)
        requires
            y_num(cfg, h, rows, c, 0) == h * c.3 - rows * c.2 - (rows - 1) * rs * c.3 + 2 * 0
                * sy,
            y_num(cfg, h, rows, c, rows - 1) == h * c.3 - rows * c.2 - (rows - 1) * rs * c.3 + 2
                * (rows - 1) * sy,
            sy == c.2 + rs * c.3,
            y_den(c) == 2 * c.3,
    ;
    assert(2 * c.0 * q == 2 * u) by (nonlinear_arith)
        requires
            u == c.0 * q,
    ;
}

/// Allocating twice with the same items, settings, box and baseline places
/// every item the same way: what `allocate` returns is `allocation` of its
/// arguments and of nothing else.
pub proof fn lemma_allocate_repeatable(
    flags: Seq<bool>,
    cfg: LayoutConfig,
    width: i32,
    height: i32,
    baseline: i32,
    first: Seq<Option<Placement>>,
    second: Seq<Option<Placement>>,
)
    requires
        first == allocation(flags, cfg, width as int, height as int, baseline),
        second == allocation(flags, cfg, width as int, height as int, baseline),
    ensures
        first == second,
        forall|i: int| 0 <= i < flags.len() ==> first[i] == second[i],
{
}

} // verus!
