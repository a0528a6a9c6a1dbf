//! The grid packer: chooses rows, columns and a cell size for `n` tiles.
//!
//! All lengths are exact rationals. A cell's width and height are kept as
//! `num / den` pairs with a positive denominator, so the aspect ratio of a tile
//! holds exactly and no rounding takes place before the final pixel values.
use vstd::math::abs;
use vstd::prelude::*;

verus! {

/// The largest number of tiles the packer accepts. Beyond it the exact
/// arithmetic on lengths would no longer fit in 128 bits.
pub const MAX_ITEMS: usize = 4096;

/// A width-to-height ratio `num / den` of one tile.
#[derive(Clone, Copy, Debug, PartialEq, Eq)]
pub struct AspectRatio {
    pub num: u32,
    pub den: u32,
}

impl AspectRatio {
    /// Both terms are positive.
    pub open spec fn wf(self) -> bool {
        self.num > 0 && self.den > 0
    }
}

/// An exact length `num / den`; the packer always produces `den > 0`.
#[derive(Clone, Copy, Debug, PartialEq, Eq)]
pub struct Fraction {
    pub num: i128,
    pub den: i128,
}

/// The spacing and aspect-ratio settings read at the start of each pass.
#[derive(Clone, Copy, Debug, PartialEq, Eq)]
pub struct LayoutConfig {
    pub column_spacing: i32,
    pub row_spacing: i32,
    pub aspect_ratio: Option<AspectRatio>,
}

impl LayoutConfig {
    /// An aspect ratio, when set, has positive terms.
    pub open spec fn wf(self) -> bool {
        match self.aspect_ratio {
            Some(a) => a.wf(),
            None => true,
        }
    }

    /// The column spacing in use: negative settings count as zero.
    pub open spec fn col_gap(self) -> int {
        clamp0(self.column_spacing as int)
    }

    /// The row spacing in use: negative settings count as zero.
    pub open spec fn row_gap(self) -> int {
        clamp0(self.row_spacing as int)
    }

    /// Numerator of the aspect ratio, `1` when none is set.
    pub open spec fn ratio_num(self) -> int {
        match self.aspect_ratio {
            Some(a) => a.num as int,
            None => 1,
        }
    }

    /// Denominator of the aspect ratio, `1` when none is set.
    pub open spec fn ratio_den(self) -> int {
        match self.aspect_ratio {
            Some(a) => a.den as int,
            None => 1,
        }
    }
}

/// The chosen partition and the size of one cell.
#[derive(Clone, Copy, Debug, PartialEq, Eq)]
pub struct GridGeometry {
    pub rows: usize,
    pub cols: usize,
    pub cell_width: Fraction,
    pub cell_height: Fraction,
}

impl GridGeometry {
    /// The cell as `(width num, width den, height num, height den)`.
    pub open spec fn cell(self) -> (int, int, int, int) {
        (
            self.cell_width.num as int,
            self.cell_width.den as int,
            self.cell_height.num as int,
            self.cell_height.den as int,
        )
    }
}

pub open spec fn clamp0(x: int) -> int {
    if x < 0 {
        0
    } else {
        x
    }
}

/// `rows * cols` holds the `n` items and leaves no whole row or column empty.
pub open spec fn is_tight(n: int, rows: int, cols: int) -> bool {
    &&& rows * cols >= n
    &&& rows * cols - n < rows
    &&& rows * cols - n < cols
}

/// The extent left for `count` cells once the `count - 1` gaps are taken out.
pub open spec fn room(extent: int, gap: int, count: int) -> int {
    extent - (count - 1) * gap
}

/// With a fixed ratio `p / q`, the cell's width (`a / cols`) rather than its
/// height (`b / rows`) limits the tile: `a / cols <= (p / q) * (b / rows)`.
pub open spec fn width_limited(a: int, b: int, rows: int, cols: int, p: int, q: int) -> bool {
    a * q * rows <= p * b * cols
}

/// The cell of the candidate `rows x cols` as `(wn, wd, hn, hd)`, its width
/// being `wn / wd` and its height `hn / hd`.
///
/// Without an aspect ratio the cell fills its share of the box. With a ratio
/// `p / q` the tile is the largest one of that ratio that fits the share.
/// For wide tiles the height is taken first, `min(b / rows, (a / cols) / (p / q))`,
/// and the width is that height times `p / q`; for tall tiles the width is
/// taken first, `min(a / cols, (b / rows) * (p / q))`, and the height is that
/// width divided by `p / q`. With exact lengths the two rules give the same
/// cell, so it is computed once: the width is `a / cols` when that share
/// limits the tile, else `(p / q) * b / rows`, and the height is the width
/// times `q / p`.
pub open spec fn cell_of(cfg: LayoutConfig, width: int, height: int, rows: int, cols: int) -> (
    int,
    int,
    int,
    int,
) {
    let a = room(width, cfg.col_gap(), cols);
    let b = room(height, cfg.row_gap(), rows);
    match cfg.aspect_ratio {
        None => (a, cols, b, rows),
        Some(r) => {
            let p = r.num as int;
            let q = r.den as int;
            if width_limited(a, b, rows, cols, p, q) {
                (a, cols, a * q, cols * p)
            } else {
                (p * b, q * rows, p * b * q, q * rows * p)
            }
        },
    }
}

/// The area of the cell `c` is strictly larger than that of the cell `d`
/// (both with positive denominators).
pub open spec fn area_gt(c: (int, int, int, int), d: (int, int, int, int)) -> bool {
    (c.0 * c.2) * (d.1 * d.3) > (d.0 * d.2) * (c.1 * c.3)
}

/// `(r, c)` comes before `(r2, c2)` in the search order: rows, then columns.
pub open spec fn before(r: int, c: int, r2: int, c2: int) -> bool {
    r < r2 || (r == r2 && c < c2)
}

/// `rows x cols` is the packer's choice: a tight partition of `n` whose cell
/// area no other tight partition exceeds, and which strictly exceeds every
/// tight partition searched before it.
pub open spec fn is_best(n: int, cfg: LayoutConfig, width: int, height: int, rows: int, cols: int) -> bool {
    &&& 1 <= rows <= n
    &&& 1 <= cols <= n
    &&& is_tight(n, rows, cols)
    &&& forall|r: int, c: int|
        1 <= r <= n && 1 <= c <= n && is_tight(n, r, c) ==> !area_gt(
            #[trigger] cell_of(cfg, width, height, r, c),
            cell_of(cfg, width, height, rows, cols),
        )
    &&& forall|r: int, c: int|
        1 <= r <= n && 1 <= c <= n && is_tight(n, r, c) && before(r, c, rows, cols) ==> area_gt(
            cell_of(cfg, width, height, rows, cols),
            #[trigger] cell_of(cfg, width, height, r, c),
        )
}

/// The partition the packer picks for `n > 0` items.
pub open spec fn best_pair(n: int, cfg: LayoutConfig, width: int, height: int) -> (int, int) {
    choose|p: (int, int)| is_best(n, cfg, width, height, p.0, p.1)
}

/// `g` is the candidate `g.rows x g.cols` with its exact cell.
pub open spec fn is_candidate(cfg: LayoutConfig, width: int, height: int, g: GridGeometry) -> bool {
    &&& 1 <= g.rows <= MAX_ITEMS
    &&& 1 <= g.cols <= MAX_ITEMS
    &&& g.cell() == cell_of(cfg, width, height, g.rows as int, g.cols as int)
}

/// `2^31`: the magnitude bound of an `i32`.
pub open spec fn p31() -> int {
    0x8000_0000
}

/// `2^44`: bounds the room left for cells.
pub open spec fn p44() -> int {
    0x1000_0000_0000
}

/// `2^76`: bounds a cell width's numerator.
pub open spec fn p76() -> int {
    0x1000_0000_0000_0000_0000
}

/// `2^108`: bounds a cell height's numerator.
pub open spec fn p108() -> int {
    0x1000_0000_0000_0000_0000_0000_0000
}

/// A product of bounded factors is bounded by the product of the bounds.
pub proof fn lemma_mul_bounds(x: int, y: int, bx: int, by: int)
    requires
        -bx <= x <= bx,
        -by <= y <= by,
    ensures
        -(bx * by) <= x * y <= bx * by,
{
    assert(-(bx * by) <= x * y && x * y <= bx * by) by (nonlinear_arith)
        requires
            -bx <= x <= bx,
            -by <= y <= by,
    ;
}

/// A product of positive factors is positive.
pub proof fn lemma_pos_mul(x: int, y: int)
    requires
        x > 0,
        y > 0,
    ensures
        x * y > 0,
{
    assert(x * y > 0) by (nonlinear_arith)
        requires
            x > 0,
            y > 0,
    ;
}

/// The room left for cells stays within 44 bits.
pub proof fn lemma_room_bounds(extent: int, gap: int, count: int)
    requires
        -p31() <= extent < p31(),
        0 <= gap < p31(),
        1 <= count <= MAX_ITEMS,
    ensures
        -p44() <= room(extent, gap, count) <= p44(),
{
    lemma_mul_bounds(count - 1, gap, 4096, p31());
    assert((count - 1) * gap >= 0) by (nonlinear_arith)
        requires
            count >= 1,
            gap >= 0,
    ;
}

/// Bounds on every candidate cell, and the shape of an aspect-locked cell.
pub proof fn lemma_cell_bounds(cfg: LayoutConfig, width: int, height: int, rows: int, cols: int)
    requires
        cfg.wf(),
        -p31() <= width < p31(),
        -p31() <= height < p31(),
        1 <= rows <= MAX_ITEMS,
        1 <= cols <= MAX_ITEMS,
    ensures
        ({
            let c = cell_of(cfg, width, height, rows, cols);
            &&& -p76() <= c.0 <= p76()
            &&& 1 <= c.1 <= p44()
            &&& -p108() <= c.2 <= p108()
            &&& 1 <= c.3 <= p76()
            &&& cfg.aspect_ratio is Some ==> c.2 == c.0 * cfg.ratio_den() && c.3 == c.1
                * cfg.ratio_num()
            &&& cfg.aspect_ratio is None ==> -p44() <= c.0 <= p44() && -p44() <= c.2 <= p44()
                && c.1 <= 4096 && c.3 <= 4096
        }),
{
    let a = room(width, cfg.col_gap(), cols);
    let b = room(height, cfg.row_gap(), rows);
    lemma_room_bounds(width, cfg.col_gap(), cols);
    lemma_room_bounds(height, cfg.row_gap(), rows);
    match cfg.aspect_ratio {
        None => {},
        Some(r) => {
            let p = r.num as int;
            let q = r.den as int;
            let c = cell_of(cfg, width, height, rows, cols);
            if width_limited(a, b, rows, cols, p, q) {
                lemma_mul_bounds(a, q, p44(), 0x1_0000_0000);
                lemma_mul_bounds(cols, p, 4096, 0x1_0000_0000);
                lemma_pos_mul(cols, p);
            } else {
                lemma_mul_bounds(p, b, 0x1_0000_0000, p44());
                lemma_mul_bounds(q, rows, 0x1_0000_0000, 4096);
                lemma_pos_mul(q, rows);
                lemma_mul_bounds(p * b, q, p76(), 0x1_0000_0000);
                lemma_mul_bounds(q * rows, p, p44(), 0x1_0000_0000);
                lemma_pos_mul(q * rows, p);
            }
            assert(c.2 == c.0 * q && c.3 == c.1 * p);
        },
    }
}

/// Computes the candidate cell of `rows x cols`.
fn candidate(cfg: &LayoutConfig, width: i32, height: i32, rows: usize, cols: usize) -> (g:
    GridGeometry)
    requires
        cfg.wf(),
        1 <= rows <= MAX_ITEMS,
        1 <= cols <= MAX_ITEMS,
    ensures
        g.rows == rows,
        g.cols == cols,
        is_candidate(*cfg, width as int, height as int, g),
{
    proof {
        lemma_cell_bounds(*cfg, width as int, height as int, rows as int, cols as int);
        lemma_room_bounds(width as int, cfg.col_gap(), cols as int);
        lemma_room_bounds(height as int, cfg.row_gap(), rows as int);
        lemma_mul_bounds(cols as int - 1, cfg.col_gap(), 4096, p31());
        lemma_mul_bounds(rows as int - 1, cfg.row_gap(), 4096, p31());
    }
    let cs: i128 = if cfg.column_spacing < 0 {
        0
    } else {
        cfg.column_spacing as i128
    };
    let rs: i128 = if cfg.row_spacing < 0 {
        0
    } else {
        cfg.row_spacing as i128
    };
    let a: i128 = width as i128 - (cols as i128 - 1) * cs;
    let b: i128 = height as i128 - (rows as i128 - 1) * rs;
    match cfg.aspect_ratio {
        None => GridGeometry {
            rows,
            cols,
            cell_width: Fraction { num: a, den: cols as i128 },
            cell_height: Fraction { num: b, den: rows as i128 },
        },
        Some(r) => {
            let p: i128 = r.num as i128;
            let q: i128 = r.den as i128;
            proof {
                lemma_mul_bounds(a as int, q as int, p44(), 0x1_0000_0000);
                lemma_mul_bounds(a * q, rows as int, p76(), 4096);
                lemma_mul_bounds(p as int, b as int, 0x1_0000_0000, p44());
                lemma_mul_bounds(p * b, cols as int, p76(), 4096);
            }
            let limited = a * q * (rows as i128) <= p * b * (cols as i128);
            if limited {
                GridGeometry {
                    rows,
                    cols,
                    cell_width: Fraction { num: a, den: cols as i128 },
                    cell_height: Fraction { num: a * q, den: cols as i128 * p },
                }
            } else {
                GridGeometry {
                    rows,
                    cols,
                    cell_width: Fraction { num: p * b, den: q * rows as i128 },
                    cell_height: Fraction { num: p * b * q, den: q * rows as i128 * p },
                }
            }
        },
    }
}

/// `a0 / a1 < c0 / c1` follows from `a0 / a1 <= b0 / b1 < c0 / c1`.
proof fn lemma_ratio_lt_trans(a0: int, a1: int, b0: int, b1: int, c0: int, c1: int)
    requires
        a1 > 0,
        b1 > 0,
        c1 > 0,
        a0 * b1 <= b0 * a1,
        b0 * c1 < c0 * b1,
    ensures
        a0 * c1 < c0 * a1,
{
    assert(a0 * b1 * c1 <= b0 * a1 * c1) by (nonlinear_arith)
        requires
            a0 * b1 <= b0 * a1,
            c1 > 0,
    ;
    assert(b0 * c1 * a1 < c0 * b1 * a1) by (nonlinear_arith)
        requires
            b0 * c1 < c0 * b1,
            a1 > 0,
    ;
    assert(a0 * c1 * b1 < c0 * a1 * b1) by (nonlinear_arith)
        requires
            a0 * b1 * c1 <= b0 * a1 * c1,
            b0 * c1 * a1 < c0 * b1 * a1,
    ;
    assert(a0 * c1 < c0 * a1) by (nonlinear_arith)
        requires
            a0 * c1 * b1 < c0 * a1 * b1,
            b1 > 0,
    ;
}

/// `a0 / a1 <= c0 / c1` follows from `a0 / a1 <= b0 / b1 <= c0 / c1`.
proof fn lemma_ratio_le_trans(a0: int, a1: int, b0: int, b1: int, c0: int, c1: int)
    requires
        a1 > 0,
        b1 > 0,
        c1 > 0,
        a0 * b1 <= b0 * a1,
        b0 * c1 <= c0 * b1,
    ensures
        a0 * c1 <= c0 * a1,
{
    assert(a0 * b1 * c1 <= b0 * a1 * c1) by (nonlinear_arith)
        requires
            a0 * b1 <= b0 * a1,
            c1 > 0,
    ;
    assert(b0 * c1 * a1 <= c0 * b1 * a1) by (nonlinear_arith)
        requires
            b0 * c1 <= c0 * b1,
            a1 > 0,
    ;
    assert(a0 * c1 * b1 <= c0 * a1 * b1) by (nonlinear_arith)
        requires
            a0 * b1 * c1 <= b0 * a1 * c1,
            b0 * c1 * a1 <= c0 * b1 * a1,
    ;
    assert(a0 * c1 <= c0 * a1) by (nonlinear_arith)
        requires
            a0 * c1 * b1 <= c0 * a1 * b1,
            b1 > 0,
    ;
}

/// A cell's area has a positive denominator.
pub open spec fn dens_pos(c: (int, int, int, int)) -> bool {
    c.1 > 0 && c.3 > 0
}

proof fn lemma_area_den_pos(c: (int, int, int, int))
    requires
        dens_pos(c),
    ensures
        c.1 * c.3 > 0,
{
    lemma_pos_mul(c.1, c.3);
}

/// If `x` beats `b` and `k` does not, then `x` beats `k`.
proof fn lemma_area_gt_step(k: (int, int, int, int), b: (int, int, int, int), x: (int, int, int, int))
    requires
        dens_pos(k),
        dens_pos(b),
        dens_pos(x),
        !area_gt(k, b),
        area_gt(x, b),
    ensures
        area_gt(x, k),
{
    lemma_area_den_pos(k);
    lemma_area_den_pos(b);
    lemma_area_den_pos(x);
    lemma_ratio_lt_trans(k.0 * k.2, k.1 * k.3, b.0 * b.2, b.1 * b.3, x.0 * x.2, x.1 * x.3);
}

/// "Not larger" is transitive.
proof fn lemma_area_le_trans(a: (int, int, int, int), b: (int, int, int, int), c: (int, int, int, int))
    requires
        dens_pos(a),
        dens_pos(b),
        dens_pos(c),
        !area_gt(a, b),
        !area_gt(b, c),
    ensures
        !area_gt(a, c),
{
    lemma_area_den_pos(a);
    lemma_area_den_pos(b);
    lemma_area_den_pos(c);
    lemma_ratio_le_trans(a.0 * a.2, a.1 * a.3, b.0 * b.2, b.1 * b.3, c.0 * c.2, c.1 * c.3);
}

/// For cells of one fixed ratio, the larger area is the one of larger
/// absolute width.
proof fn lemma_area_gt_by_width(c: (int, int, int, int), d: (int, int, int, int), p: int, q: int)
    requires
        p > 0,
        q > 0,
        c.1 > 0,
        d.1 > 0,
        c.2 == c.0 * q,
        c.3 == c.1 * p,
        d.2 == d.0 * q,
        d.3 == d.1 * p,
    ensures
        area_gt(c, d) == (abs(c.0) * d.1 > abs(d.0) * c.1),
{
    let x = abs(c.0) * d.1;
    let y = abs(d.0) * c.1;
    assert((c.0 * c.2) * (d.1 * d.3) == x * x * (p * q)) by (nonlinear_arith)
        requires
            c.2 == c.0 * q,
            d.3 == d.1 * p,
            x == abs(c.0) * d.1,
    ;
    assert((d.0 * d.2) * (c.1 * c.3) == y * y * (p * q)) by (nonlinear_arith)
        requires
            d.2 == d.0 * q,
            c.3 == c.1 * p,
            y == abs(d.0) * c.1,
    ;
    assert(x >= 0 && y >= 0) by (nonlinear_arith)
        requires
            x == abs(c.0) * d.1,
            y == abs(d.0) * c.1,
            c.1 > 0,
            d.1 > 0,
    ;
    lemma_pos_mul(p, q);
    assert((x * x * (p * q) > y * y * (p * q)) == (x > y)) by (nonlinear_arith)
        requires
            x >= 0,
            y >= 0,
            p * q > 0,
    ;
}

/// Whether the cell of `x` has a strictly larger area than that of `y`.
fn larger(cfg: &LayoutConfig, width: i32, height: i32, x: &GridGeometry, y: &GridGeometry) -> (r:
    bool)
    requires
        cfg.wf(),
        is_candidate(*cfg, width as int, height as int, *x),
        is_candidate(*cfg, width as int, height as int, *y),
    ensures
        r == area_gt(x.cell(), y.cell()),
{
    proof {
        lemma_cell_bounds(*cfg, width as int, height as int, x.rows as int, x.cols as int);
        lemma_cell_bounds(*cfg, width as int, height as int, y.rows as int, y.cols as int);
    }
    match cfg.aspect_ratio {
        None => {
            proof {
                lemma_mul_bounds(x.cell_width.num as int, x.cell_height.num as int, p44(), p44());
                lemma_mul_bounds(y.cell_width.num as int, y.cell_height.num as int, p44(), p44());
                lemma_mul_bounds(x.cell_width.den as int, x.cell_height.den as int, 4096, 4096);
                lemma_mul_bounds(y.cell_width.den as int, y.cell_height.den as int, 4096, 4096);
                lemma_mul_bounds(
                    x.cell_width.num * x.cell_height.num,
                    y.cell_width.den * y.cell_height.den,
                    0x100_0000_0000_0000_0000_0000,
                    0x100_0000,
                );
                lemma_mul_bounds(
                    y.cell_width.num * y.cell_height.num,
                    x.cell_width.den * x.cell_height.den,
                    0x100_0000_0000_0000_0000_0000,
                    0x100_0000,
                );
            }
            (x.cell_width.num * x.cell_height.num) * (y.cell_width.den * y.cell_height.den) > (
            y.cell_width.num * y.cell_height.num) * (x.cell_width.den * x.cell_height.den)
        },
        Some(ratio) => {
            proof {
                lemma_area_gt_by_width(x.cell(), y.cell(), ratio.num as int, ratio.den as int);
            }
            let xw: i128 = if x.cell_width.num < 0 {
                -x.cell_width.num
            } else {
                x.cell_width.num
            };
            let yw: i128 = if y.cell_width.num < 0 {
                -y.cell_width.num
            } else {
                y.cell_width.num
            };
            proof {
                lemma_mul_bounds(xw as int, y.cell_width.den as int, p76(), p44());
                lemma_mul_bounds(yw as int, x.cell_width.den as int, p76(), p44());
            }
            xw * y.cell_width.den > yw * x.cell_width.den
        },
    }
}

/// Chooses the grid for `n` tiles in a `width x height` box: among the tight
/// partitions, the first (by rows, then columns) of largest cell area.
pub fn pack(n: usize, width: i32, height: i32, cfg: &LayoutConfig) -> (r: Option<GridGeometry>)
    requires
        n <= MAX_ITEMS,
        cfg.wf(),
    ensures
        n == 0 ==> r is None,
        n > 0 ==> (r matches Some(g) && {
            &&& is_best(n as int, *cfg, width as int, height as int, g.rows as int, g.cols as int)
            &&& g.cell() == cell_of(*cfg, width as int, height as int, g.rows as int, g.cols as int)
        }),
{
    if n == 0 {
        return None;
    }
    let ghost w = width as int;
    let ghost h = height as int;
    let ghost nn = n as int;
    let mut best: Option<GridGeometry> = None;
    let mut i: usize = 1;
    while i <= n
        invariant
            1 <= i <= n + 1,
            1 <= n <= MAX_ITEMS,
            cfg.wf(),
            nn == n,
            w == width,
            h == height,
            i > 1 ==> best is Some,
            best is None ==> forall|r: int, c: int|
                1 <= r < i && 1 <= c <= n ==> !is_tight(nn, r, c),
            best matches Some(b) ==> {
                &&& is_candidate(*cfg, w, h, b)
                &&& b.rows < i
                &&& b.cols <= n
                &&& is_tight(nn, b.rows as int, b.cols as int)
                &&& forall|r: int, c: int|
                    1 <= r < i && 1 <= c <= n && is_tight(nn, r, c) ==> !area_gt(
                        #[trigger] cell_of(*cfg, w, h, r, c),
                        b.cell(),
                    )
                &&& forall|r: int, c: int|
                    1 <= r <= n && 1 <= c <= n && is_tight(nn, r, c) && before(
                        r,
                        c,
                        b.rows as int,
                        b.cols as int,
                    ) ==> area_gt(b.cell(), #[trigger] cell_of(*cfg, w, h, r, c))
            },
        decreases n + 1 - i,
    {
        let mut j: usize = 1;
        while j <= n
            invariant
                1 <= i <= n,
                1 <= j <= n + 1,
                1 <= n <= MAX_ITEMS,
                cfg.wf(),
                nn == n,
                w == width,
                h == height,
                i > 1 ==> best is Some,
                (i == 1 && j > n) ==> best is Some,
                best is None ==> forall|r: int, c: int|
                    1 <= r <= n && 1 <= c <= n && before(r, c, i as int, j as int) ==> !is_tight(
                        nn,
                        r,
                        c,
                    ),
                best matches Some(b) ==> {
                    &&& is_candidate(*cfg, w, h, b)
                    &&& before(b.rows as int, b.cols as int, i as int, j as int)
                    &&& b.rows <= n
                    &&& b.cols <= n
                    &&& is_tight(nn, b.rows as int, b.cols as int)
                    &&& forall|r: int, c: int|
                        1 <= r <= n && 1 <= c <= n && is_tight(nn, r, c) && before(
                            r,
                            c,
                            i as int,
                            j as int,
                        ) ==> !area_gt(#[trigger] cell_of(*cfg, w, h, r, c), b.cell())
                    &&& forall|r: int, c: int|
                        1 <= r <= n && 1 <= c <= n && is_tight(nn, r, c) && before(
                            r,
                            c,
                            b.rows as int,
                            b.cols as int,
                        ) ==> area_gt(b.cell(), #[trigger] cell_of(*cfg, w, h, r, c))
                },
            decreases n + 1 - j,
        {
            proof {
                lemma_mul_bounds(i as int, j as int, 4096, 4096);
            }
            let prod = i * j;
            let tight = prod >= n && prod - n < i && prod - n < j;
            assert(tight == is_tight(nn, i as int, j as int));
            if tight {
                let cand = candidate(cfg, width, height, i, j);
                let take = match best {
                    None => true,
                    Some(b) => larger(cfg, width, height, &cand, &b),
                };
                if take {
                    proof {
                        if let Some(b) = best {
                            assert forall|r: int, c: int|
                                1 <= r <= n && 1 <= c <= n && is_tight(nn, r, c) && before(
                                    r,
                                    c,
                                    i as int,
                                    j as int,
                                ) implies area_gt(
                                cand.cell(),
                                #[trigger] cell_of(*cfg, w, h, r, c),
                            ) by {
                                lemma_cell_bounds(*cfg, w, h, r, c);
                                lemma_cell_bounds(*cfg, w, h, b.rows as int, b.cols as int);
                                lemma_cell_bounds(*cfg, w, h, i as int, j as int);
                                lemma_area_gt_step(cell_of(*cfg, w, h, r, c), b.cell(), cand.cell());
                            }
                            assert forall|r: int, c: int|
                                1 <= r <= n && 1 <= c <= n && is_tight(nn, r, c) && before(
                                    r,
                                    c,
                                    i as int,
                                    j as int,
                                ) implies !area_gt(
                                #[trigger] cell_of(*cfg, w, h, r, c),
                                cand.cell(),
                            ) by {
                                lemma_cell_bounds(*cfg, w, h, r, c);
                                lemma_cell_bounds(*cfg, w, h, b.rows as int, b.cols as int);
                                lemma_cell_bounds(*cfg, w, h, i as int, j as int);
                                lemma_area_gt_step(cell_of(*cfg, w, h, r, c), b.cell(), cand.cell());
                            }
                        }
                    }
                    best = Some(cand);
                } else {
                    proof {
                        if let Some(b) = best {
                            assert(!area_gt(cell_of(*cfg, w, h, i as int, j as int), b.cell()));
                        }
                    }
                }
            }
            j = j + 1;
        }
        i = i + 1;
    }
    best
}

/// Every cell the packer weighs, and so the one it returns, keeps the tile
/// ratio exactly: `width / height == num / den` when an aspect ratio is set.
pub proof fn lemma_aspect_fidelity(cfg: LayoutConfig, width: i32, height: i32, rows: int, cols: int)
    requires
        cfg.wf(),
        cfg.aspect_ratio is Some,
        1 <= rows <= MAX_ITEMS,
        1 <= cols <= MAX_ITEMS,
    ensures
        ({
            let c = cell_of(cfg, width as int, height as int, rows, cols);
            &&& c.1 > 0
            &&& c.3 > 0
            &&& c.0 * c.3 * cfg.ratio_den() == c.2 * c.1 * cfg.ratio_num()
        }),
{
    let c = cell_of(cfg, width as int, height as int, rows, cols);
    lemma_cell_bounds(cfg, width as int, height as int, rows, cols);
    let p = cfg.ratio_num();
    let q = cfg.ratio_den();
    assert(c.0 * c.3 * q == c.2 * c.1 * p) by (nonlinear_arith)
        requires
            c.2 == c.0 * q,
            c.3 == c.1 * p,
    ;
}

/// The room for `count` cells shrinks as `count` grows.
pub proof fn lemma_room_antitone(extent: int, gap: int, count: int, n: int)
    requires
        gap >= 0,
        1 <= count <= n,
    ensures
        room(extent, gap, count) >= room(extent, gap, n),
{
    assert((count - 1) * gap <= (n - 1) * gap) by (nonlinear_arith)
        requires
            gap >= 0,
            count <= n,
    ;
}

/// One candidate's cell does not shrink when the box gets wider, as long as
/// the box holds its gaps.
proof fn lemma_candidate_grows(cfg: LayoutConfig, w1: int, w2: int, height: int, rows: int, cols: int)
    requires
        cfg.wf(),
        -p31() <= w1 <= w2 < p31(),
        -p31() <= height < p31(),
        1 <= rows <= MAX_ITEMS,
        1 <= cols <= MAX_ITEMS,
        room(w1, cfg.col_gap(), cols) >= 0,
        room(height, cfg.row_gap(), rows) >= 0,
    ensures
        !area_gt(cell_of(cfg, w1, height, rows, cols), cell_of(cfg, w2, height, rows, cols)),
{
    let k = cell_of(cfg, w1, height, rows, cols);
    let k2 = cell_of(cfg, w2, height, rows, cols);
    let a1 = room(w1, cfg.col_gap(), cols);
    let a2 = room(w2, cfg.col_gap(), cols);
    let b = room(height, cfg.row_gap(), rows);
    lemma_cell_bounds(cfg, w1, height, rows, cols);
    lemma_cell_bounds(cfg, w2, height, rows, cols);
    assert(a1 <= a2);
    match cfg.aspect_ratio {
        None => {
            lemma_pos_mul(cols, rows);
            assert((a1 * b) * (cols * rows) <= (a2 * b) * (cols * rows)) by (nonlinear_arith)
                requires
                    0 <= a1 <= a2,
                    b >= 0,
                    cols * rows > 0,
            ;
        },
        Some(r) => {
            let p = r.num as int;
            let q = r.den as int;
            lemma_area_gt_by_width(k, k2, p, q);
            lemma_pos_mul(q, rows);
            assert(p * b >= 0) by (nonlinear_arith)
                requires
                    p > 0,
                    b >= 0,
            ;
            if width_limited(a1, b, rows, cols, p, q) {
                if width_limited(a2, b, rows, cols, p, q) {
                    assert(a1 * cols <= a2 * cols) by (nonlinear_arith)
                        requires
                            a1 <= a2,
                            cols > 0,
                    ;
                } else {
                    assert(a1 * (q * rows) <= (p * b) * cols) by (nonlinear_arith)
                        requires
                            a1 * q * rows <= p * b * cols,
                    ;
                }
            } else {
                assert(a1 * q * rows <= a2 * q * rows) by (nonlinear_arith)
                    requires
                        a1 <= a2,
                        q * rows > 0,
                ;
                assert(!width_limited(a2, b, rows, cols, p, q));
            }
        },
    }
}

/// Widening the box, with the height and the settings unchanged, never
/// shrinks the chosen cell, as long as the narrower box holds the gaps of a
/// single row of all `n` items and the box holds those of a single column.
pub proof fn lemma_wider_never_smaller(
    n: int,
    cfg: LayoutConfig,
    w1: i32,
    w2: i32,
    height: i32,
    r1: int,
    c1: int,
    r2: int,
    c2: int,
)
    requires
        1 <= n <= MAX_ITEMS,
        cfg.wf(),
        w1 <= w2,
        room(w1 as int, cfg.col_gap(), n) >= 0,
        room(height as int, cfg.row_gap(), n) >= 0,
        is_best(n, cfg, w1 as int, height as int, r1, c1),
        is_best(n, cfg, w2 as int, height as int, r2, c2),
    ensures
        !area_gt(
            cell_of(cfg, w1 as int, height as int, r1, c1),
            cell_of(cfg, w2 as int, height as int, r2, c2),
        ),
{
    let k = cell_of(cfg, w1 as int, height as int, r1, c1);
    let k_wide = cell_of(cfg, w2 as int, height as int, r1, c1);
    let b = cell_of(cfg, w2 as int, height as int, r2, c2);
    lemma_room_antitone(w1 as int, cfg.col_gap(), c1, n);
    lemma_room_antitone(height as int, cfg.row_gap(), r1, n);
    lemma_candidate_grows(cfg, w1 as int, w2 as int, height as int, r1, c1);
    assert(!area_gt(k_wide, b));
    lemma_cell_bounds(cfg, w1 as int, height as int, r1, c1);
    lemma_cell_bounds(cfg, w2 as int, height as int, r1, c1);
    lemma_cell_bounds(cfg, w2 as int, height as int, r2, c2);
    lemma_area_le_trans(k, k_wide, b);
}

} // verus!
