//! Window arrangement math: edge/corner snapping and automatic tiling, as pure
//! geometry over [`Geometry`] values.
use vstd::prelude::*;
use crate::window::{Geometry, half, inset_fits, inset_spec};

verus! {

/// Where a window snaps when dragged to a screen region or triggered by a
/// keybinding.
#[derive(Clone, Copy, Debug, PartialEq, Eq, Structural)]
pub enum SnapTarget {
    LeftHalf,
    RightHalf,
    TopHalf,
    BottomHalf,
    TopLeft,
    TopRight,
    BottomLeft,
    BottomRight,
    Maximize,
}

/// The rectangle with the given corner and size, each coordinate as an
/// integer (callers ensure it fits `i32`).
pub open spec fn rect(x: int, y: int, w: int, h: int) -> Geometry {
    Geometry { x: x as i32, y: y as i32, w: w as i32, h: h as i32 }
}

/// The region of `area` that `t` covers: halves and quarters split the width
/// and height at `w / 2` and `h / 2` (rounded toward zero), the right and
/// bottom parts taking the remainder.
pub open spec fn resolve_spec(t: SnapTarget, area: Geometry) -> Geometry {
    let (x, y, w, h) = (area.x as int, area.y as int, area.w as int, area.h as int);
    let (hw, hh) = (half(w), half(h));
    match t {
        SnapTarget::LeftHalf => rect(x, y, hw, h),
        SnapTarget::RightHalf => rect(x + hw, y, w - hw, h),
        SnapTarget::TopHalf => rect(x, y, w, hh),
        SnapTarget::BottomHalf => rect(x, y + hh, w, h - hh),
        SnapTarget::TopLeft => rect(x, y, hw, hh),
        SnapTarget::TopRight => rect(x + hw, y, w - hw, hh),
        SnapTarget::BottomLeft => rect(x, y + hh, hw, h - hh),
        SnapTarget::BottomRight => rect(x + hw, y + hh, w - hw, h - hh),
        SnapTarget::Maximize => area,
    }
}

pub open spec fn fits(v: int) -> bool {
    i32::MIN <= v <= i32::MAX
}

/// Every coordinate `resolve` computes fits `i32`.
pub open spec fn resolve_fits(area: Geometry) -> bool {
    &&& fits(area.x + half(area.w as int))
    &&& fits(area.y + half(area.h as int))
    &&& fits(area.w - half(area.w as int))
    &&& fits(area.h - half(area.h as int))
}

impl SnapTarget {
    /// Resolve this snap target against a work `area` (the output minus any
    /// reserved panel space).
    pub fn resolve(self, area: Geometry) -> (g: Geometry)
        requires
            resolve_fits(area),
        ensures
            g == resolve_spec(self, area),
    {
        let (x, y, w, h) = (area.x, area.y, area.w, area.h);
        let (hw, hh) = (w / 2, h / 2);
        match self {
            SnapTarget::LeftHalf => Geometry::new(x, y, hw, h),
            SnapTarget::RightHalf => Geometry::new(x + hw, y, w - hw, h),
            SnapTarget::TopHalf => Geometry::new(x, y, w, hh),
            SnapTarget::BottomHalf => Geometry::new(x, y + hh, w, h - hh),
            SnapTarget::TopLeft => Geometry::new(x, y, hw, hh),
            SnapTarget::TopRight => Geometry::new(x + hw, y, w - hw, hh),
            SnapTarget::BottomLeft => Geometry::new(x, y + hh, hw, h - hh),
            SnapTarget::BottomRight => Geometry::new(x + hw, y + hh, w - hw, h - hh),
            SnapTarget::Maximize => area,
        }
    }
}

/// The snap zone a pointer at `(px, py)` is in: corners first, then the left
/// and right edges, then the top edge (which maximizes); `None` elsewhere.
pub open spec fn snap_spec(area: Geometry, px: int, py: int, margin: int) -> Option<SnapTarget> {
    let near_left = px <= area.x + margin;
    let near_right = px >= area.x + area.w - margin;
    let near_top = py <= area.y + margin;
    let near_bottom = py >= area.y + area.h - margin;
    if near_left && near_top {
        Some(SnapTarget::TopLeft)
    } else if near_right && near_top {
        Some(SnapTarget::TopRight)
    } else if near_left && near_bottom {
        Some(SnapTarget::BottomLeft)
    } else if near_right && near_bottom {
        Some(SnapTarget::BottomRight)
    } else if near_left {
        Some(SnapTarget::LeftHalf)
    } else if near_right {
        Some(SnapTarget::RightHalf)
    } else if near_top {
        Some(SnapTarget::Maximize)
    } else {
        None
    }
}

/// Detect a snap target from a pointer position near the work-area edges, used
/// while dragging a window. `margin` is how close to an edge counts as a hit.
pub fn snap_from_pointer(area: Geometry, px: i32, py: i32, margin: i32) -> (r: Option<SnapTarget>)
    requires
        fits(area.x + margin),
        fits(area.x + area.w),
        fits(area.x + area.w - margin),
        fits(area.y + margin),
        fits(area.y + area.h),
        fits(area.y + area.h - margin),
    ensures
        r == snap_spec(area, px as int, py as int, margin as int),
{
    let near_left = px <= area.x + margin;
    let near_right = px >= area.x + area.w - margin;
    let near_top = py <= area.y + margin;
    let near_bottom = py >= area.y + area.h - margin;
    match (near_left, near_right, near_top, near_bottom) {
        (true, _, true, _) => Some(SnapTarget::TopLeft),
        (_, true, true, _) => Some(SnapTarget::TopRight),
        (true, _, _, true) => Some(SnapTarget::BottomLeft),
        (_, true, _, true) => Some(SnapTarget::BottomRight),
        (true, _, _, _) => Some(SnapTarget::LeftHalf),
        (_, true, _, _) => Some(SnapTarget::RightHalf),
        (_, _, true, _) => Some(SnapTarget::Maximize),
        _ => None,
    }
}


/// The automatic tiling arrangement.
#[derive(Clone, Copy, Debug, PartialEq, Eq, Structural, Default)]
pub enum TilingMode {
    /// One large master window on the left, the rest stacked on the right.
    #[default]
    MasterStack,
    /// Equal-width columns.
    Columns,
    /// A near-square grid.
    Grid,
}

/// Integer division rounding toward zero, as Rust's `/` does (`b > 0`).
pub open spec fn tdiv(a: int, b: int) -> int {
    if a >= 0 { a / b } else { -((-a) / b) }
}

/// `p / 1000` rounded to the nearest integer, halves away from zero.
pub open spec fn round_thousandths(p: int) -> int {
    if p >= 0 { (p + 500) / 1000 } else { -((-p + 500) / 1000) }
}

/// The master ratio, in thousandths, limited to `100..=900`.
pub open spec fn clamp_ratio(r: int) -> int {
    if r < 100 { 100 } else if r > 900 { 900 } else { r }
}

/// Width of the master column: `w` times the clamped ratio, rounded.
pub open spec fn master_width(w: int, ratio: int) -> int {
    round_thousandths(w * clamp_ratio(ratio))
}

/// The least `c >= start` with `c * c >= n`.
pub open spec fn ceil_sqrt_from(n: nat, c: nat) -> nat
    decreases n - c,
{
    if c * c >= n || c >= n {
        c
    } else {
        ceil_sqrt_from(n, c + 1)
    }
}

/// Number of grid columns for `n` windows: the least `c` with `c * c >= n`.
pub open spec fn grid_cols(n: nat) -> nat {
    ceil_sqrt_from(n, 0)
}

/// Number of grid rows for `n` windows in `cols` columns.
pub open spec fn grid_rows(n: int, cols: int) -> int {
    (n + cols - 1) / cols
}

/// The untrimmed cell of window `i` of `count` (`count >= 2`), as
/// `(x, y, w, h)`; the last column or row absorbs the rounding remainder.
pub open spec fn raw_cell(area: Geometry, count: int, mode: TilingMode, ratio: int, i: int) -> (int, int, int, int) {
    let (x, y, w, h) = (area.x as int, area.y as int, area.w as int, area.h as int);
    match mode {
        TilingMode::MasterStack => {
            let mw = master_width(w, ratio);
            if i == 0 {
                (x, y, mw, h)
            } else {
                let n = count - 1;
                let j = i - 1;
                let ch = tdiv(h, n);
                (x + mw, y + ch * j, w - mw, if j == n - 1 { h - ch * j } else { ch })
            }
        },
        TilingMode::Columns => {
            let cw = tdiv(w, count);
            (x + cw * i, y, if i == count - 1 { w - cw * i } else { cw }, h)
        },
        TilingMode::Grid => {
            let cols = grid_cols(count as nat) as int;
            let rows = grid_rows(count, cols);
            let c = i % cols;
            let r = i / cols;
            let cw = tdiv(w, cols);
            let ch = tdiv(h, rows);
            (
                x + cw * c,
                y + ch * r,
                if c == cols - 1 { w - cw * c } else { cw },
                if r == rows - 1 { h - ch * r } else { ch },
            )
        },
    }
}

pub open spec fn cell_geometry(c: (int, int, int, int)) -> Geometry {
    rect(c.0, c.1, c.2, c.3)
}

pub open spec fn cell_fits(c: (int, int, int, int)) -> bool {
    fits(c.0) && fits(c.1) && fits(c.2) && fits(c.3)
}

/// The geometries `tile` assigns, one per window in input order, each inset
/// by `gap`: a single window fills the area, otherwise the cells of `mode`.
pub open spec fn tile_spec(area: Geometry, count: int, mode: TilingMode, gap: i32, ratio: int) -> Seq<Geometry> {
    if count <= 0 {
        Seq::empty()
    } else if count == 1 {
        seq![inset_spec(area, gap)]
    } else {
        Seq::new(count as nat, |i: int| inset_spec(cell_geometry(raw_cell(area, count, mode, ratio, i)), gap))
    }
}

/// Every value `tile` computes fits `i32`.
pub open spec fn tile_fits(area: Geometry, count: int, mode: TilingMode, gap: i32, ratio: int) -> bool {
    &&& count <= i32::MAX
    &&& count == 1 ==> inset_fits(area, gap)
    &&& count >= 2 ==> forall|i: int|
        0 <= i < count ==> cell_fits(#[trigger] raw_cell(area, count, mode, ratio, i))
            && inset_fits(cell_geometry(raw_cell(area, count, mode, ratio, i)), gap)
}

pub open spec fn sq(d: nat) -> nat {
    d * d
}

proof fn lemma_ceil_sqrt(n: nat, c: nat)
    requires
        c <= n || n == 0,
        forall|d: nat| d < c ==> #[trigger] sq(d) < n,
    ensures
        ceil_sqrt_from(n, c) * ceil_sqrt_from(n, c) >= n,
        ceil_sqrt_from(n, c) >= 1 || n == 0,
        ceil_sqrt_from(n, c) <= n || n == 0,
        forall|d: nat| d < ceil_sqrt_from(n, c) ==> #[trigger] sq(d) < n,
    decreases n - c,
{
    if c * c >= n || c >= n {
        if c >= n && n > 0 {
            assert(c * c >= n) by (nonlinear_arith) requires c >= n, n > 0;
        }
        if n > 0 && c == 0 {
            assert(c * c == 0);
        }
    } else {
        assert forall|d: nat| d < c + 1 implies #[trigger] sq(d) < n by {
            if d == c {
            }
        }
        lemma_ceil_sqrt(n, c + 1);
    }
}

/// Number of grid columns for `count` windows.
fn grid_columns(count: usize) -> (c: usize)
    requires
        1 <= count <= i32::MAX,
    ensures
        c == grid_cols(count as nat),
        1 <= c <= count,
        c * c >= count,
{
    proof {
        lemma_ceil_sqrt(count as nat, 0);
    }
    let mut c: usize = 0;
    while square(c) < count as u64
        invariant
            1 <= count <= i32::MAX,
            c <= count,
            forall|d: nat| d < c ==> #[trigger] sq(d) < count,
            ceil_sqrt_from(count as nat, c as nat) == grid_cols(count as nat),
        decreases count - c,
    {
        proof {
            if c >= count {
                assert(c * c >= count) by (nonlinear_arith) requires c >= count, count >= 1;
            }
            assert(c <= i32::MAX);
            assert(c * c <= i32::MAX * i32::MAX) by (nonlinear_arith) requires c <= i32::MAX;
        }
        c += 1;
    }
    proof {
        assert(c * c <= i32::MAX * i32::MAX) by (nonlinear_arith) requires c <= i32::MAX;
        lemma_ceil_sqrt(count as nat, c as nat);
    }
    c
}

proof fn lemma_mul_bound(a: int, b: int, bound: int)
    by (nonlinear_arith)
    requires
        -bound <= a <= bound,
        0 <= b <= bound,
        bound == 0x8000_0000,
    ensures
        -0x4000_0000_0000_0000 <= a * b <= 0x4000_0000_0000_0000,
{
}

fn square(c: usize) -> (r: u64)
    requires
        c <= i32::MAX,
    ensures
        r == c * c,
{
    proof {
        assert(c * c <= i32::MAX * i32::MAX) by (nonlinear_arith) requires c <= i32::MAX;
    }
    (c as u64) * (c as u64)
}

/// The cell of window `i`, before the gap is applied.
fn cell(area: Geometry, count: usize, mode: TilingMode, ratio: u32, cols: usize, i: usize) -> (r: (i64, i64, i64, i64))
    requires
        2 <= count <= i32::MAX,
        i < count,
        mode == TilingMode::Grid ==> cols == grid_cols(count as nat) && 1 <= cols <= count && cols * cols >= count,
    ensures
        (r.0 as int, r.1 as int, r.2 as int, r.3 as int) == raw_cell(area, count as int, mode, ratio as int, i as int),
{
    let (x, y, w, h) = (area.x as i64, area.y as i64, area.w as i64, area.h as i64);
    let b: i64 = 0x8000_0000;
    match mode {
        TilingMode::MasterStack => {
            let r: i64 = if ratio < 100 { 100 } else if ratio > 900 { 900 } else { ratio as i64 };
            proof {
                assert(-b * 900 <= w * r <= b * 900) by (nonlinear_arith) requires -b <= w <= b, 100 <= r <= 900;
            }
            let p: i64 = w * r;
            let mw: i64 = if p >= 0 { (p + 500) / 1000 } else { -((-p + 500) / 1000) };
            if i == 0 {
                (x, y, mw, h)
            } else {
                let n = (count - 1) as i64;
                let j = (i - 1) as i64;
                let ch = h / n;
                proof {
                    assert(-b <= ch <= b) by (nonlinear_arith) requires -b <= h <= b, n >= 1, ch == tdiv(h as int, n as int);
                    lemma_mul_bound(ch as int, j as int, b as int);
                }
                let hh = if j == n - 1 { h - ch * j } else { ch };
                (x + mw, y + ch * j, w - mw, hh)
            }
        },
        TilingMode::Columns => {
            let n = count as i64;
            let cw = w / n;
            let ii = i as i64;
            proof {
                assert(-b <= cw <= b) by (nonlinear_arith) requires -b <= w <= b, n >= 1, cw == tdiv(w as int, n as int);
                lemma_mul_bound(cw as int, ii as int, b as int);
            }
            let ww = if ii == n - 1 { w - cw * ii } else { cw };
            (x + cw * ii, y, ww, h)
        },
        TilingMode::Grid => {
            let n = count as i64;
            let cs = cols as i64;
            let rows = (n + cs - 1) / cs;
            let ii = i as i64;
            let c = ii % cs;
            let r = ii / cs;
            let cw = w / cs;
            proof {
                assert(rows >= 1) by (nonlinear_arith) requires rows == (n as int + cs as int - 1) / (cs as int), n >= 1, cs >= 1;
            }
            let ch = h / rows;
            proof {
                assert(-b <= cw <= b) by (nonlinear_arith) requires -b <= w <= b, cs >= 1, cw == tdiv(w as int, cs as int);
                assert(-b <= ch <= b) by (nonlinear_arith) requires -b <= h <= b, rows >= 1, ch == tdiv(h as int, rows as int);
                assert(0 <= c < cs);
                assert(0 <= r <= ii) by (nonlinear_arith) requires r == ii / cs, ii >= 0, cs >= 1;
                lemma_mul_bound(cw as int, c as int, b as int);
                lemma_mul_bound(ch as int, r as int, b as int);
            }
            let ww = if c == cs - 1 { w - cw * c } else { cw };
            let hh = if r == rows - 1 { h - ch * r } else { ch };
            (x + cw * c, y + ch * r, ww, hh)
        },
    }
}

/// Compute tiled geometries for `count` windows within `area`.
///
/// `gap` is applied as an inset on every window. `master_ratio` is the
/// fraction of width, in thousandths (clamped to `100..=900`), that the master
/// column gets in [`TilingMode::MasterStack`]. Returns one [`Geometry`] per
/// window, in input order.
pub fn tile(area: Geometry, count: usize, mode: TilingMode, gap: i32, master_ratio: u32) -> (r: Vec<Geometry>)
    requires
        tile_fits(area, count as int, mode, gap, master_ratio as int),
    ensures
        r@ == tile_spec(area, count as int, mode, gap, master_ratio as int),
{
    if count == 0 {
        return Vec::new();
    }
    if count == 1 {
        let mut v = Vec::new();
        v.push(area.inset(gap));
        return v;
    }
    let cols = if mode == TilingMode::Grid { grid_columns(count) } else { 1 };
    let mut out: Vec<Geometry> = Vec::new();
    let mut i: usize = 0;
    while i < count
        invariant
            2 <= count <= i32::MAX,
            i <= count,
            mode == TilingMode::Grid ==> cols == grid_cols(count as nat) && 1 <= cols <= count && cols * cols >= count,
            tile_fits(area, count as int, mode, gap, master_ratio as int),
            out@.len() == i,
            forall|k: int| 0 <= k < i ==> out@[k] == inset_spec(
                cell_geometry(raw_cell(area, count as int, mode, master_ratio as int, k)),
                gap,
            ),
        decreases count - i,
    {
        let c = cell(area, count, mode, master_ratio, cols, i);
        let ghost rc = raw_cell(area, count as int, mode, master_ratio as int, i as int);
        assert(cell_fits(rc) && inset_fits(cell_geometry(rc), gap));
        let g = Geometry::new(c.0 as i32, c.1 as i32, c.2 as i32, c.3 as i32);
        out.push(g.inset(gap));
        i += 1;
    }
    assert(out@ =~= tile_spec(area, count as int, mode, gap, master_ratio as int));
    out
}


/// An area whose coordinates and sizes, and a gap, are all within `±2^28`.
pub open spec fn modest(area: Geometry, gap: i32) -> bool {
    let b = 0x1000_0000int;
    &&& -b <= area.x <= b
    &&& -b <= area.y <= b
    &&& -b <= area.w <= b
    &&& -b <= area.h <= b
    &&& -b <= gap <= b
}

/// A part `q` of a length `w` cut into `n` equal pieces, taken `k < n`
/// times, stays within `w`.
proof fn lemma_part_bound(w: int, n: int, k: int)
    requires
        n >= 1,
        0 <= k < n,
    ensures
        -abs(w) <= tdiv(w, n) * k <= abs(w),
        -abs(w) <= tdiv(w, n) <= abs(w),
{
    let q = tdiv(w, n);
    if w >= 0 {
        assert(0 <= q * n <= w) by (nonlinear_arith) requires q == w / n, w >= 0, n >= 1;
        assert(0 <= q * k <= q * n) by (nonlinear_arith) requires 0 <= k < n, q >= 0;
        assert(q <= q * n) by (nonlinear_arith) requires q >= 0, n >= 1;
    } else {
        let p = (-w) / n;
        assert(0 <= p * n <= -w) by (nonlinear_arith) requires p == (-w) / n, -w >= 0, n >= 1;
        assert(0 <= p * k <= p * n) by (nonlinear_arith) requires 0 <= k < n, p >= 0;
        assert(p <= p * n) by (nonlinear_arith) requires p >= 0, n >= 1;
        assert(q * k == -(p * k)) by (nonlinear_arith) requires q == -p;
    }
}

pub open spec fn abs(v: int) -> int {
    if v >= 0 { v } else { -v }
}

proof fn lemma_master_bound(w: int, ratio: int)
    ensures
        -abs(w) <= master_width(w, ratio) <= abs(w),
{
    let r = clamp_ratio(ratio);
    let p = w * r;
    if w >= 0 {
        assert(0 <= p <= w * 900) by (nonlinear_arith) requires p == w * r, w >= 0, 100 <= r <= 900;
        assert((p + 500) / 1000 <= w) by (nonlinear_arith) requires 0 <= p <= w * 900, w >= 0;
        assert((p + 500) / 1000 >= 0) by (nonlinear_arith) requires p >= 0;
    } else {
        assert(w * 900 <= p <= 0) by (nonlinear_arith) requires p == w * r, w < 0, 100 <= r <= 900;
        assert((-p + 500) / 1000 <= -w) by (nonlinear_arith) requires 0 <= -p <= -w * 900, w < 0;
        assert((-p + 500) / 1000 >= 0) by (nonlinear_arith) requires -p >= 0;
    }
}

/// On a modest area every cell of every layout, and its inset, fits `i32`.
pub proof fn lemma_modest_area_fits(area: Geometry, count: int, mode: TilingMode, gap: i32, ratio: int)
    requires
        modest(area, gap),
        1 <= count <= i32::MAX,
    ensures
        tile_fits(area, count, mode, gap, ratio),
{
    let b = 0x1000_0000int;
    let (x, y, w, h) = (area.x as int, area.y as int, area.w as int, area.h as int);
    if count >= 2 {
        assert forall|i: int| 0 <= i < count implies cell_fits(#[trigger] raw_cell(area, count, mode, ratio, i))
            && inset_fits(cell_geometry(raw_cell(area, count, mode, ratio, i)), gap) by {
            let c = raw_cell(area, count, mode, ratio, i);
            match mode {
                TilingMode::MasterStack => {
                    lemma_master_bound(w, ratio);
                    if i > 0 {
                        lemma_part_bound(h, count - 1, i - 1);
                    }
                },
                TilingMode::Columns => {
                    lemma_part_bound(w, count, i);
                },
                TilingMode::Grid => {
                    lemma_ceil_sqrt(count as nat, 0);
                    let cols = grid_cols(count as nat) as int;
                    let rows = grid_rows(count, cols);
                    assert(1 <= cols);
                    assert(rows >= 1) by (nonlinear_arith) requires rows == (count + cols - 1) / cols, count >= 1, cols >= 1;
                    let cc = i % cols;
                    let r = i / cols;
                    assert(0 <= cc < cols) by (nonlinear_arith) requires cc == i % cols, cols >= 1, i >= 0;
                    assert(0 <= r < rows) by (nonlinear_arith)
                        requires r == i / cols, rows == (count + cols - 1) / cols, 0 <= i < count, cols >= 1;
                    lemma_part_bound(w, cols, cc);
                    lemma_part_bound(h, rows, r);
                },
            }
            assert(-2 * b <= c.0 <= 2 * b && -2 * b <= c.1 <= 2 * b);
            assert(-2 * b <= c.2 <= 2 * b && -2 * b <= c.3 <= 2 * b);
        }
    } else {
        assert(inset_fits(area, gap));
    }
}

/// The left and right halves split the area's width exactly, side by side;
/// so do the top and bottom halves its height.
pub proof fn law_halves_partition(area: Geometry)
    requires
        resolve_fits(area),
    ensures
        resolve_spec(SnapTarget::LeftHalf, area).x == area.x,
        resolve_spec(SnapTarget::LeftHalf, area).w + resolve_spec(SnapTarget::RightHalf, area).w == area.w,
        resolve_spec(SnapTarget::RightHalf, area).x == area.x + resolve_spec(SnapTarget::LeftHalf, area).w,
        resolve_spec(SnapTarget::TopHalf, area).y == area.y,
        resolve_spec(SnapTarget::TopHalf, area).h + resolve_spec(SnapTarget::BottomHalf, area).h == area.h,
        resolve_spec(SnapTarget::BottomHalf, area).y == area.y + resolve_spec(SnapTarget::TopHalf, area).h,
{
}

/// Column cells lie side by side from the area's left edge to its right
/// edge, each starting where the previous one ends, all of the area's
/// height.
pub proof fn law_columns_partition(area: Geometry, count: int, ratio: int, i: int)
    requires
        2 <= count,
        0 <= i < count,
    ensures
        i == 0 ==> raw_cell(area, count, TilingMode::Columns, ratio, i).0 == area.x,
        i < count - 1 ==> raw_cell(area, count, TilingMode::Columns, ratio, i).0 + raw_cell(
            area,
            count,
            TilingMode::Columns,
            ratio,
            i,
        ).2 == raw_cell(area, count, TilingMode::Columns, ratio, i + 1).0,
        i == count - 1 ==> raw_cell(area, count, TilingMode::Columns, ratio, i).0 + raw_cell(
            area,
            count,
            TilingMode::Columns,
            ratio,
            i,
        ).2 == area.x + area.w,
        raw_cell(area, count, TilingMode::Columns, ratio, i).1 == area.y,
        raw_cell(area, count, TilingMode::Columns, ratio, i).3 == area.h,
{
    let cw = tdiv(area.w as int, count);
    assert(cw * i + cw == cw * (i + 1)) by (nonlinear_arith);
}

/// In master/stack, the master column and the stack column split the width
/// exactly, and the stacked cells lie one below the other from the top of
/// the area to its bottom.
pub proof fn law_master_stack_partition(area: Geometry, count: int, ratio: int, i: int)
    requires
        2 <= count,
        1 <= i < count,
    ensures
        raw_cell(area, count, TilingMode::MasterStack, ratio, 0).0 == area.x,
        raw_cell(area, count, TilingMode::MasterStack, ratio, 0).0 + raw_cell(area, count, TilingMode::MasterStack, ratio, 0).2
            == raw_cell(area, count, TilingMode::MasterStack, ratio, i).0,
        raw_cell(area, count, TilingMode::MasterStack, ratio, 0).2 + raw_cell(area, count, TilingMode::MasterStack, ratio, i).2
            == area.w,
        i == 1 ==> raw_cell(area, count, TilingMode::MasterStack, ratio, i).1 == area.y,
        i < count - 1 ==> raw_cell(area, count, TilingMode::MasterStack, ratio, i).1 + raw_cell(
            area,
            count,
            TilingMode::MasterStack,
            ratio,
            i,
        ).3 == raw_cell(area, count, TilingMode::MasterStack, ratio, i + 1).1,
        i == count - 1 ==> raw_cell(area, count, TilingMode::MasterStack, ratio, i).1 + raw_cell(
            area,
            count,
            TilingMode::MasterStack,
            ratio,
            i,
        ).3 == area.y + area.h,
{
    let ch = tdiv(area.h as int, count - 1);
    let j = i - 1;
    assert(ch * j + ch == ch * (j + 1)) by (nonlinear_arith);
    assert(ch * 0 == 0);
}

/// Grid cells tile the area in rows and columns: each cell starts where its
/// left neighbour ends and where the cell above it ends, the first column
/// and row start at the area's left and top edges, and the last column and
/// row end at its right and bottom edges.
pub proof fn law_grid_partition(area: Geometry, count: int, ratio: int, i: int)
    requires
        2 <= count,
        0 <= i < count,
    ensures
        ({
            let cols = grid_cols(count as nat) as int;
            let rows = grid_rows(count, cols);
            let c = raw_cell(area, count, TilingMode::Grid, ratio, i);
            &&& i % cols == 0 ==> c.0 == area.x
            &&& i / cols == 0 ==> c.1 == area.y
            &&& i % cols < cols - 1 && i + 1 < count ==> c.0 + c.2 == raw_cell(area, count, TilingMode::Grid, ratio, i + 1).0
                && c.1 == raw_cell(area, count, TilingMode::Grid, ratio, i + 1).1
            &&& i % cols == cols - 1 ==> c.0 + c.2 == area.x + area.w
            &&& i + cols < count ==> c.1 + c.3 == raw_cell(area, count, TilingMode::Grid, ratio, i + cols).1
                && c.0 == raw_cell(area, count, TilingMode::Grid, ratio, i + cols).0
            &&& i / cols == rows - 1 ==> c.1 + c.3 == area.y + area.h
        }),
{
    lemma_ceil_sqrt(count as nat, 0);
    let cols = grid_cols(count as nat) as int;
    let rows = grid_rows(count, cols);
    let cw = tdiv(area.w as int, cols);
    let ch = tdiv(area.h as int, rows);
    let cc = i % cols;
    let r = i / cols;
    assert(cols >= 1);
    assert(i == r * cols + cc && 0 <= cc < cols && r >= 0) by (nonlinear_arith)
        requires cc == i % cols, r == i / cols, cols >= 1, i >= 0;
    assert(cw * cc + cw == cw * (cc + 1)) by (nonlinear_arith);
    assert(ch * r + ch == ch * (r + 1)) by (nonlinear_arith);
    assert(cw * 0 == 0 && ch * 0 == 0);
    if cc < cols - 1 && i + 1 < count {
        assert((i + 1) % cols == cc + 1 && (i + 1) / cols == r) by (nonlinear_arith)
            requires i == r * cols + cc, 0 <= cc < cols - 1, r >= 0;
    }
    if i + cols < count {
        assert((i + cols) % cols == cc && (i + cols) / cols == r + 1) by (nonlinear_arith)
            requires i == r * cols + cc, 0 <= cc < cols, r >= 0;
        assert(r < rows - 1) by (nonlinear_arith)
            requires i + cols < count, i == r * cols + cc, 0 <= cc, cols >= 1, rows == (count + cols - 1) / cols;
    }
}

/// Every snap region is the part of the area it names. The halves keep the
/// other dimension whole, with the right (bottom) half taking the odd pixel
/// of an odd width (height); each quarter is where its two halves meet; and
/// maximize is the whole area.
pub proof fn law_snap_regions(area: Geometry)
    requires
        resolve_fits(area),
    ensures
        ({
            let l = resolve_spec(SnapTarget::LeftHalf, area);
            let r = resolve_spec(SnapTarget::RightHalf, area);
            let t = resolve_spec(SnapTarget::TopHalf, area);
            let b = resolve_spec(SnapTarget::BottomHalf, area);
            &&& l.x == area.x && l.y == area.y && l.h == area.h
            &&& r.y == area.y && r.h == area.h && r.x == area.x + l.w && l.w + r.w == area.w
            &&& t.x == area.x && t.y == area.y && t.w == area.w
            &&& b.x == area.x && b.w == area.w && b.y == area.y + t.h && t.h + b.h == area.h
            &&& area.w >= 0 ==> 0 <= l.w && 0 <= r.w - l.w <= 1
            &&& area.h >= 0 ==> 0 <= t.h && 0 <= b.h - t.h <= 1
            &&& resolve_spec(SnapTarget::TopLeft, area) == (Geometry { x: l.x, y: t.y, w: l.w, h: t.h })
            &&& resolve_spec(SnapTarget::TopRight, area) == (Geometry { x: r.x, y: t.y, w: r.w, h: t.h })
            &&& resolve_spec(SnapTarget::BottomLeft, area) == (Geometry { x: l.x, y: b.y, w: l.w, h: b.h })
            &&& resolve_spec(SnapTarget::BottomRight, area) == (Geometry { x: r.x, y: b.y, w: r.w, h: b.h })
            &&& resolve_spec(SnapTarget::Maximize, area) == area
        }),
{
}

/// In master/stack the master window fills the area's height at the left,
/// its width the area's width times the ratio (limited to 10%..90%), rounded
/// to the nearest pixel; the stacked windows share the rest of the width and
/// split the height into `count - 1` equal rows, the last row taking what the
/// division leaves over. `tile` insets each of these cells by the gap.
pub proof fn law_master_stack_cells(area: Geometry, count: int, ratio: int, gap: i32, i: int)
    requires
        2 <= count,
        0 <= i < count,
    ensures
        ({
            let m = raw_cell(area, count, TilingMode::MasterStack, ratio, 0);
            let c = raw_cell(area, count, TilingMode::MasterStack, ratio, i);
            let rc = if ratio < 100 { 100 } else if ratio > 900 { 900 } else { ratio };
            &&& m.0 == area.x && m.1 == area.y && m.3 == area.h
            &&& area.w >= 0 ==> area.w * rc - 500 < 1000 * m.2 <= area.w * rc + 500
            &&& 1 <= i ==> c.0 == area.x + m.2 && c.2 == area.w - m.2
            &&& 1 <= i < count - 1 ==> c.3 == tdiv(area.h as int, count - 1)
            &&& i == 1 ==> c.1 == area.y
            &&& i == count - 1 ==> c.1 + c.3 == area.y + area.h
            &&& tile_spec(area, count, TilingMode::MasterStack, gap, ratio)[i] == inset_spec(cell_geometry(c), gap)
        }),
{
    let w = area.w as int;
    let rc = clamp_ratio(ratio);
    let p = w * rc;
    if w >= 0 {
        assert(p >= 0) by (nonlinear_arith) requires p == w * rc, w >= 0, rc >= 100;
        let q = (p + 500) / 1000;
        assert(p - 500 < 1000 * q <= p + 500) by (nonlinear_arith) requires q == (p + 500) / 1000, p >= 0;
    }
    if i >= 1 {
        law_master_stack_partition(area, count, ratio, i);
    }
}

/// Columns have equal widths, the area's width divided by the window count
/// (rounded toward zero), except the last, which takes what is left over;
/// a grid has the fewest columns whose square holds every window, the fewest
/// rows that hold them in those columns, and equal cells except in the last
/// column and row. `tile` insets each cell by the gap.
pub proof fn law_equal_cells(area: Geometry, count: int, ratio: int, gap: i32, i: int)
    requires
        2 <= count,
        0 <= i < count,
    ensures
        ({
            let c = raw_cell(area, count, TilingMode::Columns, ratio, i);
            &&& i < count - 1 ==> c.2 == tdiv(area.w as int, count)
            &&& c.0 == area.x + i * tdiv(area.w as int, count)
            &&& tile_spec(area, count, TilingMode::Columns, gap, ratio)[i] == inset_spec(cell_geometry(c), gap)
        }),
        ({
            let cols = grid_cols(count as nat) as int;
            let rows = grid_rows(count, cols);
            let g = raw_cell(area, count, TilingMode::Grid, ratio, i);
            &&& cols * cols >= count && (cols - 1) * (cols - 1) < count
            &&& rows * cols >= count && (rows - 1) * cols < count
            &&& i % cols < cols - 1 ==> g.2 == tdiv(area.w as int, cols)
            &&& i / cols < rows - 1 ==> g.3 == tdiv(area.h as int, rows)
            &&& tile_spec(area, count, TilingMode::Grid, gap, ratio)[i] == inset_spec(cell_geometry(g), gap)
        }),
{
    let cw = tdiv(area.w as int, count);
    assert(cw * i == i * cw) by (nonlinear_arith);
    lemma_ceil_sqrt(count as nat, 0);
    let cols = grid_cols(count as nat) as int;
    let rows = grid_rows(count, cols);
    if cols >= 1 {
        let d = (cols - 1) as nat;
        assert(sq(d) < count);
        assert((cols - 1) * (cols - 1) < count);
    }
    assert(rows * cols >= count && (rows - 1) * cols < count) by (nonlinear_arith)
        requires rows == (count + cols - 1) / cols, cols >= 1, count >= 1;
}

} // verus!
