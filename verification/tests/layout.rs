use archon::layout::{snap_from_pointer, tile, SnapTarget, TilingMode};
use archon::window::Geometry;

const AREA: Geometry = Geometry { x: 0, y: 0, w: 1920, h: 1080 };

#[test]
fn halves_partition_the_area_exactly() {
    let l = SnapTarget::LeftHalf.resolve(AREA);
    let r = SnapTarget::RightHalf.resolve(AREA);
    assert_eq!(l.w + r.w, AREA.w);
    assert_eq!(l.x, 0);
    assert_eq!(r.x, l.w);
}

#[test]
fn maximize_is_the_whole_area() {
    assert_eq!(SnapTarget::Maximize.resolve(AREA), AREA);
}

#[test]
fn pointer_corners_take_priority() {
    assert_eq!(snap_from_pointer(AREA, 2, 2, 10), Some(SnapTarget::TopLeft));
    assert_eq!(snap_from_pointer(AREA, 1918, 1078, 10), Some(SnapTarget::BottomRight));
    assert_eq!(snap_from_pointer(AREA, 5, 540, 10), Some(SnapTarget::LeftHalf));
    assert_eq!(snap_from_pointer(AREA, 960, 540, 10), None);
}

#[test]
fn master_stack_covers_width_and_counts() {
    let g = tile(AREA, 3, TilingMode::MasterStack, 0, 600);
    assert_eq!(g.len(), 3);
    // Master width + stack width spans the full area.
    let master_right = g[0].x + g[0].w;
    assert_eq!(master_right + g[1].w, AREA.w);
    // The two stack windows partition the height exactly.
    assert_eq!(g[1].h + g[2].h, AREA.h);
}

#[test]
fn columns_partition_width() {
    let g = tile(AREA, 4, TilingMode::Columns, 0, 500);
    let total: i32 = g.iter().map(|c| c.w).sum();
    assert_eq!(total, AREA.w);
}

#[test]
fn grid_places_all_windows() {
    let g = tile(AREA, 5, TilingMode::Grid, 4, 500);
    assert_eq!(g.len(), 5);
    // Every tile is within the area.
    for c in &g {
        assert!(c.x >= AREA.x && c.y >= AREA.y);
        assert!(c.x + c.w <= AREA.x + AREA.w + 1);
    }
}

#[test]
fn single_window_fills_area_minus_gap() {
    let g = tile(AREA, 1, TilingMode::MasterStack, 12, 500);
    assert_eq!(g[0], AREA.inset(12));
}

#[test]
fn master_width_rounds_the_ratio() {
    // 1920 * 0.6 = 1152 exactly; the stack takes the remaining 768.
    let g = tile(AREA, 2, TilingMode::MasterStack, 0, 600);
    assert_eq!(g[0], Geometry::new(0, 0, 1152, 1080));
    assert_eq!(g[1], Geometry::new(1152, 0, 768, 1080));
    // Ratios are clamped to 10%..90%.
    let g = tile(AREA, 2, TilingMode::MasterStack, 0, 990);
    assert_eq!(g[0].w, 1728);
    let g = tile(AREA, 2, TilingMode::MasterStack, 0, 0);
    assert_eq!(g[0].w, 192);
}

#[test]
fn grid_uses_ceiling_square_root_columns() {
    // 5 windows: 3 columns, 2 rows; the last column absorbs the remainder.
    let g = tile(AREA, 5, TilingMode::Grid, 0, 500);
    assert_eq!(g[0], Geometry::new(0, 0, 640, 540));
    assert_eq!(g[2], Geometry::new(1280, 0, 640, 540));
    assert_eq!(g[3], Geometry::new(0, 540, 640, 540));
    // 4 windows make an exact 2x2 grid.
    let g = tile(AREA, 4, TilingMode::Grid, 0, 500);
    assert_eq!(g[3], Geometry::new(960, 540, 960, 540));
}

#[test]
fn empty_layout_is_empty() {
    assert!(tile(AREA, 0, TilingMode::Columns, 8, 500).is_empty());
}

#[test]
fn quarters_and_halves_resolve() {
    let odd = Geometry::new(10, 20, 101, 51);
    assert_eq!(SnapTarget::TopLeft.resolve(odd), Geometry::new(10, 20, 50, 25));
    assert_eq!(SnapTarget::BottomRight.resolve(odd), Geometry::new(60, 45, 51, 26));
    assert_eq!(SnapTarget::BottomHalf.resolve(odd), Geometry::new(10, 45, 101, 26));
    assert_eq!(snap_from_pointer(AREA, 960, 3, 10), Some(SnapTarget::Maximize));
    assert_eq!(snap_from_pointer(AREA, 1915, 540, 10), Some(SnapTarget::RightHalf));
}
