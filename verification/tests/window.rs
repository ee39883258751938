use archon::window::{Geometry, Window, WindowId, WindowState};

#[test]
fn inset_shrinks_symmetrically() {
    let g = Geometry::new(0, 0, 100, 100).inset(10);
    assert_eq!(g, Geometry::new(10, 10, 80, 80));
}

#[test]
fn inset_never_collapses_below_one() {
    let g = Geometry::new(0, 0, 4, 4).inset(10);
    assert!(g.w >= 1 && g.h >= 1);
}

#[test]
fn game_detection_matches_steam_pattern() {
    assert!(Window::new(WindowId(1), Geometry::new(0, 0, 1, 1), "steam_app_730").is_game());
    assert!(!Window::new(WindowId(2), Geometry::new(0, 0, 1, 1), "org.kde.konsole").is_game());
}

#[test]
fn contains_is_half_open() {
    let g = Geometry::new(0, 0, 10, 10);
    assert!(g.contains(0, 0));
    assert!(!g.contains(10, 10));
}

#[test]
fn game_detection_is_case_insensitive_and_knows_launchers() {
    let w = |a: &str| Window::new(WindowId(1), Geometry::new(0, 0, 1, 1), a).is_game();
    assert!(w("Steam_App_570"));
    assert!(w("com.riotgames.RiotClient"));
    assert!(w("VALORANT-Win64-Shipping"));
    assert!(w("gamescope"));
    assert!(!w("gamescope-session"));
    assert!(!w("steam"));
}

#[test]
fn save_floating_keeps_the_first_saved_geometry() {
    let mut w = Window::new(WindowId(1), Geometry::new(1, 2, 3, 4), "a");
    w.save_floating();
    assert_eq!(w.saved_floating, Some(Geometry::new(1, 2, 3, 4)));
    w.geometry = Geometry::new(9, 9, 9, 9);
    w.save_floating();
    assert_eq!(w.saved_floating, Some(Geometry::new(1, 2, 3, 4)));
    let mut t = Window::new(WindowId(2), Geometry::new(1, 2, 3, 4), "b");
    t.state = WindowState::Tiled;
    t.save_floating();
    assert_eq!(t.saved_floating, None);
}

#[test]
fn center_rounds_toward_zero() {
    assert_eq!(Geometry::new(0, 0, 5, 7).center(), (2, 3));
    assert_eq!(Geometry::new(10, 10, -5, -7).center(), (8, 7));
}
