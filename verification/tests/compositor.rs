use archon::compositor::{CompositorCore, Effect};
use archon::config::{GamingConfig, Keybinds};
use archon::keybind::Mods;
use archon::layout::{SnapTarget, TilingMode};
use archon::window::{Geometry, WindowState};

fn fresh_core() -> CompositorCore {
    let mut c = CompositorCore::new(&Keybinds::default(), &GamingConfig::default());
    c.work_area = Geometry::new(0, 0, 1000, 1000);
    c
}

#[test]
fn adding_windows_focuses_latest() {
    let mut c = fresh_core();
    c.add_window("a", Geometry::new(0, 0, 100, 100));
    let b = c.add_window("b", Geometry::new(0, 0, 100, 100));
    assert_eq!(c.workspaces.focused(), Some(b));
}

#[test]
fn toggling_tiling_lays_windows_out() {
    let mut c = fresh_core();
    c.add_window("a", Geometry::new(0, 0, 100, 100));
    c.add_window("b", Geometry::new(0, 0, 100, 100));
    let super_t = Mods { logo: true, ..Mods::none() };
    c.handle_key(super_t, "t");
    assert!(c.tiling);
    // Both windows now tiled and occupying distinct, non-default rects.
    let rects: Vec<Geometry> = c.windows.iter().map(|w| w.geometry).collect();
    assert_ne!(rects[0], rects[1]);
    assert!(c.windows.iter().all(|w| w.state == WindowState::Tiled));
}

#[test]
fn snap_sets_half_geometry() {
    let mut c = fresh_core();
    c.add_window("a", Geometry::new(10, 10, 100, 100));
    c.snap_focused(SnapTarget::LeftHalf);
    let g = c.windows[0].geometry;
    assert_eq!(g, Geometry::new(0, 0, 500, 1000));
    assert!(c.windows[0].saved_floating.is_some());
}

#[test]
fn fullscreen_game_engages_game_mode() {
    let mut c = fresh_core();
    let id = c.add_window("steam_app_730", Geometry::new(0, 0, 100, 100));
    let effects = c.toggle_fullscreen();
    assert_eq!(c.window(id).unwrap().state, WindowState::Fullscreen);
    assert!(c.game_mode.active);
    assert!(effects.contains(&Effect::GameModeChanged(true)));
    // Toggling back off restores and disengages.
    let effects = c.toggle_fullscreen();
    assert!(!c.game_mode.active);
    assert!(effects.contains(&Effect::GameModeChanged(false)));
}

#[test]
fn super_return_spawns_terminal() {
    let mut c = fresh_core();
    let just_super = Mods { logo: true, ..Mods::none() };
    assert_eq!(c.handle_key(just_super, "return"), vec![Effect::Spawn("foot".into())]);
}

#[test]
fn workspace_switch_changes_active() {
    let mut c = fresh_core();
    let just_super = Mods { logo: true, ..Mods::none() };
    c.handle_key(just_super, "3");
    assert_eq!(c.workspaces.active_index(), 2);
}

#[test]
fn new_core_has_documented_defaults() {
    let c = CompositorCore::new(&Keybinds::default(), &GamingConfig::default());
    assert_eq!(c.workspaces.count(), 9);
    assert_eq!(c.work_area, Geometry::new(0, 0, 1920, 1080));
    assert_eq!(c.gap, 8);
    assert_eq!(c.master_ratio, 600);
    assert_eq!(c.tiling_mode, TilingMode::MasterStack);
    assert!(!c.tiling);
    assert!(c.auto_game_mode);
}

#[test]
fn fullscreen_round_trip_restores_geometry() {
    let mut c = fresh_core();
    let id = c.add_window("org.kde.konsole", Geometry::new(10, 20, 300, 200));
    let effects = c.toggle_fullscreen();
    assert!(effects.is_empty());
    assert_eq!(c.window(id).unwrap().geometry, Geometry::new(0, 0, 1000, 1000));
    c.toggle_fullscreen();
    let w = c.window(id).unwrap();
    assert_eq!(w.geometry, Geometry::new(10, 20, 300, 200));
    assert_eq!(w.state, WindowState::Floating);
    assert_eq!(w.saved_floating, None);
}

#[test]
fn game_mode_stays_off_without_auto() {
    let gaming = GamingConfig { auto_game_mode: false, ..GamingConfig::default() };
    let mut c = CompositorCore::new(&Keybinds::default(), &gaming);
    c.add_window("steam_app_1", Geometry::new(0, 0, 10, 10));
    assert!(c.toggle_fullscreen().is_empty());
    assert!(!c.game_mode.active);
}

#[test]
fn remove_window_retiles_the_rest() {
    let mut c = fresh_core();
    c.gap = 0;
    let a = c.add_window("a", Geometry::new(0, 0, 10, 10));
    let b = c.add_window("b", Geometry::new(0, 0, 10, 10));
    c.handle_key(Mods { logo: true, ..Mods::none() }, "t");
    assert_eq!(c.window(a).unwrap().geometry, Geometry::new(0, 0, 600, 1000));
    assert_eq!(c.window(b).unwrap().geometry, Geometry::new(600, 0, 400, 1000));
    c.remove_window(a);
    assert!(c.window(a).is_none());
    assert_eq!(c.window(b).unwrap().geometry, Geometry::new(0, 0, 1000, 1000));
    assert_eq!(c.workspaces.focused(), Some(b));
    // A window added while tiling joins the layout.
    let d = c.add_window("d", Geometry::new(0, 0, 10, 10));
    assert_eq!(c.window(d).unwrap().state, WindowState::Tiled);
    assert_eq!(c.window(d).unwrap().geometry, Geometry::new(600, 0, 400, 1000));
}

#[test]
fn untiling_floats_windows_where_they_are() {
    let mut c = fresh_core();
    c.add_window("a", Geometry::new(0, 0, 10, 10));
    let s = Mods { logo: true, ..Mods::none() };
    c.handle_key(s, "t");
    let tiled = c.windows[0].geometry;
    assert_eq!(c.handle_key(s, "t"), vec![Effect::Relayout]);
    assert!(!c.tiling);
    assert_eq!(c.windows[0].state, WindowState::Floating);
    assert_eq!(c.windows[0].geometry, tiled);
}

#[test]
fn simple_keys_map_to_effects() {
    let mut c = fresh_core();
    let s = Mods { logo: true, ..Mods::none() };
    assert_eq!(c.handle_key(s, "q"), vec![Effect::CloseFocused]);
    assert_eq!(c.handle_key(s, "d"), vec![Effect::ToggleDock]);
    assert_eq!(c.handle_key(s, "space"), vec![Effect::ToggleWheel]);
    assert_eq!(c.handle_key(s, "l"), vec![Effect::Lock]);
    assert_eq!(c.handle_key(s, "f12"), vec![Effect::ToggleFpsOverlay]);
    assert_eq!(c.handle_key(s, "z"), vec![]);
    assert_eq!(c.handle_key(s, "left"), vec![Effect::Relayout]);
    assert_eq!(c.workspaces.active_index(), 8);
    assert_eq!(c.handle_key(s, "right"), vec![Effect::Relayout]);
    assert_eq!(c.workspaces.active_index(), 0);
}

#[test]
fn window_mut_edits_in_place() {
    let mut c = fresh_core();
    let id = c.add_window("a", Geometry::new(0, 0, 10, 10));
    c.window_mut(id).unwrap().title = "shell".into();
    assert_eq!(c.window(id).unwrap().title, "shell");
    assert!(c.window_mut(archon::window::WindowId(99)).is_none());
    assert!(!c.focused_is_fullscreen_game());
}
