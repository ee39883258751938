use archon::config::{DockConfig, Edge, GamingConfig, ThemeConfig};

#[test]
fn config_defaults_are_documented_values() {
    let d = DockConfig::default();
    assert_eq!(d, DockConfig { edge: Edge::Left, reveal_zone: 6, auto_hide: true, thickness: 64 });
    assert_eq!(Edge::default(), Edge::Left);
    let t = ThemeConfig::default();
    assert_eq!(t.accent_mode, "harmonize");
    assert_eq!(t.accent_override, "");
    let g = GamingConfig::default();
    assert!(g.auto_game_mode && g.allow_tearing && !g.fps_overlay);
}
