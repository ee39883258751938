use archon::theme::{AccentMode, SurfaceMode};
use archon::ui::{Easing, RenderError};

#[test]
fn render_errors_describe_themselves() {
    assert_eq!(RenderError::Surface("lost".into()).message(), "failed to create surface: lost");
    assert_eq!(RenderError::Adapter("none".into()).message(), "no suitable GPU adapter: none");
    assert_eq!(RenderError::Device("oom".into()).message(), "failed to create device: oom");
}

#[test]
fn enum_defaults_match_the_design() {
    assert_eq!(Easing::default(), Easing::EaseInOutCubic);
    assert_eq!(SurfaceMode::default(), SurfaceMode::Glass);
    assert_ne!(AccentMode::Harmonize, AccentMode::Contrast);
}
