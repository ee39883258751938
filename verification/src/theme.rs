//! How the theme's accent relates to the wallpaper, and how surfaces blend
//! with it.
use vstd::prelude::*;

verus! {

/// How the accent relates to the wallpaper.
#[derive(Clone, Copy, Debug, PartialEq, Eq, Structural)]
pub enum AccentMode {
    /// Pull the accent straight from the wallpaper's most vivid color.
    Harmonize,
    /// Rotate to the complementary hue for a bold, contrasting accent (what
    /// "AI Enhance" uses).
    Contrast,
    /// Keep the signature orange regardless of wallpaper.
    Signature,
}

/// How a widget blends with the wallpaper behind it.
#[derive(Clone, Copy, Debug, Default, PartialEq, Eq, Structural)]
pub enum SurfaceMode {
    /// Solid, fully opaque panel.
    Opaque,
    /// Translucent frosted glass (background blur and a low-alpha fill).
    #[default]
    Glass,
    /// Tinted to match the wallpaper so the widget reads as part of it.
    WallpaperIntegrated,
}

} // verus!
