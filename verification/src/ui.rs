//! Shared UI vocabulary: easing curves and renderer failures.
use vstd::prelude::*;
use crate::text::{chars_of, string_of};

verus! {

/// Standard easing curves. Each maps a normalized time in `0..=1` to an
/// eased progress, also in `0..=1`, starting at 0 and ending at 1.
#[derive(Clone, Copy, Debug, PartialEq, Eq, Structural, Default)]
pub enum Easing {
    Linear,
    EaseInQuad,
    EaseOutQuad,
    #[default]
    EaseInOutCubic,
    EaseOutExpo,
    /// Slight overshoot then settle, for playful pop-in.
    EaseOutBack,
}

/// Why the GPU renderer could not start.
#[derive(Clone, Debug, PartialEq)]
pub enum RenderError {
    /// The window surface could not be created.
    Surface(String),
    /// No suitable GPU adapter was found.
    Adapter(String),
    /// The device could not be created.
    Device(String),
}

fn prefixed(prefix: &str, reason: &String) -> (s: String)
    ensures
        s@ == prefix@ + reason@,
{
    let mut v = chars_of(prefix);
    let mut r = chars_of(reason.as_str());
    v.append(&mut r);
    string_of(&v)
}

impl RenderError {
    /// The human-readable description of the failure.
    pub fn message(&self) -> (s: String)
        ensures
            s@ == match self {
                RenderError::Surface(r) => "failed to create surface: "@ + r@,
                RenderError::Adapter(r) => "no suitable GPU adapter: "@ + r@,
                RenderError::Device(r) => "failed to create device: "@ + r@,
            },
    {
        match self {
            RenderError::Surface(r) => prefixed("failed to create surface: ", r),
            RenderError::Adapter(r) => prefixed("no suitable GPU adapter: ", r),
            RenderError::Device(r) => prefixed("failed to create device: ", r),
        }
    }
}

} // verus!
