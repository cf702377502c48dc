use vstd::prelude::*;

verus! {

/// The corner of the screen, or its centre, that the overlay sits in.
#[derive(Debug, Clone, Copy, PartialEq, Eq, Structural)]
pub enum OverlayAnchor {
    TopLeft,
    TopRight,
    BottomLeft,
    BottomRight,
    Center,
}

/// A requested width or height: a number of pixels, or a keyword such as
/// `auto`.
#[derive(Debug, Clone, PartialEq, Eq)]
pub enum SizeConfig {
    Fixed(u32),
    Auto(String),
}

/// A request from the dashboard to show a meme on the overlay.
#[derive(Debug, Clone)]
pub struct OverlayEvent {
    pub image_path: String,
    pub text: Option<String>,
    pub duration_ms: u32,
    pub anchor: OverlayAnchor,
    pub width: Option<SizeConfig>,
    pub height: Option<SizeConfig>,
    pub x: Option<i32>,
    pub y: Option<i32>,
}

} // verus!
