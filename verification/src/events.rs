use vstd::prelude::*;

use crate::models::OverlayAnchor;
use crate::texture::MediaAsset;
use crate::time::Duration;

verus! {

/// What the IPC listener hands to the overlay's event loop.
#[derive(Debug)]
pub enum RuntimeEvent {
    /// Show `asset` at `anchor`, or at the given offsets from the corner of
    /// the screen, for `duration`.
    InjectMeme {
        anchor: OverlayAnchor,
        asset: MediaAsset,
        duration: Duration,
        custom_x: Option<i32>,
        custom_y: Option<i32>,
    },
}

} // verus!
