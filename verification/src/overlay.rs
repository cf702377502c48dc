use vstd::prelude::*;

use crate::events::RuntimeEvent;
use crate::models::OverlayAnchor;
use crate::texture::{MediaAsset, TextureFrame};
use crate::time::{elapsed_since, instant_now, Duration};

verus! {

/// Where the overlay window is to be put, and at what size.
#[derive(Debug, Clone, Copy, PartialEq, Eq, Structural)]
pub struct AnchorRequest {
    pub anchor: OverlayAnchor,
    pub width: u32,
    pub height: u32,
    pub custom_x: Option<i32>,
    pub custom_y: Option<i32>,
}

/// What the event loop does when it is about to wait.
#[derive(Debug, Clone, Copy, PartialEq, Eq, Structural)]
pub enum TickAction {
    /// The meme has expired: shrink the window to one pixel at the top
    /// left corner and redraw it empty.
    Hide,
    /// A meme is on screen: keep the window where the request says, and
    /// redraw it.
    Follow(AnchorRequest),
    /// Nothing is on screen.
    Idle,
}

/// The meme on screen, if any: what it shows, where, and until when.
pub struct OverlayState {
    pub active_asset: Option<MediaAsset>,
    pub active_anchor: Option<OverlayAnchor>,
    pub custom_x: Option<i32>,
    pub custom_y: Option<i32>,
    /// When the meme was put on screen and for how long it stays.
    pub expiry: Option<(std::time::Instant, Duration)>,
}

/// The request that keeps an overlay of the size of `frame` at `anchor`.
pub open spec fn request_for(
    anchor: OverlayAnchor,
    frame: TextureFrame,
    custom_x: Option<i32>,
    custom_y: Option<i32>,
) -> AnchorRequest {
    AnchorRequest { anchor, width: frame.width, height: frame.height, custom_x, custom_y }
}

impl OverlayState {
    /// A meme on screen has a well-formed asset and an anchor and an
    /// expiry; with no meme there is none of these.
    pub open spec fn wf(&self) -> bool {
        &&& (self.active_asset matches Some(a) ==> a.wf() && a.in_range())
        &&& (self.active_asset is Some <==> self.active_anchor is Some)
        &&& (self.active_asset is Some <==> self.expiry is Some)
    }

    /// Nothing is on screen.
    pub open spec fn is_idle(&self) -> bool {
        &&& self.active_asset is None
        &&& self.active_anchor is None
        &&& self.custom_x is None
        &&& self.custom_y is None
        &&& self.expiry is None
    }

    /// The state after a tick `elapsed_nanos` nanoseconds after the meme
    /// was put on screen, and what the tick does: a meme whose time is up
    /// is taken off the screen; one still on screen is followed with the
    /// size of one of its frames; with nothing on screen nothing happens.
    pub open spec fn ticked(&self, elapsed_nanos: int, next: &OverlayState, act: TickAction) -> bool {
        match self.expiry {
            Some((_, life)) if elapsed_nanos >= life.total_nanos() => next.is_idle() && act
                == TickAction::Hide,
            _ => {
                &&& *next == *self
                &&& match (self.active_asset, self.active_anchor) {
                    (Some(a), Some(anchor)) => exists|e: int|
                        e >= 0 && act == TickAction::Follow(
                            #[trigger] request_for(anchor, a.frame_at(e), self.custom_x, self.custom_y),
                        ),
                    _ => act == TickAction::Idle,
                }
            },
        }
    }

    /// Nothing on screen.
    pub fn new() -> (r: Self)
        ensures
            r.is_idle(),
            r.wf(),
    {
        OverlayState {
            active_asset: None,
            active_anchor: None,
            custom_x: None,
            custom_y: None,
            expiry: None,
        }
    }

    /// Puts the meme of `event` on screen from now on, in place of any
    /// other, its animation started over. Returns where the window goes
    /// and at what size: that of the meme's current frame.
    pub fn inject(&mut self, event: RuntimeEvent) -> (req: AnchorRequest)
        requires
            old(self).wf(),
            event matches RuntimeEvent::InjectMeme { asset, .. } && asset.wf() && asset.in_range(),
        ensures
            final(self).wf(),
            event matches RuntimeEvent::InjectMeme { anchor, asset, duration, custom_x, custom_y } ==> {
                &&& final(self).active_anchor == Some(anchor)
                &&& final(self).custom_x == custom_x
                &&& final(self).custom_y == custom_y
                &&& final(self).active_asset matches Some(a) && a.same_media(&asset)
                &&& final(self).expiry matches Some((_, life)) && life == duration
                &&& exists|e: int| e >= 0 && req == #[trigger] request_for(anchor, asset.frame_at(e), custom_x, custom_y)
            },
    {
        match event {
            RuntimeEvent::InjectMeme { anchor, asset, duration, custom_x, custom_y } => {
                let ghost original = asset;
                let mut asset = asset;
                asset.reset();
                assert(asset.in_range()) by {
                    assert forall|e: int| e >= 0 implies #[trigger] asset.in_range_at(e) by {
                        assert(original.in_range_at(e));
                    }
                }
                let frame = asset.current_frame();
                let req = AnchorRequest {
                    anchor,
                    width: frame.width,
                    height: frame.height,
                    custom_x,
                    custom_y,
                };
                proof {
                    let e = choose|e: int| e >= 0 && #[trigger] asset.frame_at(e) == *frame;
                    assert(asset.frame_at(e) == original.frame_at(e));
                    assert(req == request_for(anchor, original.frame_at(e), custom_x, custom_y));
                }
                self.active_asset = Some(asset);
                self.active_anchor = Some(anchor);
                self.custom_x = custom_x;
                self.custom_y = custom_y;
                self.expiry = Some((instant_now(), duration));
                req
            },
        }
    }

    /// Starts the time of the meme on screen over from now, once the window
    /// has been put in place: everything else is kept, and so is how long
    /// the meme stays.
    pub fn start_expiry(&mut self)
        requires
            old(self).wf(),
        ensures
            final(self).wf(),
            final(self).active_asset == old(self).active_asset,
            final(self).active_anchor == old(self).active_anchor,
            final(self).custom_x == old(self).custom_x,
            final(self).custom_y == old(self).custom_y,
            old(self).expiry is None ==> final(self).expiry is None,
            old(self).expiry matches Some((_, life)) ==> final(self).expiry matches Some((_, l))
                && l == life,
    {
        if let Some((_, life)) = self.expiry {
            self.expiry = Some((instant_now(), life));
        }
    }

    /// A tick of the event loop `elapsed` after the meme was put on screen.
    pub fn tick_after(&mut self, elapsed: Duration) -> (act: TickAction)
        requires
            old(self).wf(),
        ensures
            final(self).wf(),
            old(self).ticked(elapsed.total_nanos() as int, final(self), act),
    {
        if let Some((_, life)) = &self.expiry {
            if elapsed.as_nanos() >= life.as_nanos() {
                self.active_asset = None;
                self.active_anchor = None;
                self.custom_x = None;
                self.custom_y = None;
                self.expiry = None;
                return TickAction::Hide;
            }
        }
        match &self.active_asset {
            Some(asset) => match self.active_anchor {
                Some(anchor) => {
                    let frame = asset.current_frame();
                    let req = AnchorRequest {
                        anchor,
                        width: frame.width,
                        height: frame.height,
                        custom_x: self.custom_x,
                        custom_y: self.custom_y,
                    };
                    proof {
                        let e = choose|e: int| e >= 0 && #[trigger] asset.frame_at(e) == *frame;
                        assert(req == request_for(anchor, asset.frame_at(e), self.custom_x, self.custom_y));
                    }
                    TickAction::Follow(req)
                },
                None => TickAction::Idle,
            },
            None => TickAction::Idle,
        }
    }

    /// A tick of the event loop now.
    pub fn tick(&mut self) -> (act: TickAction)
        requires
            old(self).wf(),
        ensures
            final(self).wf(),
            exists|n: int| n >= 0 && #[trigger] old(self).ticked(n, final(self), act),
    {
        let elapsed = match &self.expiry {
            Some((start, _)) => elapsed_since(start),
            None => Duration::from_millis(0),
        };
        self.tick_after(elapsed)
    }
}


/// A meme stays on screen, followed at its anchor and offsets, until its
/// duration has passed since it was put there; from then on it is taken
/// off the screen, and the ticks after that do nothing.
pub proof fn lemma_shown_until_expiry(
    s: OverlayState,
    elapsed_nanos: int,
    next: OverlayState,
    act: TickAction,
    later_nanos: int,
    after: OverlayState,
    later_act: TickAction,
)
    requires
        s.wf(),
        s.active_asset is Some,
        s.ticked(elapsed_nanos, &next, act),
        next.ticked(later_nanos, &after, later_act),
    ensures
        s.expiry matches Some((_, life)) && (elapsed_nanos < life.total_nanos() ==> {
            &&& next == s
            &&& act matches TickAction::Follow(req) && s.active_anchor == Some(req.anchor)
                && req.custom_x == s.custom_x && req.custom_y == s.custom_y
        }),
        s.expiry matches Some((_, life)) && (elapsed_nanos >= life.total_nanos() ==> {
            &&& next.is_idle()
            &&& act == TickAction::Hide
            &&& after.is_idle()
            &&& later_act == TickAction::Idle
        }),
{
}

} // verus!
