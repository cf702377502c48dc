use vstd::prelude::*;

use crate::constants::WAYLAND_NAMESPACE;
use crate::models::OverlayAnchor;
use crate::text::{chars_of, contains_chars, find_first, push_decimal, push_signed_decimal, decimal, signed_decimal};

verus! {

/// The overlay engine for Wayland compositors.
pub struct WaylandOverlayEngine {
    runtime_namespace: &'static str,
}

impl WaylandOverlayEngine {
    /// The namespace the engine registers its surface under.
    pub closed spec fn namespace(&self) -> Seq<char> {
        self.runtime_namespace@
    }

    /// An engine under the overlay's Wayland namespace.
    pub fn new() -> (r: Self)
        ensures
            r.namespace() == WAYLAND_NAMESPACE@,
    {
        WaylandOverlayEngine { runtime_namespace: WAYLAND_NAMESPACE }
    }

    /// The namespace the engine registers its surface under.
    pub fn runtime_namespace(&self) -> (r: &'static str)
        ensures
            r@ == self.namespace(),
    {
        self.runtime_namespace
    }
}

/// Whether the overlay window catches the pointer: only when input is
/// not passed through to what lies below it.
pub fn cursor_hittest(enable_passthrough: bool) -> (r: bool)
    ensures
        r == !enable_passthrough,
{
    !enable_passthrough
}

/// `a - b`, or zero when `b` is larger: `u32::saturating_sub`.
pub open spec fn sat_sub(a: u32, b: u32) -> u32 {
    if a >= b {
        (a - b) as u32
    } else {
        0
    }
}

/// Where the overlay's top left corner goes, relative to the monitor's,
/// for each anchor: the room left on the monitor by the overlay, none of
/// it, all of it, or half of it, along each axis. The room is a `u32`
/// taken as an `i32`, as the code casts it.
pub open spec fn anchor_offset(
    anchor: OverlayAnchor,
    monitor_w: u32,
    monitor_h: u32,
    target_w: u32,
    target_h: u32,
) -> (i32, i32) {
    let room_x = sat_sub(monitor_w, target_w);
    let room_y = sat_sub(monitor_h, target_h);
    match anchor {
        OverlayAnchor::TopLeft => (0, 0),
        OverlayAnchor::TopRight => (room_x as i32, 0),
        OverlayAnchor::BottomLeft => (0, room_y as i32),
        OverlayAnchor::BottomRight => (room_x as i32, room_y as i32),
        OverlayAnchor::Center => ((room_x / 2) as i32, (room_y / 2) as i32),
    }
}

/// Whether an integer fits in an `i32`.
pub open spec fn fits_i32(v: int) -> bool {
    i32::MIN <= v <= i32::MAX
}

/// Every sum the placement makes fits in an `i32`: the monitor's position
/// plus the anchor's offset, and plus the requested offsets when given.
pub open spec fn placement_fits(
    anchor: OverlayAnchor,
    monitor_x: i32,
    monitor_y: i32,
    monitor_w: u32,
    monitor_h: u32,
    target_w: u32,
    target_h: u32,
    custom_x: Option<i32>,
    custom_y: Option<i32>,
) -> bool {
    let off = anchor_offset(anchor, monitor_w, monitor_h, target_w, target_h);
    &&& fits_i32(monitor_x + off.0)
    &&& fits_i32(monitor_y + off.1)
    &&& (custom_x matches Some(cx) ==> fits_i32(monitor_x + cx))
    &&& (custom_y matches Some(cy) ==> fits_i32(monitor_y + cy))
}

/// Where the overlay's top left corner goes: the requested offsets from
/// the monitor's corner where given, the anchor's position otherwise.
pub open spec fn placement(
    anchor: OverlayAnchor,
    monitor_x: i32,
    monitor_y: i32,
    monitor_w: u32,
    monitor_h: u32,
    target_w: u32,
    target_h: u32,
    custom_x: Option<i32>,
    custom_y: Option<i32>,
) -> (int, int) {
    let off = anchor_offset(anchor, monitor_w, monitor_h, target_w, target_h);
    (
        match custom_x {
            Some(cx) => monitor_x + cx,
            None => monitor_x + off.0,
        },
        match custom_y {
            Some(cy) => monitor_y + cy,
            None => monitor_y + off.1,
        },
    )
}

/// Where an overlay of `target_w` by `target_h` pixels goes on a monitor
/// at (`monitor_x`, `monitor_y`) of `monitor_w` by `monitor_h` pixels.
pub fn anchor_position(
    anchor: OverlayAnchor,
    monitor_x: i32,
    monitor_y: i32,
    monitor_w: u32,
    monitor_h: u32,
    target_w: u32,
    target_h: u32,
    custom_x: Option<i32>,
    custom_y: Option<i32>,
) -> (r: (i32, i32))
    requires
        placement_fits(
            anchor,
            monitor_x,
            monitor_y,
            monitor_w,
            monitor_h,
            target_w,
            target_h,
            custom_x,
            custom_y,
        ),
    ensures
        (r.0 as int, r.1 as int) == placement(
            anchor,
            monitor_x,
            monitor_y,
            monitor_w,
            monitor_h,
            target_w,
            target_h,
            custom_x,
            custom_y,
        ),
{
    let room_x = monitor_w.saturating_sub(target_w);
    let room_y = monitor_h.saturating_sub(target_h);
    let (mut target_x, mut target_y) = match anchor {
        OverlayAnchor::TopLeft => (monitor_x, monitor_y),
        OverlayAnchor::TopRight => (monitor_x + room_x as i32, monitor_y),
        OverlayAnchor::BottomLeft => (monitor_x, monitor_y + room_y as i32),
        OverlayAnchor::BottomRight => (monitor_x + room_x as i32, monitor_y + room_y as i32),
        OverlayAnchor::Center => (monitor_x + (room_x / 2) as i32, monitor_y + (room_y / 2) as i32),
    };
    if let Some(cx) = custom_x {
        target_x = monitor_x + cx;
    }
    if let Some(cy) = custom_y {
        target_y = monitor_y + cy;
    }
    (target_x, target_y)
}

/// Where the overlay's top left corner goes, or `None` where one of the
/// sums overflows an `i32`.
pub fn try_anchor_position(
    anchor: OverlayAnchor,
    monitor_x: i32,
    monitor_y: i32,
    monitor_w: u32,
    monitor_h: u32,
    target_w: u32,
    target_h: u32,
    custom_x: Option<i32>,
    custom_y: Option<i32>,
) -> (r: Option<(i32, i32)>)
    ensures
        r is Some <==> placement_fits(
            anchor,
            monitor_x,
            monitor_y,
            monitor_w,
            monitor_h,
            target_w,
            target_h,
            custom_x,
            custom_y,
        ),
        r matches Some(p) ==> (p.0 as int, p.1 as int) == placement(
            anchor,
            monitor_x,
            monitor_y,
            monitor_w,
            monitor_h,
            target_w,
            target_h,
            custom_x,
            custom_y,
        ),
{
    let room_x = monitor_w.saturating_sub(target_w);
    let room_y = monitor_h.saturating_sub(target_h);
    let (off_x, off_y): (i32, i32) = match anchor {
        OverlayAnchor::TopLeft => (0, 0),
        OverlayAnchor::TopRight => (room_x as i32, 0),
        OverlayAnchor::BottomLeft => (0, room_y as i32),
        OverlayAnchor::BottomRight => (room_x as i32, room_y as i32),
        OverlayAnchor::Center => ((room_x / 2) as i32, (room_y / 2) as i32),
    };
    if monitor_x.checked_add(off_x).is_none() || monitor_y.checked_add(off_y).is_none() {
        return None;
    }
    if let Some(cx) = custom_x {
        if monitor_x.checked_add(cx).is_none() {
            return None;
        }
    }
    if let Some(cy) = custom_y {
        if monitor_y.checked_add(cy).is_none() {
            return None;
        }
    }
    Some(
        anchor_position(
            anchor,
            monitor_x,
            monitor_y,
            monitor_w,
            monitor_h,
            target_w,
            target_h,
            custom_x,
            custom_y,
        ),
    )
}

/// The suffix of the `hyprctl` arguments that picks the overlay window.
pub open spec fn window_selector() -> Seq<char> {
    ",title:MemeBlink Overlay"@
}

/// The `hyprctl dispatch` argument that sets the overlay to exactly `a`
/// by `b`.
pub open spec fn exact_args(a: Seq<char>, b: Seq<char>) -> Seq<char> {
    "exact "@ + a + " "@ + b + window_selector()
}

/// The `resizewindowpixel` argument for a size of `width` by `height`.
pub fn hyprctl_resize_args(width: u32, height: u32) -> (s: String)
    ensures
        s@ == exact_args(decimal(width as nat), decimal(height as nat)),
{
    let mut s = String::from_str("exact ");
    push_decimal(&mut s, width as u64);
    s.append(" ");
    push_decimal(&mut s, height as u64);
    s.append(",title:MemeBlink Overlay");
    s
}

/// The `movewindowpixel` argument for a position of (`x`, `y`).
pub fn hyprctl_move_args(x: i32, y: i32) -> (s: String)
    ensures
        s@ == exact_args(signed_decimal(x as int), signed_decimal(y as int)),
{
    let mut s = String::from_str("exact ");
    push_signed_decimal(&mut s, x);
    s.append(" ");
    push_signed_decimal(&mut s, y);
    s.append(",title:MemeBlink Overlay");
    s
}

/// What `hyprctl` says when the window is not there (yet).
pub open spec fn no_window() -> Seq<char> {
    "no window"@
}

/// Whether `hyprctl` took the resize: neither of its outputs says that
/// there is no window.
pub fn resize_accepted(stdout: &str, stderr: &str) -> (r: bool)
    ensures
        r == (find_first(stderr@, no_window()) is None && find_first(stdout@, no_window()) is None),
{
    let pattern = chars_of("no window");
    !contains_chars(&chars_of(stderr), &pattern) && !contains_chars(&chars_of(stdout), &pattern)
}

/// How many times the overlay asks `hyprctl` to resize the window before
/// giving up.
pub const RESIZE_ATTEMPTS: u32 = 3;

/// What follows one attempt to resize the window through `hyprctl`.
#[derive(Clone, Copy, Debug, PartialEq, Eq, Structural)]
pub enum ResizeAction {
    /// The resize was taken: move the window into place, and stop.
    MoveAndStop,
    /// The resize was not taken: wait 50 ms and try again.
    WaitAndRetry,
    /// The resize was not taken and that was the last attempt: wait 50 ms
    /// and give up, leaving the window where it is.
    WaitAndGiveUp,
}

/// What to do after the resize attempt numbered `attempt`, counted from
/// zero, whose result was `accepted`: at the first resize taken, move once
/// and stop; after [`RESIZE_ATTEMPTS`] attempts not taken, give up.
pub fn resize_step(attempt: u32, accepted: bool) -> (r: ResizeAction)
    ensures
        accepted ==> r == ResizeAction::MoveAndStop,
        !accepted && attempt + 1 < RESIZE_ATTEMPTS ==> r == ResizeAction::WaitAndRetry,
        !accepted && attempt + 1 >= RESIZE_ATTEMPTS ==> r == ResizeAction::WaitAndGiveUp,
{
    if accepted {
        ResizeAction::MoveAndStop
    } else if attempt < RESIZE_ATTEMPTS - 1 {
        ResizeAction::WaitAndRetry
    } else {
        ResizeAction::WaitAndGiveUp
    }
}

/// The attempts that `resize_step` drives, given whether each resize was
/// taken: how many resizes are asked for, and whether the window is moved.
pub open spec fn resize_run(taken: Seq<bool>, attempt: nat) -> (nat, bool)
    decreases RESIZE_ATTEMPTS - attempt,
{
    if attempt >= RESIZE_ATTEMPTS {
        (attempt, false)
    } else if attempt < taken.len() && taken[attempt as int] {
        (attempt + 1, true)
    } else if attempt + 1 < RESIZE_ATTEMPTS {
        resize_run(taken, attempt + 1)
    } else {
        (attempt + 1, false)
    }
}

/// Driving `resize_step` from the first attempt asks for at most
/// [`RESIZE_ATTEMPTS`] resizes, and moves the window exactly when one of
/// them is taken, right after the first one taken.
pub proof fn lemma_resize_run(taken: Seq<bool>)
    requires
        taken.len() >= RESIZE_ATTEMPTS,
    ensures
        resize_run(taken, 0).0 <= RESIZE_ATTEMPTS,
        resize_run(taken, 0).1 <==> (taken[0] || taken[1] || taken[2]),
        taken[0] ==> resize_run(taken, 0) == (1nat, true),
        !taken[0] && taken[1] ==> resize_run(taken, 0) == (2nat, true),
        !taken[0] && !taken[1] ==> resize_run(taken, 0) == (3nat, taken[2]),
{
    reveal_with_fuel(resize_run, 4);
}

/// The window rules that make Hyprland float the overlay, pin it, keep
/// focus away from it and draw it bare.
pub fn hyprland_window_rules() -> (rules: Vec<&'static str>)
    ensures
        rules@.len() == 7,
        rules@[0]@
            == "windowrule = match:class ^(memeblink)$, match:title ^(MemeBlink Overlay)$, float on"@,
        rules@[1]@
            == "windowrule = match:class ^(memeblink)$, match:title ^(MemeBlink Overlay)$, pin on"@,
        rules@[2]@
            == "windowrule = match:class ^(memeblink)$, match:title ^(MemeBlink Overlay)$, no_focus on"@,
        rules@[3]@
            == "windowrule = match:class ^(memeblink)$, match:title ^(MemeBlink Overlay)$, no_shadow on"@,
        rules@[4]@
            == "windowrule = match:class ^(memeblink)$, match:title ^(MemeBlink Overlay)$, no_anim on"@,
        rules@[5]@
            == "windowrule = match:class ^(memeblink)$, match:title ^(MemeBlink Overlay)$, no_blur on"@,
        rules@[6]@
            == "windowrule = match:class ^(memeblink)$, match:title ^(MemeBlink Overlay)$, border_size 0"@,
{
    let mut rules: Vec<&'static str> = Vec::new();
    rules.push("windowrule = match:class ^(memeblink)$, match:title ^(MemeBlink Overlay)$, float on");
    rules.push("windowrule = match:class ^(memeblink)$, match:title ^(MemeBlink Overlay)$, pin on");
    rules.push(
        "windowrule = match:class ^(memeblink)$, match:title ^(MemeBlink Overlay)$, no_focus on",
    );
    rules.push(
        "windowrule = match:class ^(memeblink)$, match:title ^(MemeBlink Overlay)$, no_shadow on",
    );
    rules.push("windowrule = match:class ^(memeblink)$, match:title ^(MemeBlink Overlay)$, no_anim on");
    rules.push("windowrule = match:class ^(memeblink)$, match:title ^(MemeBlink Overlay)$, no_blur on");
    rules.push(
        "windowrule = match:class ^(memeblink)$, match:title ^(MemeBlink Overlay)$, border_size 0",
    );
    rules
}

} // verus!
