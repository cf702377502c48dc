use memeblink::events::RuntimeEvent;
use memeblink::ipc::{accepts_request_len, frame_request, is_remote_source, runtime_event_for};
use memeblink::models::{OverlayAnchor, OverlayEvent};
use memeblink::overlay::{OverlayState, TickAction};
use memeblink::placement::{
    anchor_position, cursor_hittest, hyprctl_move_args, hyprctl_resize_args, hyprland_window_rules,
    resize_accepted, resize_step, ResizeAction, WaylandOverlayEngine, RESIZE_ATTEMPTS,
};
use memeblink::render::{choose_alpha_mode, initial_surface_size, needs_new_texture, surface_resize, AlphaMode, MockCanvas, OverlayCanvas};
use memeblink::texture::{MediaAsset, TextureFrame};
use memeblink::time::Duration;

fn still(w: u32, h: u32) -> MediaAsset {
    MediaAsset::new_static(TextureFrame { width: w, height: h, pixels: vec![0; (w * h) as usize] })
}

fn event(duration_ms: u32) -> OverlayEvent {
    OverlayEvent {
        image_path: "meme.png".to_string(),
        text: None,
        duration_ms,
        anchor: OverlayAnchor::BottomRight,
        width: None,
        height: None,
        x: Some(5),
        y: None,
    }
}

#[test]
fn anchors_place_the_overlay() {
    let p = |a| anchor_position(a, 100, 50, 1920, 1080, 200, 80, None, None);
    assert_eq!(p(OverlayAnchor::TopLeft), (100, 50));
    assert_eq!(p(OverlayAnchor::TopRight), (100 + 1720, 50));
    assert_eq!(p(OverlayAnchor::BottomLeft), (100, 50 + 1000));
    assert_eq!(p(OverlayAnchor::BottomRight), (1820, 1050));
    assert_eq!(p(OverlayAnchor::Center), (100 + 860, 50 + 500));
}

#[test]
fn oversized_overlay_sticks_to_the_corner() {
    assert_eq!(anchor_position(OverlayAnchor::BottomRight, 0, 0, 100, 100, 300, 300, None, None), (0, 0));
}

#[test]
fn custom_offsets_override_anchor() {
    assert_eq!(
        anchor_position(OverlayAnchor::Center, -1920, 0, 1920, 1080, 10, 10, Some(7), Some(-3)),
        (-1913, -3)
    );
    assert_eq!(anchor_position(OverlayAnchor::TopRight, 0, 0, 100, 100, 10, 10, None, Some(4)), (90, 4));
}

#[test]
fn hyprctl_arguments() {
    assert_eq!(hyprctl_resize_args(640, 0), "exact 640 0,title:MemeBlink Overlay");
    assert_eq!(hyprctl_move_args(-12, 2147483647), "exact -12 2147483647,title:MemeBlink Overlay");
    assert_eq!(hyprctl_move_args(i32::MIN, 0), "exact -2147483648 0,title:MemeBlink Overlay");
}

#[test]
fn resize_needs_a_window() {
    assert!(resize_accepted("ok", ""));
    assert!(!resize_accepted("", "error: no window found"));
    assert!(!resize_accepted("no window", ""));
    assert!(resize_accepted("no-window", "window"));
}

#[test]
fn window_rules_and_engine() {
    let rules = hyprland_window_rules();
    assert_eq!(rules.len(), 7);
    assert!(rules[0].ends_with("float on"));
    assert!(rules[6].ends_with("border_size 0"));
    assert_eq!(WaylandOverlayEngine::new().runtime_namespace(), memeblink::constants::WAYLAND_NAMESPACE);
    assert!(!cursor_hittest(true));
    assert!(cursor_hittest(false));
}

#[test]
fn ipc_framing() {
    assert_eq!(frame_request("{\"a\":1}"), "{\"a\":1}\n");
    assert!(!accepts_request_len(0));
    assert!(accepts_request_len(1));
    assert!(accepts_request_len(memeblink::constants::MAX_IPC_PAYLOAD_BYTES));
    assert!(!accepts_request_len(memeblink::constants::MAX_IPC_PAYLOAD_BYTES + 1));
    assert!(is_remote_source("https://x/y.gif"));
    assert!(is_remote_source("http://x"));
    assert!(!is_remote_source("/home/me/http://x"));
    assert!(!is_remote_source("ftp://x"));
}

#[test]
fn request_becomes_runtime_event() {
    let RuntimeEvent::InjectMeme { anchor, duration, custom_x, custom_y, .. } =
        runtime_event_for(&event(2500), still(1, 1));
    assert_eq!(anchor, OverlayAnchor::BottomRight);
    assert_eq!(duration.as_millis(), 2500);
    assert_eq!((custom_x, custom_y), (Some(5), None));
}

#[test]
fn inject_then_follow_then_hide() {
    let mut state = OverlayState::new();
    assert_eq!(state.tick(), TickAction::Idle);
    let req = state.inject(runtime_event_for(&event(1000), still(30, 20)));
    assert_eq!((req.anchor, req.width, req.height, req.custom_x), (OverlayAnchor::BottomRight, 30, 20, Some(5)));
    match state.tick_after(Duration::from_millis(999)) {
        TickAction::Follow(r) => assert_eq!(r, req),
        other => panic!("unexpected {other:?}"),
    }
    assert_eq!(state.tick_after(Duration::from_millis(1000)), TickAction::Hide);
    assert!(state.active_asset.is_none() && state.expiry.is_none());
    assert_eq!(state.tick(), TickAction::Idle);
}

#[test]
fn zero_duration_expires_at_once() {
    let mut state = OverlayState::new();
    state.inject(runtime_event_for(&event(0), still(1, 1)));
    assert_eq!(state.tick(), TickAction::Hide);
}

#[test]
fn render_decisions() {
    assert!(needs_new_texture(false, (1, 1), (1, 1)));
    assert!(needs_new_texture(true, (1, 1), (1, 2)));
    assert!(!needs_new_texture(true, (3, 4), (3, 4)));
    assert_eq!(surface_resize((10, 10), (0, 5)), None);
    assert_eq!(surface_resize((10, 10), (10, 10)), None);
    assert_eq!(surface_resize((10, 10), (11, 10)), Some((11, 10)));
    assert_eq!(initial_surface_size((0, 7)), (1, 7));
    assert_eq!(choose_alpha_mode(true, true), AlphaMode::PreMultiplied);
    assert_eq!(choose_alpha_mode(false, true), AlphaMode::PostMultiplied);
    assert_eq!(choose_alpha_mode(false, false), AlphaMode::Inherit);
    let mut c = MockCanvas;
    assert!(c.clear().is_ok());
    assert!(c.draw_texture(&TextureFrame { width: 0, height: 0, pixels: vec![] }, OverlayAnchor::Center).is_ok());
    assert!(c.present().is_ok());
}

#[test]
fn resize_retries_then_gives_up() {
    assert_eq!(RESIZE_ATTEMPTS, 3);
    assert_eq!(resize_step(0, true), ResizeAction::MoveAndStop);
    assert_eq!(resize_step(2, true), ResizeAction::MoveAndStop);
    assert_eq!(resize_step(0, false), ResizeAction::WaitAndRetry);
    assert_eq!(resize_step(1, false), ResizeAction::WaitAndRetry);
    assert_eq!(resize_step(2, false), ResizeAction::WaitAndGiveUp);
    assert_eq!(resize_step(u32::MAX, false), ResizeAction::WaitAndGiveUp);
}

#[test]
fn expiry_restarts_and_keeps_the_meme() {
    let mut state = OverlayState::new();
    let req = state.inject(runtime_event_for(&event(1000), still(3, 2)));
    state.start_expiry();
    assert_eq!(state.active_anchor, Some(OverlayAnchor::BottomRight));
    assert_eq!(state.expiry.map(|(_, life)| life.as_millis()), Some(1000));
    match state.tick_after(Duration::from_millis(10)) {
        TickAction::Follow(r) => assert_eq!(r, req),
        other => panic!("unexpected {other:?}"),
    }
    let mut idle = OverlayState::new();
    idle.start_expiry();
    assert!(idle.expiry.is_none() && idle.active_asset.is_none());
}
