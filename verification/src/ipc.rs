use vstd::prelude::*;

use crate::constants::MAX_IPC_PAYLOAD_BYTES;
use crate::events::RuntimeEvent;
use crate::models::OverlayEvent;
use crate::text::{chars_of, push_char};
use crate::texture::MediaAsset;
use crate::time::Duration;

verus! {

/// A request line as the dashboard sends it: the JSON text of the event
/// and a newline.
pub fn frame_request(json: &str) -> (line: String)
    ensures
        line@ == json@.push('\n'),
{
    let mut line = String::from_str(json);
    push_char(&mut line, '\n');
    line
}

/// Whether the overlay takes a request line of `bytes_read` bytes: a
/// non-empty line of at most [`MAX_IPC_PAYLOAD_BYTES`] bytes.
pub fn accepts_request_len(bytes_read: usize) -> (r: bool)
    ensures
        r == (0 < bytes_read && bytes_read <= MAX_IPC_PAYLOAD_BYTES),
{
    bytes_read > 0 && bytes_read <= MAX_IPC_PAYLOAD_BYTES
}

/// The event that a request hands to the event loop, once its image has
/// been decoded into `asset`: the request's anchor and offsets, shown for
/// its duration in milliseconds.
pub fn runtime_event_for(event: &OverlayEvent, asset: MediaAsset) -> (r: RuntimeEvent)
    ensures
        r matches RuntimeEvent::InjectMeme { anchor, asset: a, duration, custom_x, custom_y } && anchor
            == event.anchor && a == asset && duration.millis() == event.duration_ms
            && duration.total_nanos() == event.duration_ms * 1_000_000 && custom_x == event.x
            && custom_y == event.y,
{
    RuntimeEvent::InjectMeme {
        anchor: event.anchor,
        asset,
        duration: Duration::from_millis(event.duration_ms as u64),
        custom_x: event.x,
        custom_y: event.y,
    }
}

/// `s` starts with `p`.
pub open spec fn has_prefix(s: Seq<char>, p: Seq<char>) -> bool {
    p.len() <= s.len() && s.take(p.len() as int) == p
}

/// Whether `s` starts with the characters of `p`.
fn starts_with(s: &Vec<char>, p: &Vec<char>) -> (r: bool)
    ensures
        r == has_prefix(s@, p@),
{
    if p.len() > s.len() {
        return false;
    }
    for i in 0..p.len()
        invariant
            p@.len() <= s@.len(),
            forall|j: int| 0 <= j < i ==> s@[j] == p@[j],
    {
        if s[i] != p[i] {
            proof {
                assert(s@.take(p@.len() as int)[i as int] != p@[i as int]);
            }
            return false;
        }
    }
    proof {
        assert(s@.take(p@.len() as int) =~= p@);
    }
    true
}

/// Whether an asset is fetched over the network rather than read from a
/// file: its source starts with `http://` or `https://`.
pub fn is_remote_source(source: &str) -> (r: bool)
    ensures
        r == (has_prefix(source@, "http://"@) || has_prefix(source@, "https://"@)),
{
    let s = chars_of(source);
    starts_with(&s, &chars_of("http://")) || starts_with(&s, &chars_of("https://"))
}

} // verus!
