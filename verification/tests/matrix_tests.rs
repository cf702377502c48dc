use memeblink::matrix::{
    check_login_room_id, check_send_room, check_send_target, compose_meme_message, connected_message,
    image_message_payload, is_room_id, media_download_url, text_message_payload, SendRejection,
};
use memeblink::parser::parse_matrix_message;

#[test]
fn room_ids() {
    assert!(is_room_id("!abc:example.org"));
    assert!(!is_room_id("#alias:example.org"));
    assert!(!is_room_id(""));
    assert!(check_login_room_id("!r:x").is_ok());
    assert_eq!(check_login_room_id("r:x").unwrap_err(), "Invalid Matrix Room ID format");
}

#[test]
fn send_checks_in_order() {
    assert_eq!(check_send_target(false, "bad"), Err(SendRejection::NotConnected));
    assert_eq!(check_send_target(true, "bad"), Err(SendRejection::InvalidRoomId));
    assert_eq!(check_send_target(true, "!ok:x"), Ok(()));
    assert_eq!(check_send_room(false, false), Err(SendRejection::RoomNotFound));
    assert_eq!(check_send_room(true, false), Err(SendRejection::NotJoined));
    assert_eq!(check_send_room(true, true), Ok(()));
    assert_eq!(SendRejection::NotConnected.message(), "You must connect to Matrix first!");
    assert_eq!(SendRejection::InvalidRoomId.message(), "Invalid Room ID format");
    assert_eq!(SendRejection::RoomNotFound.message(), "The bot could not find or has not joined this room.");
    assert_eq!(SendRejection::NotJoined.message(), "The bot is not in this room (status is not joined).");
}

#[test]
fn compose_then_parse_roundtrip() {
    let msg = compose_meme_message("so  funny", 4200, "#00ff00", "https://e.org/a.gif");
    assert_eq!(msg, "so  funny -d 4200 -c #00ff00 -i https://e.org/a.gif");
    let c = parse_matrix_message(&msg);
    assert_eq!(c.text.as_deref(), Some("so funny"));
    assert_eq!(c.duration_ms, 4200);
    assert_eq!(c.text_color.as_deref(), Some("#00ff00"));
    assert_eq!(c.image_url.as_deref(), Some("https://e.org/a.gif"));
    assert_eq!((c.width, c.height), (None, None));
}

#[test]
fn media_urls() {
    assert_eq!(
        media_download_url("mxc://matrix.org/abc"),
        "https://matrix.org/_matrix/media/v3/download/matrix.org/abc"
    );
    assert_eq!(
        media_download_url("mxc://mxc://x/y"),
        "https://matrix.org/_matrix/media/v3/download/x/y"
    );
    assert_eq!(media_download_url("x/y"), "https://matrix.org/_matrix/media/v3/download/x/y");
}

#[test]
fn image_payload() {
    let p = image_message_payload("mxc://s/id", "funny -d 10 -w 64", "@bob:s");
    assert_eq!(p.image_path, "https://matrix.org/_matrix/media/v3/download/s/id");
    assert_eq!(p.text.as_deref(), Some("funny"));
    assert_eq!(p.duration_ms, 10);
    assert_eq!(p.width, Some(64));
    assert_eq!(p.text_color.as_deref(), Some("#ffffff"));
    assert_eq!(p.sender, "@bob:s");
}

#[test]
fn text_payloads() {
    assert!(text_message_payload("-i http://a.png", "@a:s").is_none());
    let p = text_message_payload("look -i http://a.png", "@a:s").unwrap();
    assert_eq!(p.image_path, "http://a.png");
    let p = text_message_payload("look at https://b.gif  ", "@a:s").unwrap();
    assert_eq!(p.image_path, "https://b.gif");
    assert_eq!(p.text.as_deref(), Some("look at https://b.gif"));
    let p = text_message_payload("no link here", "@a:s").unwrap();
    assert_eq!(p.image_path, "");
}

#[test]
fn connected_text() {
    assert_eq!(connected_message("@me:s", "!r:s"), "Connected as @me:s and listening to !r:s");
}
