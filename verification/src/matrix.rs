use vstd::prelude::*;

use crate::parser::{
    default_config, flag_of, join_space, lemma_scan_plain_words, opt_chars, parse_matrix_message,
    parse_message, scan_words, with_flag, Flag, MemeConfigView,
};
use crate::text::{
    chars_from, chars_of, decimal, find_chars, find_first, is_word, lemma_decimal_is_word,
    lemma_parse_decimal, lemma_split_space_join, lemma_split_word, push_chars, push_decimal,
    split_ws, strip_repeated, trim, trim_start_matches, trim_ws,
};

verus! {

// ---------------------------------------------------------------------
//  Room identifiers
// ---------------------------------------------------------------------

/// Whether `s` is accepted as a Matrix room ID.
pub open spec fn room_id_valid(s: Seq<char>) -> bool {
    s.len() > 0 && s[0] == '!'
}

/// `<&RoomId>::try_from` of matrix-sdk's `ruma`. With the
/// `compat-arbitrary-length-ids` feature that matrix-sdk turns on, ruma's
/// room ID check is that the string starts with `!`; that is what is
/// claimed here.
#[verifier::external_body]
fn room_id_parses(s: &str) -> (r: bool)
    ensures
        r == room_id_valid(s@),
{
    <&matrix_sdk::ruma::RoomId>::try_from(s).is_ok()
}

/// Whether `s` is a Matrix room ID.
pub fn is_room_id(s: &str) -> (r: bool)
    ensures
        r == room_id_valid(s@),
{
    room_id_parses(s)
}

// ---------------------------------------------------------------------
//  Messages received from the room
// ---------------------------------------------------------------------

/// The address from which an image posted to the room is downloaded.
pub open spec fn media_url(mxc: Seq<char>) -> Seq<char> {
    "https://matrix.org/_matrix/media/v3/download/"@ + strip_repeated(mxc, "mxc://"@)
}

/// The download address of an `mxc://` media URI.
pub fn media_download_url(mxc: &str) -> (url: String)
    ensures
        url@ == media_url(mxc@),
{
    let scheme = chars_of("mxc://");
    let rest = trim_start_matches(&chars_of(mxc), &scheme);
    let mut url = String::from_str("https://matrix.org/_matrix/media/v3/download/");
    push_chars(&mut url, &rest);
    url
}

/// What the dashboard is told of a meme posted to the room.
#[derive(Debug, Clone)]
pub struct MemePayload {
    pub image_path: String,
    pub text: Option<String>,
    pub duration_ms: u32,
    pub width: Option<u32>,
    pub height: Option<u32>,
    pub text_color: Option<String>,
    pub sender: String,
}

/// The abstract value of a [`MemePayload`].
pub struct MemePayloadView {
    pub image_path: Seq<char>,
    pub text: Option<Seq<char>>,
    pub duration_ms: u32,
    pub width: Option<u32>,
    pub height: Option<u32>,
    pub text_color: Option<Seq<char>>,
    pub sender: Seq<char>,
}

impl View for MemePayload {
    type V = MemePayloadView;

    open spec fn view(&self) -> MemePayloadView {
        MemePayloadView {
            image_path: self.image_path@,
            text: opt_chars(self.text),
            duration_ms: self.duration_ms,
            width: self.width,
            height: self.height,
            text_color: opt_chars(self.text_color),
            sender: self.sender@,
        }
    }
}

/// The payload for an image at `image_path` whose caption asked for `cfg`.
pub open spec fn payload_of(image_path: Seq<char>, cfg: MemeConfigView, sender: Seq<char>) -> MemePayloadView {
    MemePayloadView {
        image_path,
        text: cfg.text,
        duration_ms: cfg.duration_ms,
        width: cfg.width,
        height: cfg.height,
        text_color: cfg.text_color,
        sender,
    }
}

/// The payload for an image posted to the room at the media URI `mxc`,
/// whose caption is `body`.
pub fn image_message_payload(mxc: &str, body: &str, sender: &str) -> (p: MemePayload)
    ensures
        p@ == payload_of(media_url(mxc@), parse_message(body@), sender@),
        p@.image_path == media_url(mxc@),
        p@.text == parse_message(body@).text,
        p@.duration_ms == parse_message(body@).duration_ms,
        p@.width == parse_message(body@).width,
        p@.height == parse_message(body@).height,
        p@.text_color == parse_message(body@).text_color,
        p@.sender == sender@,
{
    let image_path = media_download_url(mxc);
    let config = parse_matrix_message(body);
    MemePayload {
        image_path,
        text: config.text,
        duration_ms: config.duration_ms,
        width: config.width,
        height: config.height,
        text_color: config.text_color,
        sender: String::from_str(sender),
    }
}

/// The image that a text message points to: the one its `-i` option
/// names, or else whatever follows the first `http` in it, trimmed, or
/// else nothing.
pub open spec fn text_image_path(body: Seq<char>, cfg: MemeConfigView) -> Seq<char> {
    match cfg.image_url {
        Some(url) => url,
        None => match find_first(body, "http"@) {
            Some(pos) => trim_ws(body.skip(pos)),
            None => seq![],
        },
    }
}

/// The payload for a text message posted to the room, when it carries
/// text once its options are read out; `None` otherwise.
pub fn text_message_payload(body: &str, sender: &str) -> (p: Option<MemePayload>)
    ensures
        parse_message(body@).text is None <==> p is None,
        p matches Some(p) ==> p@ == payload_of(
            text_image_path(body@, parse_message(body@)),
            parse_message(body@),
            sender@,
        ),
        p matches Some(p) ==> {
            &&& p@.text == parse_message(body@).text
            &&& p@.duration_ms == parse_message(body@).duration_ms
            &&& p@.width == parse_message(body@).width
            &&& p@.height == parse_message(body@).height
            &&& p@.text_color == parse_message(body@).text_color
            &&& p@.sender == sender@
        },
        p matches Some(p) ==> (parse_message(body@).image_url matches Some(u) ==> p@.image_path
            == u),
        p matches Some(p) ==> (parse_message(body@).image_url is None ==> match find_first(
            body@,
            "http"@,
        ) {
            Some(pos) => p@.image_path == trim_ws(body@.skip(pos)),
            None => p@.image_path == Seq::<char>::empty(),
        }),
{
    let config = parse_matrix_message(body);
    if config.text.is_none() {
        return None;
    }
    let image_path = match config.image_url {
        Some(url) => url,
        None => {
            let chars = chars_of(body);
            match find_chars(&chars, &chars_of("http")) {
                Some(pos) => {
                    let tail = chars_from(&chars, pos);
                    let mut s = String::new();
                    push_chars(&mut s, &trim(&tail));
                    s
                },
                None => String::new(),
            }
        },
    };
    Some(
        MemePayload {
            image_path,
            text: config.text,
            duration_ms: config.duration_ms,
            width: config.width,
            height: config.height,
            text_color: config.text_color,
            sender: String::from_str(sender),
        },
    )
}

/// The answer once the session is logged in and listening to a room.
pub fn connected_message(user_id: &str, room_id: &str) -> (m: String)
    ensures
        m@ == "Connected as "@ + user_id@ + " and listening to "@ + room_id@,
{
    let mut m = String::from_str("Connected as ");
    m.append(user_id);
    m.append(" and listening to ");
    m.append(room_id);
    m
}

/// Checks the room ID given when logging in.
pub fn check_login_room_id(room_id: &str) -> (r: Result<(), String>)
    ensures
        r is Ok <==> room_id_valid(room_id@),
        r matches Err(e) ==> e@ == "Invalid Matrix Room ID format"@,
{
    if is_room_id(room_id) {
        Ok(())
    } else {
        Err(String::from_str("Invalid Matrix Room ID format"))
    }
}

// ---------------------------------------------------------------------
//  Messages sent to the room
// ---------------------------------------------------------------------

/// The message that carries a meme to the room: the text, then the
/// duration, colour and image as options.
pub open spec fn meme_message(text: Seq<char>, duration_ms: u32, color: Seq<char>, url: Seq<char>) -> Seq<char> {
    text + " -d "@ + decimal(duration_ms as nat) + " -c "@ + color + " -i "@ + url
}

/// Writes the message that carries a meme to the room.
pub fn compose_meme_message(text: &str, duration_ms: u32, text_color: &str, image_url: &str) -> (m: String)
    ensures
        m@ == meme_message(text@, duration_ms, text_color@, image_url@),
{
    let mut m = String::from_str(text);
    m.append(" -d ");
    push_decimal(&mut m, duration_ms as u64);
    m.append(" -c ");
    m.append(text_color);
    m.append(" -i ");
    m.append(image_url);
    m
}

/// Why a meme could not be sent to the room.
#[derive(Clone, Copy, Debug, PartialEq, Eq, Structural)]
pub enum SendRejection {
    /// No session is logged in.
    NotConnected,
    /// The room ID is not one.
    InvalidRoomId,
    /// The session knows no such room.
    RoomNotFound,
    /// The session has not joined the room.
    NotJoined,
}

impl SendRejection {
    /// The text the dashboard shows for the rejection.
    pub open spec fn text(&self) -> Seq<char> {
        match self {
            SendRejection::NotConnected => "You must connect to Matrix first!"@,
            SendRejection::InvalidRoomId => "Invalid Room ID format"@,
            SendRejection::RoomNotFound => "The bot could not find or has not joined this room."@,
            SendRejection::NotJoined => "The bot is not in this room (status is not joined)."@,
        }
    }

    /// The text the dashboard shows for the rejection.
    pub fn message(&self) -> (m: String)
        ensures
            m@ == self.text(),
    {
        match self {
            SendRejection::NotConnected => String::from_str("You must connect to Matrix first!"),
            SendRejection::InvalidRoomId => String::from_str("Invalid Room ID format"),
            SendRejection::RoomNotFound => String::from_str(
                "The bot could not find or has not joined this room.",
            ),
            SendRejection::NotJoined => String::from_str(
                "The bot is not in this room (status is not joined).",
            ),
        }
    }
}

/// The first check of a send: a session is needed, then a valid room ID.
pub fn check_send_target(connected: bool, room_id: &str) -> (r: Result<(), SendRejection>)
    ensures
        !connected ==> r == Err::<(), SendRejection>(SendRejection::NotConnected),
        connected && !room_id_valid(room_id@) ==> r == Err::<(), SendRejection>(
            SendRejection::InvalidRoomId,
        ),
        connected && room_id_valid(room_id@) ==> r is Ok,
{
    if !connected {
        return Err(SendRejection::NotConnected);
    }
    if !is_room_id(room_id) {
        return Err(SendRejection::InvalidRoomId);
    }
    Ok(())
}

/// The second check of a send: the room must be known, then joined.
pub fn check_send_room(found: bool, joined: bool) -> (r: Result<(), SendRejection>)
    ensures
        !found ==> r == Err::<(), SendRejection>(SendRejection::RoomNotFound),
        found && !joined ==> r == Err::<(), SendRejection>(SendRejection::NotJoined),
        found && joined ==> r is Ok,
{
    if !found {
        Err(SendRejection::RoomNotFound)
    } else if !joined {
        Err(SendRejection::NotJoined)
    } else {
        Ok(())
    }
}


/// The configuration that a meme message sent with the given text,
/// duration, colour and image is read back as.
pub open spec fn sent_config(text: Seq<char>, duration_ms: u32, color: Seq<char>, url: Seq<char>) -> MemeConfigView {
    let words = split_ws(text);
    MemeConfigView {
        image_url: Some(url),
        text: if join_space(words).len() > 0 {
            Some(join_space(words))
        } else {
            None
        },
        duration_ms,
        width: None,
        height: None,
        text_color: Some(color),
    }
}

/// What the dashboard sends, the room reads back: a meme message written
/// by [`compose_meme_message`] and read by
/// [`parse_matrix_message`](crate::parser::parse_matrix_message) gives back
/// the duration, the colour and the image, with the words of the text
/// joined by single spaces as the text. This holds when the colour and the
/// image are single words and no word of the text is an option.
pub proof fn lemma_meme_message_roundtrip(
    text: Seq<char>,
    duration_ms: u32,
    color: Seq<char>,
    url: Seq<char>,
)
    requires
        is_word(color),
        is_word(url),
        forall|i: int| 0 <= i < split_ws(text).len() ==> flag_of(#[trigger] split_ws(text)[i]) is None,
    ensures
        parse_message(meme_message(text, duration_ms, color, url)) == sent_config(
            text,
            duration_ms,
            color,
            url,
        ),
{
    reveal_strlit(" -d ");
    reveal_strlit(" -c ");
    reveal_strlit(" -i ");
    let d = decimal(duration_ms as nat);
    let opt_d = seq!['-', 'd'];
    let opt_c = seq!['-', 'c'];
    let opt_i = seq!['-', 'i'];
    let sp = seq![' '];
    // The message, as words separated by single spaces.
    let t5 = opt_i + sp + url;
    let t4 = color + sp + t5;
    let t3 = opt_c + sp + t4;
    let t2 = d + sp + t3;
    let t1 = opt_d + sp + t2;
    let msg = text + sp + t1;
    assert(meme_message(text, duration_ms, color, url) =~= msg);
    lemma_decimal_is_word(duration_ms as nat);
    assert(is_word(opt_d) && is_word(opt_c) && is_word(opt_i));
    lemma_split_word(opt_d);
    lemma_split_word(opt_c);
    lemma_split_word(opt_i);
    lemma_split_word(d);
    lemma_split_word(color);
    lemma_split_word(url);
    lemma_split_space_join(opt_i, url);
    lemma_split_space_join(color, t5);
    lemma_split_space_join(opt_c, t4);
    lemma_split_space_join(d, t3);
    lemma_split_space_join(opt_d, t2);
    lemma_split_space_join(text, t1);
    let opts = seq![opt_d, d, opt_c, color, opt_i, url];
    assert(split_ws(t1) =~= opts);
    let words = split_ws(text);
    assert(split_ws(msg) == words + opts);
    lemma_scan_plain_words(words, opts, default_config(), seq![]);
    assert(Seq::<Seq<char>>::empty() + words =~= words);
    // The options, read one after another.
    lemma_parse_decimal(duration_ms);
    let c1 = with_flag(default_config(), Flag::Duration, d);
    let c2 = with_flag(c1, Flag::Color, color);
    let c3 = with_flag(c2, Flag::ImageUrl, url);
    assert(flag_of(opt_d) == Some(Flag::Duration));
    assert(flag_of(opt_c) == Some(Flag::Color));
    assert(flag_of(opt_i) == Some(Flag::ImageUrl));
    assert(opts.skip(2) =~= seq![opt_c, color, opt_i, url]);
    assert(opts.skip(2).skip(2) =~= seq![opt_i, url]);
    assert(opts.skip(2).skip(2).skip(2) =~= Seq::<Seq<char>>::empty());
    assert(scan_words(opts.skip(2).skip(2).skip(2), c3, words) == (c3, words));
    assert(scan_words(opts.skip(2).skip(2), c2, words) == (c3, words));
    assert(scan_words(opts.skip(2), c1, words) == (c3, words));
    assert(scan_words(opts, default_config(), words) == (c3, words));
}


/// A meme posted to the room is relayed with the settings its message
/// asks for: the text, duration, size and colour read from the message,
/// and the sender; a text message's image is the one its `-i` option
/// names when it has one, and otherwise whatever follows its first
/// `http`, trimmed.
pub proof fn lemma_payload_carries_settings(body: Seq<char>, mxc: Seq<char>, sender: Seq<char>)
    ensures
        ({
            let cfg = parse_message(body);
            let p = payload_of(media_url(mxc), cfg, sender);
            &&& p.image_path == media_url(mxc)
            &&& p.text == cfg.text
            &&& p.duration_ms == cfg.duration_ms
            &&& p.width == cfg.width
            &&& p.height == cfg.height
            &&& p.text_color == cfg.text_color
            &&& p.sender == sender
        }),
        parse_message(body).image_url matches Some(u) ==> text_image_path(body, parse_message(body))
            == u,
        parse_message(body).image_url is None ==> text_image_path(body, parse_message(body))
            == match find_first(body, "http"@) {
            Some(pos) => trim_ws(body.skip(pos)),
            None => Seq::<char>::empty(),
        },
{
}

} // verus!
