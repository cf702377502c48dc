use vstd::prelude::*;

use crate::text::{
    chars_eq, parse_u32, parse_u32_spec, push_char, push_chars, split_whitespace, split_ws,
    string_from_chars,
};

verus! {

/// What a chat message asks the overlay to show.
#[derive(Debug, Clone)]
pub struct MemeConfig {
    pub image_url: Option<String>,
    pub text: Option<String>,
    pub duration_ms: u32,
    pub width: Option<u32>,
    pub height: Option<u32>,
    pub text_color: Option<String>,
}

/// The abstract value of a [`MemeConfig`]: its strings as character
/// sequences.
pub struct MemeConfigView {
    pub image_url: Option<Seq<char>>,
    pub text: Option<Seq<char>>,
    pub duration_ms: u32,
    pub width: Option<u32>,
    pub height: Option<u32>,
    pub text_color: Option<Seq<char>>,
}

/// The characters of an optional string.
pub open spec fn opt_chars(s: Option<String>) -> Option<Seq<char>> {
    match s {
        Some(s) => Some(s@),
        None => None,
    }
}

impl View for MemeConfig {
    type V = MemeConfigView;

    open spec fn view(&self) -> MemeConfigView {
        MemeConfigView {
            image_url: opt_chars(self.image_url),
            text: opt_chars(self.text),
            duration_ms: self.duration_ms,
            width: self.width,
            height: self.height,
            text_color: opt_chars(self.text_color),
        }
    }
}

/// The default text colour, white: `#ffffff`.
pub open spec fn default_color() -> Seq<char> {
    seq!['#', 'f', 'f', 'f', 'f', 'f', 'f']
}

/// The configuration of a message that asks for nothing: no image, no
/// text, three seconds on screen, natural size, white text.
pub open spec fn default_config() -> MemeConfigView {
    MemeConfigView {
        image_url: None,
        text: None,
        duration_ms: 3000,
        width: None,
        height: None,
        text_color: Some(default_color()),
    }
}

impl Default for MemeConfig {
    fn default() -> (r: Self)
        ensures
            r@ == default_config(),
    {
        let white = ['#', 'f', 'f', 'f', 'f', 'f', 'f'];
        let mut color = String::new();
        let mut i: usize = 0;
        while i < 7
            invariant
                0 <= i <= 7,
                white@ == default_color(),
                color@ == default_color().take(i as int),
            decreases 7 - i,
        {
            push_char(&mut color, white[i]);
            proof {
                assert(default_color().take(i + 1) =~= default_color().take(i as int).push(
                    white@[i as int],
                ));
            }
            i = i + 1;
        }
        proof {
            assert(default_color().take(7) =~= default_color());
        }
        MemeConfig {
            image_url: None,
            text: None,
            duration_ms: 3000,
            width: None,
            height: None,
            text_color: Some(color),
        }
    }
}

/// The options a message can carry; each takes the word after it.
#[derive(Clone, Copy, Debug, PartialEq, Eq, Structural)]
pub enum Flag {
    /// `-i` or `--image_url`
    ImageUrl,
    /// `-d` or `--duration`
    Duration,
    /// `-w` or `--width`
    Width,
    /// `-h` or `--height`
    Height,
    /// `-c` or `--color`
    Color,
}

/// The option that the word `w` names, if any.
pub open spec fn flag_of(w: Seq<char>) -> Option<Flag> {
    if w == seq!['-', 'i'] || w == seq![
        '-',
        '-',
        'i',
        'm',
        'a',
        'g',
        'e',
        '_',
        'u',
        'r',
        'l',
    ] {
        Some(Flag::ImageUrl)
    } else if w == seq!['-', 'd'] || w == seq!['-', '-', 'd', 'u', 'r', 'a', 't', 'i', 'o', 'n'] {
        Some(Flag::Duration)
    } else if w == seq!['-', 'w'] || w == seq!['-', '-', 'w', 'i', 'd', 't', 'h'] {
        Some(Flag::Width)
    } else if w == seq!['-', 'h'] || w == seq!['-', '-', 'h', 'e', 'i', 'g', 'h', 't'] {
        Some(Flag::Height)
    } else if w == seq!['-', 'c'] || w == seq!['-', '-', 'c', 'o', 'l', 'o', 'r'] {
        Some(Flag::Color)
    } else {
        None
    }
}

/// `cfg` after the option `flag` with the value `value`: the image and the
/// colour take the word as it is; a duration, width or height takes it
/// only when it is a valid `u32`, and is left as it was otherwise.
pub open spec fn with_flag(cfg: MemeConfigView, flag: Flag, value: Seq<char>) -> MemeConfigView {
    match flag {
        Flag::ImageUrl => MemeConfigView { image_url: Some(value), ..cfg },
        Flag::Duration => match parse_u32_spec(value) {
            Some(v) => MemeConfigView { duration_ms: v, ..cfg },
            None => cfg,
        },
        Flag::Width => match parse_u32_spec(value) {
            Some(v) => MemeConfigView { width: Some(v), ..cfg },
            None => cfg,
        },
        Flag::Height => match parse_u32_spec(value) {
            Some(v) => MemeConfigView { height: Some(v), ..cfg },
            None => cfg,
        },
        Flag::Color => MemeConfigView { text_color: Some(value), ..cfg },
    }
}

/// Reading `words` from the left: an option word followed by another word
/// sets that option from it, and every other word is kept as text.
/// Returns the configuration and the kept words.
pub open spec fn scan_words(
    words: Seq<Seq<char>>,
    cfg: MemeConfigView,
    text: Seq<Seq<char>>,
) -> (MemeConfigView, Seq<Seq<char>>)
    decreases words.len(),
{
    if words.len() == 0 {
        (cfg, text)
    } else if words.len() >= 2 && flag_of(words[0]) is Some {
        scan_words(words.skip(2), with_flag(cfg, flag_of(words[0])->0, words[1]), text)
    } else {
        scan_words(words.skip(1), cfg, text.push(words[0]))
    }
}

/// The words joined with single spaces.
pub open spec fn join_space(words: Seq<Seq<char>>) -> Seq<char>
    decreases words.len(),
{
    if words.len() == 0 {
        seq![]
    } else if words.len() == 1 {
        words[0]
    } else {
        join_space(words.drop_last()) + seq![' '] + words.last()
    }
}

/// What a message asks for: its options applied to the default
/// configuration, and, when any other words remain, those words joined
/// with single spaces as the text.
pub open spec fn parse_message(content: Seq<char>) -> MemeConfigView {
    let (cfg, kept) = scan_words(split_ws(content), default_config(), seq![]);
    let joined = join_space(kept);
    if joined.len() > 0 {
        MemeConfigView { text: Some(joined), ..cfg }
    } else {
        cfg
    }
}

/// The option that the word names, if any.
fn flag_of_word(w: &Vec<char>) -> (r: Option<Flag>)
    ensures
        r == flag_of(w@),
{
    let short_i = ['-', 'i'];
    let long_i = ['-', '-', 'i', 'm', 'a', 'g', 'e', '_', 'u', 'r', 'l'];
    let short_d = ['-', 'd'];
    let long_d = ['-', '-', 'd', 'u', 'r', 'a', 't', 'i', 'o', 'n'];
    let short_w = ['-', 'w'];
    let long_w = ['-', '-', 'w', 'i', 'd', 't', 'h'];
    let short_h = ['-', 'h'];
    let long_h = ['-', '-', 'h', 'e', 'i', 'g', 'h', 't'];
    let short_c = ['-', 'c'];
    let long_c = ['-', '-', 'c', 'o', 'l', 'o', 'r'];
    if chars_eq(w, &short_i) || chars_eq(w, &long_i) {
        Some(Flag::ImageUrl)
    } else if chars_eq(w, &short_d) || chars_eq(w, &long_d) {
        Some(Flag::Duration)
    } else if chars_eq(w, &short_w) || chars_eq(w, &long_w) {
        Some(Flag::Width)
    } else if chars_eq(w, &short_h) || chars_eq(w, &long_h) {
        Some(Flag::Height)
    } else if chars_eq(w, &short_c) || chars_eq(w, &long_c) {
        Some(Flag::Color)
    } else {
        None
    }
}


/// The words at the given positions, in that order.
pub open spec fn picked(words: Seq<Seq<char>>, idx: Seq<usize>) -> Seq<Seq<char>> {
    idx.map_values(|k: usize| words[k as int])
}

/// Joins the words at the given positions with single spaces.
fn join_picked(words: &Vec<Vec<char>>, idx: &Vec<usize>) -> (s: String)
    requires
        forall|j: int| 0 <= j < idx@.len() ==> idx@[j] < words@.len(),
    ensures
        s@ == join_space(picked(words.deep_view(), idx@)),
{
    let ghost dv = words.deep_view();
    let mut s = String::new();
    for k in 0..idx.len()
        invariant
            dv == words.deep_view(),
            forall|j: int| 0 <= j < idx@.len() ==> idx@[j] < words@.len(),
            s@ == join_space(picked(dv, idx@.take(k as int))),
    {
        let w = &words[idx[k]];
        proof {
            assert(dv[idx@[k as int] as int] =~= w@);
            let before = picked(dv, idx@.take(k as int));
            let after = picked(dv, idx@.take(k + 1));
            assert(after.drop_last() =~= before);
            assert(after.last() == w@);
        }
        if k > 0 {
            push_char(&mut s, ' ');
        }
        push_chars(&mut s, w);
        proof {
            let after = picked(dv, idx@.take(k + 1));
            if k == 0 {
                assert(s@ =~= after[0]);
            } else {
                assert(s@ =~= join_space(after.drop_last()) + seq![' '] + after.last());
            }
        }
    }
    proof {
        assert(idx@.take(idx@.len() as int) =~= idx@);
    }
    s
}

/// Reads the options and the text out of a chat message.
///
/// The message is split on white space. `-i`/`--image_url` and
/// `-c`/`--color` take the next word as the image and the text colour;
/// `-d`/`--duration`, `-w`/`--width` and `-h`/`--height` take the next word
/// when it is a valid `u32` and skip it otherwise. An option with no word
/// after it, and every other word, is text; the text words, joined with
/// single spaces, become the text when there are any.
pub fn parse_matrix_message(content: &str) -> (config: MemeConfig)
    ensures
        config@ == parse_message(content@),
{
    let mut config = MemeConfig::default();
    let mut clean_text_words: Vec<usize> = Vec::new();
    let words = split_whitespace(content);
    let ghost dv = words.deep_view();
    let mut i: usize = 0;
    proof {
        assert(dv.skip(0) =~= dv);
        assert(picked(dv, clean_text_words@) =~= Seq::<Seq<char>>::empty());
    }

    while i < words.len()
        invariant
            dv == words.deep_view(),
            dv == split_ws(content@),
            i <= words@.len(),
            forall|j: int| 0 <= j < clean_text_words@.len() ==> clean_text_words@[j] < words@.len(),
            scan_words(dv, default_config(), seq![]) == scan_words(
                dv.skip(i as int),
                config@,
                picked(dv, clean_text_words@),
            ),
        decreases words@.len() - i,
    {
        let ghost rest = dv.skip(i as int);
        proof {
            assert(rest[0] =~= words@[i as int]@);
        }
        let flag = flag_of_word(&words[i]);
        if flag.is_some() && i + 1 < words.len() {
            proof {
                assert(rest[1] =~= words@[i + 1]@);
                assert(rest.skip(2) =~= dv.skip(i + 2));
            }
            let value = &words[i + 1];
            match flag {
                Some(Flag::ImageUrl) => {
                    config.image_url = Some(string_from_chars(value));
                },
                Some(Flag::Duration) => {
                    if let Some(v) = parse_u32(value) {
                        config.duration_ms = v;
                    }
                },
                Some(Flag::Width) => {
                    if let Some(v) = parse_u32(value) {
                        config.width = Some(v);
                    }
                },
                Some(Flag::Height) => {
                    if let Some(v) = parse_u32(value) {
                        config.height = Some(v);
                    }
                },
                Some(Flag::Color) => {
                    config.text_color = Some(string_from_chars(value));
                },
                None => {},
            }
            i = i + 2;
        } else {
            let ghost before = picked(dv, clean_text_words@);
            clean_text_words.push(i);
            proof {
                assert(rest.skip(1) =~= dv.skip(i + 1));
                assert(picked(dv, clean_text_words@) =~= before.push(rest[0]));
            }
            i = i + 1;
        }
    }
    proof {
        assert(dv.skip(i as int) =~= Seq::<Seq<char>>::empty());
    }
    let final_text = join_picked(&words, &clean_text_words);
    if !final_text.as_str().is_empty() {
        config.text = Some(final_text);
    }
    config
}


/// Words none of which is an option are all kept as text, in order.
pub proof fn lemma_scan_plain_words(
    plain: Seq<Seq<char>>,
    rest: Seq<Seq<char>>,
    cfg: MemeConfigView,
    kept: Seq<Seq<char>>,
)
    requires
        forall|i: int| 0 <= i < plain.len() ==> flag_of(#[trigger] plain[i]) is None,
    ensures
        scan_words(plain + rest, cfg, kept) == scan_words(rest, cfg, kept + plain),
    decreases plain.len(),
{
    if plain.len() == 0 {
        assert(plain + rest =~= rest);
        assert(kept + plain =~= kept);
    } else {
        let all = plain + rest;
        assert(all[0] == plain[0]);
        assert(flag_of(plain[0]) is None);
        assert(all.skip(1) =~= plain.skip(1) + rest);
        assert forall|i: int| 0 <= i < plain.skip(1).len() implies flag_of(
            #[trigger] plain.skip(1)[i],
        ) is None by {
            assert(plain.skip(1)[i] == plain[i + 1]);
        }
        lemma_scan_plain_words(plain.skip(1), rest, cfg, kept.push(plain[0]));
        assert(kept.push(plain[0]) + plain.skip(1) =~= kept + plain);
    }
}


/// Whether `a` and `b` agree on the setting that the option `f` sets.
pub open spec fn same_setting(a: MemeConfigView, b: MemeConfigView, f: Flag) -> bool {
    match f {
        Flag::ImageUrl => a.image_url == b.image_url,
        Flag::Duration => a.duration_ms == b.duration_ms,
        Flag::Width => a.width == b.width,
        Flag::Height => a.height == b.height,
        Flag::Color => a.text_color == b.text_color,
    }
}

/// No word of the message `s` is `a` or `b`.
pub open spec fn lacks_words(s: Seq<char>, a: Seq<char>, b: Seq<char>) -> bool {
    forall|i: int| 0 <= i < split_ws(s).len() ==> #[trigger] split_ws(s)[i] != a && split_ws(s)[i] != b
}

/// Reading words none of which names the option `f` leaves what `f` sets
/// as it was.
proof fn lemma_scan_keeps(words: Seq<Seq<char>>, cfg: MemeConfigView, text: Seq<Seq<char>>, f: Flag)
    requires
        forall|i: int| 0 <= i < words.len() ==> flag_of(#[trigger] words[i]) != Some(f),
    ensures
        same_setting(scan_words(words, cfg, text).0, cfg, f),
    decreases words.len(),
{
    if words.len() == 0 {
    } else if words.len() >= 2 && flag_of(words[0]) is Some {
        let g = flag_of(words[0])->0;
        assert(flag_of(words[0]) != Some(f));
        let next = with_flag(cfg, g, words[1]);
        assert(same_setting(next, cfg, f));
        assert forall|i: int| 0 <= i < words.skip(2).len() implies flag_of(#[trigger] words.skip(2)[i]) != Some(f) by {
            assert(words.skip(2)[i] == words[i + 2]);
        }
        lemma_scan_keeps(words.skip(2), next, text, f);
    } else {
        assert forall|i: int| 0 <= i < words.skip(1).len() implies flag_of(#[trigger] words.skip(1)[i]) != Some(f) by {
            assert(words.skip(1)[i] == words[i + 1]);
        }
        lemma_scan_keeps(words.skip(1), cfg, text.push(words[0]), f);
    }
}

/// Each setting of a message is changed only by its own option: where no
/// word of the message is `-i` or `--image_url` there is no image, where
/// none is `-d` or `--duration` the duration is three seconds, where none
/// is `-w` or `--width` (`-h` or `--height`) the width (the height) is the
/// natural one, and where none is `-c` or `--color` the colour is white;
/// whatever the other options and words.
pub proof fn lemma_settings_only_from_own_option(s: Seq<char>)
    ensures
        lacks_words(s, seq!['-', 'i'], seq!['-', '-', 'i', 'm', 'a', 'g', 'e', '_', 'u', 'r', 'l'])
            ==> parse_message(s).image_url is None,
        lacks_words(s, seq!['-', 'd'], seq!['-', '-', 'd', 'u', 'r', 'a', 't', 'i', 'o', 'n'])
            ==> parse_message(s).duration_ms == 3000,
        lacks_words(s, seq!['-', 'w'], seq!['-', '-', 'w', 'i', 'd', 't', 'h'])
            ==> parse_message(s).width is None,
        lacks_words(s, seq!['-', 'h'], seq!['-', '-', 'h', 'e', 'i', 'g', 'h', 't'])
            ==> parse_message(s).height is None,
        lacks_words(s, seq!['-', 'c'], seq!['-', '-', 'c', 'o', 'l', 'o', 'r'])
            ==> parse_message(s).text_color == Some(seq!['#', 'f', 'f', 'f', 'f', 'f', 'f']),
{
    let words = split_ws(s);
    let flags = seq![Flag::ImageUrl, Flag::Duration, Flag::Width, Flag::Height, Flag::Color];
    assert forall|k: int| 0 <= k < 5 implies {
        let f = #[trigger] flags[k];
        (forall|i: int| 0 <= i < words.len() ==> flag_of(#[trigger] words[i]) != Some(f))
            ==> same_setting(parse_message(s), default_config(), f)
    } by {
        let f = flags[k];
        if forall|i: int| 0 <= i < words.len() ==> flag_of(#[trigger] words[i]) != Some(f) {
            lemma_scan_keeps(words, default_config(), seq![], f);
        }
    }
    assert(flags[0] == Flag::ImageUrl && flags[1] == Flag::Duration && flags[2] == Flag::Width);
    assert(flags[3] == Flag::Height && flags[4] == Flag::Color);
    if lacks_words(s, seq!['-', 'i'], seq!['-', '-', 'i', 'm', 'a', 'g', 'e', '_', 'u', 'r', 'l']) {
        assert forall|i: int| 0 <= i < words.len() implies flag_of(#[trigger] words[i]) != Some(Flag::ImageUrl) by {
            assert(words[i] != seq!['-', 'i']);
        }
    }
    if lacks_words(s, seq!['-', 'd'], seq!['-', '-', 'd', 'u', 'r', 'a', 't', 'i', 'o', 'n']) {
        assert forall|i: int| 0 <= i < words.len() implies flag_of(#[trigger] words[i]) != Some(Flag::Duration) by {
            assert(words[i] != seq!['-', 'd']);
        }
    }
    if lacks_words(s, seq!['-', 'w'], seq!['-', '-', 'w', 'i', 'd', 't', 'h']) {
        assert forall|i: int| 0 <= i < words.len() implies flag_of(#[trigger] words[i]) != Some(Flag::Width) by {
            assert(words[i] != seq!['-', 'w']);
        }
    }
    if lacks_words(s, seq!['-', 'h'], seq!['-', '-', 'h', 'e', 'i', 'g', 'h', 't']) {
        assert forall|i: int| 0 <= i < words.len() implies flag_of(#[trigger] words[i]) != Some(Flag::Height) by {
            assert(words[i] != seq!['-', 'h']);
        }
    }
    if lacks_words(s, seq!['-', 'c'], seq!['-', '-', 'c', 'o', 'l', 'o', 'r']) {
        assert forall|i: int| 0 <= i < words.len() implies flag_of(#[trigger] words[i]) != Some(Flag::Color) by {
            assert(words[i] != seq!['-', 'c']);
        }
    }
}

} // verus!
