use vstd::prelude::*;

use crate::decoder::durations_fit;
use crate::error::MemeBlinkError;
use crate::time::{
    elapsed_since, instant_now, lemma_millis_of_nanos, lemma_sum_prefix, sum_durations, sum_fits,
    sum_nanos, Duration,
};

verus! {

/// One picture, as `width` by `height` pixels packed as `0xAARRGGBB`,
/// row by row.
#[derive(Debug, Clone)]
pub struct TextureFrame {
    pub width: u32,
    pub height: u32,
    pub pixels: Vec<u32>,
}

/// A picture to show: a still image, or an animation that loops over its
/// frames, each frame shown for its delay.
#[derive(Debug, Clone)]
pub enum MediaAsset {
    Static(TextureFrame),
    Animated {
        frames: Vec<TextureFrame>,
        delays: Vec<Duration>,
        total_duration: Duration,
        start_time: std::time::Instant,
    },
}

/// The delays in whole milliseconds.
pub open spec fn delays_ms(delays: Seq<Duration>) -> Seq<int> {
    delays.map_values(|d: Duration| d.millis() as int)
}

/// Which of the consecutive slots, of the given lengths, the instant `m`
/// falls in, counting from the start of the first slot; `None` when `m`
/// lies past the last one.
pub open spec fn slot_of(lengths: Seq<int>, m: int) -> Option<nat>
    decreases lengths.len(),
{
    if lengths.len() == 0 {
        None
    } else if m < lengths[0] {
        Some(0)
    } else {
        match slot_of(lengths.drop_first(), m - lengths[0]) {
            Some(k) => Some(k + 1),
            None => None,
        }
    }
}

/// The point in one pass of an animation of the given length in
/// milliseconds that `elapsed_ms` milliseconds after its start falls on.
pub open spec fn loop_position(elapsed_ms: int, total_ms: int) -> int {
    if total_ms > 0 {
        elapsed_ms % total_ms
    } else {
        0
    }
}

/// The index of the frame of an animation shown `elapsed_ms` milliseconds
/// after its start: the slot that the position in the loop falls in, or
/// the first frame when it falls in none.
pub open spec fn frame_index(delays: Seq<Duration>, total: Duration, elapsed_ms: int) -> int {
    match slot_of(delays_ms(delays), loop_position(elapsed_ms, total.millis() as int)) {
        Some(k) => k as int,
        None => 0,
    }
}

/// The numbers added up.
pub open spec fn seq_sum(xs: Seq<int>) -> int
    decreases xs.len(),
{
    if xs.len() == 0 {
        0
    } else {
        seq_sum(xs.drop_last()) + xs.last()
    }
}

/// The whole milliseconds of spans add up to at most their nanoseconds.
pub proof fn lemma_ms_sum_bounded(ds: Seq<Duration>)
    ensures
        0 <= seq_sum(delays_ms(ds)) <= sum_nanos(ds),
    decreases ds.len(),
{
    if ds.len() > 0 {
        lemma_ms_sum_bounded(ds.drop_last());
        assert(delays_ms(ds).drop_last() =~= delays_ms(ds.drop_last()));
        lemma_millis_of_nanos(ds.last());
    }
}

/// A slot found is one of the slots.
pub proof fn lemma_slot_in_bounds(lengths: Seq<int>, m: int)
    ensures
        slot_of(lengths, m) matches Some(k) ==> k < lengths.len(),
    decreases lengths.len(),
{
    if lengths.len() > 0 && m >= lengths[0] {
        lemma_slot_in_bounds(lengths.drop_first(), m - lengths[0]);
    }
}

/// Where `m` falls among the slots, counted from slot `i` on, after the
/// slots before `i` have been passed.
pub open spec fn shifted(slot: Option<nat>, i: int) -> Option<nat> {
    match slot {
        Some(k) => Some((k + i) as nat),
        None => None,
    }
}

/// The slot that the millisecond `m` falls in among the delays, found by
/// adding the delays up from the first one.
fn find_slot(delays: &Vec<Duration>, m: u128) -> (r: Option<usize>)
    requires
        sum_fits(delays@),
    ensures
        r matches Some(k) ==> slot_of(delays_ms(delays@), m as int) == Some(k as nat) && k
            < delays@.len(),
        r is None ==> slot_of(delays_ms(delays@), m as int) is None,
{
    let ghost lens = delays_ms(delays@);
    let mut current_sum: u128 = 0;
    proof {
        assert(lens.skip(0) =~= lens);
        lemma_ms_sum_bounded(delays@);
    }
    for i in 0..delays.len()
        invariant
            lens == delays_ms(delays@),
            sum_fits(delays@),
            current_sum == seq_sum(lens.take(i as int)),
            current_sum <= m,
            slot_of(lens, m as int) == shifted(slot_of(lens.skip(i as int), m - current_sum), i as int),
    {
        proof {
            assert(lens.take(i + 1).drop_last() =~= lens.take(i as int));
            assert(lens.skip(i as int).drop_first() =~= lens.skip(i + 1));
            assert(delays_ms(delays@.take(i + 1)) =~= lens.take(i + 1));
            lemma_ms_sum_bounded(delays@.take(i + 1));
            lemma_sum_prefix(delays@, i + 1);
        }
        current_sum = current_sum + delays[i].as_millis();
        if m < current_sum {
            return Some(i);
        }
    }
    None
}

impl MediaAsset {
    /// An animation has at least one frame, and its total duration is the
    /// sum of its delays.
    pub open spec fn wf(&self) -> bool {
        match self {
            MediaAsset::Static(_) => true,
            MediaAsset::Animated { frames, delays, total_duration, .. } => {
                &&& frames@.len() > 0
                &&& sum_fits(delays@)
                &&& total_duration.total_nanos() == sum_nanos(delays@)
            },
        }
    }

    /// The frame shown `elapsed_ms` milliseconds after the animation
    /// started; a still image, or an animation of one frame, always shows
    /// that frame.
    pub open spec fn frame_at(&self, elapsed_ms: int) -> TextureFrame {
        match self {
            MediaAsset::Static(frame) => *frame,
            MediaAsset::Animated { frames, delays, total_duration, .. } => {
                if frames@.len() == 1 {
                    frames@[0]
                } else {
                    frames@[frame_index(delays@, *total_duration, elapsed_ms)]
                }
            },
        }
    }

    /// The frame looked up `elapsed_ms` milliseconds after the start is
    /// one the animation has: the delays do not point past the frames.
    pub open spec fn in_range_at(&self, elapsed_ms: int) -> bool {
        match self {
            MediaAsset::Static(_) => true,
            MediaAsset::Animated { frames, delays, total_duration, .. } => {
                frames@.len() == 1 || frame_index(delays@, *total_duration, elapsed_ms)
                    < frames@.len()
            },
        }
    }

    /// At every moment the frame looked up is one the animation has.
    pub open spec fn in_range(&self) -> bool {
        forall|e: int| e >= 0 ==> #[trigger] self.in_range_at(e)
    }

    /// The same picture: the same still image, or the same frames, delays
    /// and total duration, whenever the animation started.
    pub open spec fn same_media(&self, other: &MediaAsset) -> bool {
        match (self, other) {
            (MediaAsset::Static(a), MediaAsset::Static(b)) => a == b,
            (
                MediaAsset::Animated { frames: f1, delays: d1, total_duration: t1, .. },
                MediaAsset::Animated { frames: f2, delays: d2, total_duration: t2, .. },
            ) => f1@ == f2@ && d1@ == d2@ && t1 == t2,
            _ => false,
        }
    }

    /// There is a frame for every delay, so that no lookup points past the
    /// frames: a still image, an animation of one frame, or one with at
    /// most as many delays as frames.
    pub open spec fn frame_per_delay(&self) -> bool {
        match self {
            MediaAsset::Static(_) => true,
            MediaAsset::Animated { frames, delays, .. } => frames@.len() == 1 || delays@.len()
                <= frames@.len(),
        }
    }

    /// With a frame for every delay, every lookup stays in range.
    pub proof fn lemma_frame_per_delay_in_range(&self)
        requires
            self.wf(),
            self.frame_per_delay(),
        ensures
            self.in_range(),
    {
        assert forall|e: int| e >= 0 implies #[trigger] self.in_range_at(e) by {
            if let MediaAsset::Animated { frames, delays, total_duration, .. } = self {
                if frames@.len() != 1 {
                    lemma_slot_in_bounds(
                        delays_ms(delays@),
                        loop_position(e, total_duration.millis() as int),
                    );
                }
            }
        }
    }

    /// Whether there is a frame for every delay.
    pub fn has_frame_per_delay(&self) -> (r: bool)
        ensures
            r == self.frame_per_delay(),
            r && self.wf() ==> self.in_range(),
    {
        proof {
            if self.frame_per_delay() && self.wf() {
                self.lemma_frame_per_delay_in_range();
            }
        }
        match self {
            MediaAsset::Static(_) => true,
            MediaAsset::Animated { frames, delays, .. } => frames.len() == 1 || delays.len()
                <= frames.len(),
        }
    }

    /// A still image.
    pub fn new_static(frame: TextureFrame) -> (r: Self)
        ensures
            r == MediaAsset::Static(frame),
            r.wf(),
    {
        MediaAsset::Static(frame)
    }

    /// An animation of the given frames and delays, starting now. Fails
    /// when there is no frame.
    pub fn new_animated(frames: Vec<TextureFrame>, delays: Vec<Duration>) -> (r: Result<
        Self,
        MemeBlinkError,
    >)
        requires
            frames@.len() > 0 ==> sum_fits(delays@),
        ensures
            frames@.len() == 0 <==> r is Err,
            r matches Err(e) ==> e matches MemeBlinkError::DecodeError(msg) && msg@
                == "Animation contains no frame"@,
            r matches Ok(a) ==> a.wf() && (a matches MediaAsset::Animated {
                frames: f,
                delays: d,
                ..
            } && f@ == frames@ && d@ == delays@),
    {
        if frames.len() == 0 {
            return Err(MemeBlinkError::DecodeError(String::from_str("Animation contains no frame")));
        }
        let total_duration = sum_durations(&delays);
        Ok(MediaAsset::Animated { frames, delays, total_duration, start_time: instant_now() })
    }

    /// The frame shown when `elapsed` has passed since the animation
    /// started.
    pub fn frame_at_elapsed(&self, elapsed: Duration) -> (r: &TextureFrame)
        requires
            self.wf(),
            self.in_range_at(elapsed.millis() as int),
        ensures
            *r == self.frame_at(elapsed.millis() as int),
    {
        match self {
            MediaAsset::Static(frame) => frame,
            MediaAsset::Animated { frames, delays, total_duration, .. } => {
                if frames.len() == 1 {
                    return &frames[0];
                }
                let total_ms = total_duration.as_millis();
                let modulo_ms: u128 = if total_ms > 0 {
                    elapsed.as_millis() % total_ms
                } else {
                    0
                };
                match find_slot(delays, modulo_ms) {
                    Some(i) => &frames[i],
                    None => &frames[0],
                }
            },
        }
    }

    /// The frame to show now.
    pub fn current_frame(&self) -> (r: &TextureFrame)
        requires
            self.wf(),
            self.in_range(),
        ensures
            exists|e: int| e >= 0 && #[trigger] self.frame_at(e) == *r,
            self matches MediaAsset::Static(f) ==> *r == f,
            self matches MediaAsset::Animated { frames, .. } ==> (frames@.len() == 1 ==> *r
                == frames@[0]),
    {
        match self {
            MediaAsset::Static(frame) => {
                assert(self.frame_at(0) == *frame);
                frame
            },
            MediaAsset::Animated { frames, start_time, .. } => {
                if frames.len() == 1 {
                    assert(self.frame_at(0) == frames@[0]);
                    return &frames[0];
                }
                let elapsed = elapsed_since(start_time);
                assert(self.in_range_at(elapsed.millis() as int));
                self.frame_at_elapsed(elapsed)
            },
        }
    }

    /// What starting an animation over keeps: the same picture, its
    /// well-formedness, and a still image exactly as it was.
    pub open spec fn reset_of(&self, before: &MediaAsset) -> bool {
        &&& self.same_media(before)
        &&& before.wf() ==> self.wf()
        &&& before matches MediaAsset::Static(_) ==> *self == *before
    }

    /// Whether the asset is well formed: an animation has a frame, and its
    /// total duration is the sum of its delays, which fits in a span.
    pub fn is_wf(&self) -> (r: bool)
        ensures
            r == self.wf(),
    {
        match self {
            MediaAsset::Static(_) => true,
            MediaAsset::Animated { frames, delays, total_duration, .. } => {
                frames.len() > 0 && durations_fit(delays) && sum_durations(delays).as_nanos()
                    == total_duration.as_nanos()
            },
        }
    }

    /// Starts an animation over from its first frame; a still image is
    /// left as it is.
    pub fn reset(&mut self)
        ensures
            final(self).reset_of(old(self)),
    {
        if let MediaAsset::Animated { start_time, .. } = self {
            *start_time = instant_now();
        }
    }
}


/// A still image stays that image, and shows its frame at every moment,
/// however many times it is started over: `states` are the asset after
/// each of a run of resets.
pub proof fn lemma_still_after_resets(states: Seq<MediaAsset>, f: TextureFrame, elapsed_ms: int)
    requires
        states.len() > 0,
        states[0] == MediaAsset::Static(f),
        forall|i: int| 1 <= i < states.len() ==> #[trigger] states[i].reset_of(&states[i - 1]),
    ensures
        forall|i: int| 0 <= i < states.len() ==> #[trigger] states[i] == MediaAsset::Static(f),
        forall|i: int| 0 <= i < states.len() ==> #[trigger] states[i].frame_at(elapsed_ms) == f,
    decreases states.len(),
{
    if states.len() > 1 {
        let init = states.drop_last();
        assert forall|i: int| 1 <= i < init.len() implies #[trigger] init[i].reset_of(&init[i - 1]) by {
            assert(states[i].reset_of(&states[i - 1]));
        }
        lemma_still_after_resets(init, f, elapsed_ms);
        let n = states.len() - 1;
        assert(init[n - 1] == MediaAsset::Static(f));
        assert(states[n].reset_of(&states[n - 1]));
        assert forall|i: int| 0 <= i < states.len() implies #[trigger] states[i] == MediaAsset::Static(f) by {
            if i < n {
                assert(init[i] == MediaAsset::Static(f));
            }
        }
        assert forall|i: int| 0 <= i < states.len() implies #[trigger] states[i].frame_at(elapsed_ms) == f by {
            assert(states[i] == MediaAsset::Static(f));
        }
    } else {
        assert forall|i: int| 0 <= i < states.len() implies #[trigger] states[i].frame_at(elapsed_ms) == f by {
            assert(states[i] == MediaAsset::Static(f));
        }
    }
}

/// An animation loops: the frame shown at any moment is shown again one
/// total duration later.
pub proof fn lemma_frame_periodic(a: MediaAsset, elapsed_ms: int)
    requires
        a.wf(),
    ensures
        a matches MediaAsset::Animated { total_duration, .. } ==> (total_duration.millis() > 0
            ==> a.frame_at(elapsed_ms + total_duration.millis()) == a.frame_at(elapsed_ms)),
{
    if let MediaAsset::Animated { total_duration, .. } = a {
        let t = total_duration.millis() as int;
        if t > 0 {
            vstd::arithmetic::div_mod::lemma_mod_add_multiples_vanish(elapsed_ms, t);
            assert(loop_position(elapsed_ms + t, t) == loop_position(elapsed_ms, t));
        }
    }
}

/// Two assets of the same picture show the same frame at every moment,
/// and point past their frames at the same moments: starting an animation
/// over changes neither.
pub proof fn lemma_same_media_same_frames(a: MediaAsset, b: MediaAsset, elapsed_ms: int)
    requires
        a.same_media(&b),
    ensures
        a.frame_at(elapsed_ms) == b.frame_at(elapsed_ms),
        a.in_range_at(elapsed_ms) == b.in_range_at(elapsed_ms),
        a.wf() == b.wf(),
{
}

/// The frame shown at a moment when the lookup stays in range is one of
/// the asset's frames.
pub proof fn lemma_frame_is_a_frame(a: MediaAsset, elapsed_ms: int)
    requires
        a.wf(),
        a.in_range_at(elapsed_ms),
    ensures
        a matches MediaAsset::Animated { frames, .. } ==> exists|i: int|
            0 <= i < frames@.len() && frames@[i] == #[trigger] a.frame_at(elapsed_ms),
{
    if let MediaAsset::Animated { frames, delays, total_duration, .. } = a {
        if frames@.len() == 1 {
            assert(frames@[0] == a.frame_at(elapsed_ms));
        } else {
            let i = frame_index(delays@, total_duration, elapsed_ms);
            assert(0 <= i < frames@.len());
            assert(frames@[i] == a.frame_at(elapsed_ms));
        }
    }
}


/// A sum of numbers is the first one plus the sum of the rest.
proof fn lemma_sum_first(xs: Seq<int>)
    requires
        xs.len() > 0,
    ensures
        seq_sum(xs) == xs[0] + seq_sum(xs.drop_first()),
    decreases xs.len(),
{
    if xs.len() == 1 {
        assert(xs.drop_last() =~= Seq::<int>::empty());
        assert(xs.drop_first() =~= Seq::<int>::empty());
    } else {
        lemma_sum_first(xs.drop_last());
        assert(xs.drop_first().drop_last() =~= xs.drop_last().drop_first());
        assert(xs.drop_first().last() == xs.last());
    }
}

/// A sum of numbers none of which is negative is not negative.
proof fn lemma_sum_nonneg_ints(xs: Seq<int>)
    requires
        forall|i: int| 0 <= i < xs.len() ==> xs[i] >= 0,
    ensures
        seq_sum(xs) >= 0,
    decreases xs.len(),
{
    if xs.len() > 0 {
        lemma_sum_nonneg_ints(xs.drop_last());
    }
}

/// The instant `m` falls in slot `k` when it lies at or past the end of
/// the slots before `k` and before the end of slot `k`.
proof fn lemma_slot_by_sums(ls: Seq<int>, m: int, k: int)
    requires
        0 <= k < ls.len(),
        forall|i: int| 0 <= i < ls.len() ==> ls[i] >= 0,
        seq_sum(ls.take(k)) <= m < seq_sum(ls.take(k + 1)),
    ensures
        slot_of(ls, m) == Some(k as nat),
    decreases k,
{
    lemma_sum_first(ls.take(k + 1));
    if k == 0 {
        assert(ls.take(1).drop_first() =~= Seq::<int>::empty());
    } else {
        let rest = ls.drop_first();
        assert(ls.take(k + 1).drop_first() =~= rest.take(k));
        lemma_sum_first(ls.take(k));
        assert(ls.take(k).drop_first() =~= rest.take(k - 1));
        let front = rest.take(k - 1);
        assert forall|i: int| 0 <= i < front.len() implies #[trigger] front[i] >= 0 by {
            assert(front[i] == ls[i + 1]);
        }
        lemma_sum_nonneg_ints(front);
        assert forall|i: int| 0 <= i < rest.len() implies #[trigger] rest[i] >= 0 by {
            assert(rest[i] == ls[i + 1]);
        }
        lemma_slot_by_sums(rest, m - ls[0], k - 1);
    }
}

/// Which frame an animation shows: at `elapsed_ms` milliseconds after its
/// start, the position in the loop is `elapsed_ms` modulo the total
/// duration, and the frame shown is frame `k` when that position lies
/// between the sum of the delays before frame `k` and that sum plus the
/// delay of frame `k`, in whole milliseconds.
pub proof fn lemma_frame_by_delays(a: MediaAsset, elapsed_ms: int, k: int)
    requires
        a matches MediaAsset::Animated { frames, delays, total_duration, .. } && {
            let ms = delays_ms(delays@);
            let pos = elapsed_ms % (total_duration.millis() as int);
            &&& frames@.len() > 1
            &&& total_duration.millis() > 0
            &&& 0 <= k < delays@.len()
            &&& seq_sum(ms.take(k)) <= pos < seq_sum(ms.take(k + 1))
        },
    ensures
        a matches MediaAsset::Animated { frames, .. } && a.frame_at(elapsed_ms) == frames@[k],
{
    if let MediaAsset::Animated { frames, delays, total_duration, .. } = a {
        let ms = delays_ms(delays@);
        let pos = elapsed_ms % (total_duration.millis() as int);
        assert forall|i: int| 0 <= i < ms.len() implies #[trigger] ms[i] >= 0 by {
            assert(ms[i] == delays@[i].millis() as int);
        }
        lemma_slot_by_sums(ms, pos, k);
        assert(loop_position(elapsed_ms, total_duration.millis() as int) == pos);
        assert(frame_index(delays@, total_duration, elapsed_ms) == k);
    }
}

} // verus!
