use vstd::prelude::*;

verus! {

/// Nanoseconds in one second.
pub const NANOS_PER_SEC: u32 = 1_000_000_000;

/// Nanoseconds in one millisecond.
pub const NANOS_PER_MILLI: u32 = 1_000_000;

/// The largest number of nanoseconds that a span can hold, plus one: a
/// span has at most `u64::MAX` whole seconds.
pub open spec fn nanos_limit() -> int {
    (u64::MAX + 1) * 1_000_000_000
}

/// A span of time, as whole seconds and the nanoseconds below one second,
/// in the same way as a standard `Duration`.
#[derive(Clone, Copy, Debug, PartialEq, Eq, Structural)]
pub struct Duration {
    pub(crate) secs: u64,
    pub(crate) nanos: u32,
}

impl Duration {
    /// The whole seconds.
    pub closed spec fn secs(self) -> nat {
        self.secs as nat
    }

    /// The nanoseconds below one second.
    pub closed spec fn subsec(self) -> nat {
        self.nanos as nat
    }

    /// The span in nanoseconds.
    pub open spec fn total_nanos(self) -> nat {
        self.secs() * 1_000_000_000 + self.subsec()
    }

    /// The span in whole milliseconds, rounded down.
    pub open spec fn millis(self) -> nat {
        self.secs() * 1000 + self.subsec() / 1_000_000
    }

    /// The span of the given whole seconds and nanoseconds; nanoseconds of a
    /// second or more carry into the seconds, as `Duration::new` does.
    pub fn new(secs: u64, nanos: u32) -> (d: Duration)
        requires
            secs + nanos / 1_000_000_000 <= u64::MAX,
        ensures
            d.secs() == secs + nanos / 1_000_000_000,
            d.subsec() == nanos % 1_000_000_000,
            d.subsec() < 1_000_000_000,
            d.total_nanos() == secs * 1_000_000_000 + nanos,
    {
        Duration { secs: secs + (nanos / NANOS_PER_SEC) as u64, nanos: nanos % NANOS_PER_SEC }
    }

    /// A span of the given number of milliseconds.
    pub fn from_millis(ms: u64) -> (d: Duration)
        ensures
            d.secs() == ms / 1000,
            d.subsec() == (ms % 1000) * 1_000_000,
            d.subsec() < 1_000_000_000,
            d.millis() == ms,
            d.total_nanos() == ms * 1_000_000,
    {
        Duration { secs: ms / 1000, nanos: ((ms % 1000) as u32) * NANOS_PER_MILLI }
    }

    /// A span of the given number of nanoseconds, which fits.
    pub fn from_total_nanos(total: u128) -> (d: Duration)
        requires
            total < nanos_limit(),
        ensures
            d.total_nanos() == total,
            d.subsec() < 1_000_000_000,
    {
        proof {
            let t = total as int;
            assert(t == (t / 1_000_000_000) * 1_000_000_000 + t % 1_000_000_000) by (nonlinear_arith);
            assert(t / 1_000_000_000 <= u64::MAX) by (nonlinear_arith)
                requires
                    0 <= t < (u64::MAX + 1) * 1_000_000_000,
            ;
        }
        Duration {
            secs: (total / (NANOS_PER_SEC as u128)) as u64,
            nanos: (total % (NANOS_PER_SEC as u128)) as u32,
        }
    }

    /// The whole seconds.
    pub fn as_secs(&self) -> (r: u64)
        ensures
            r == self.secs(),
    {
        self.secs
    }

    /// The nanoseconds below one second.
    pub fn subsec_nanos(&self) -> (r: u32)
        ensures
            r == self.subsec(),
    {
        self.nanos
    }

    /// The span in whole milliseconds, rounded down.
    pub fn as_millis(&self) -> (r: u128)
        ensures
            r == self.millis(),
    {
        (self.secs as u128) * 1000 + ((self.nanos / NANOS_PER_MILLI) as u128)
    }

    /// The span in nanoseconds.
    pub fn as_nanos(&self) -> (r: u128)
        ensures
            r == self.total_nanos(),
    {
        proof {
            let s = self.secs as int;
            assert(s * 1_000_000_000 <= u64::MAX * 1_000_000_000) by (nonlinear_arith)
                requires
                    0 <= s <= u64::MAX,
            ;
        }
        (self.secs as u128) * (NANOS_PER_SEC as u128) + (self.nanos as u128)
    }
}

/// The whole milliseconds of a span are its nanoseconds divided by a
/// million, rounded down.
pub proof fn lemma_millis_of_nanos(d: Duration)
    ensures
        d.millis() == d.total_nanos() / 1_000_000,
        0 <= d.millis() <= d.total_nanos(),
{
    assert(d.secs() * 1_000_000_000 == (d.secs() * 1000) * 1_000_000) by (nonlinear_arith);
    assert((d.secs() * 1000 * 1_000_000 + d.subsec()) / 1_000_000 == d.secs() * 1000 + d.subsec()
        / 1_000_000) by (nonlinear_arith);
}

/// A span holds fewer nanoseconds than the limit plus one second.
pub proof fn lemma_nanos_bounded(d: Duration)
    ensures
        d.total_nanos() <= u64::MAX * 1_000_000_000 + u32::MAX,
{
    let s = d.secs() as int;
    assert(s * 1_000_000_000 <= u64::MAX * 1_000_000_000) by (nonlinear_arith)
        requires
            0 <= s <= u64::MAX,
    ;
}

/// The nanoseconds of a sequence of spans, added up.
pub open spec fn sum_nanos(ds: Seq<Duration>) -> int
    decreases ds.len(),
{
    if ds.len() == 0 {
        0
    } else {
        sum_nanos(ds.drop_last()) + ds.last().total_nanos()
    }
}

/// The spans add up to what one span can hold, so that summing them, as
/// `Iterator::sum` does, does not overflow.
pub open spec fn sum_fits(ds: Seq<Duration>) -> bool {
    sum_nanos(ds) < nanos_limit()
}

/// A sum over a prefix is at most the sum over the whole sequence.
pub proof fn lemma_sum_prefix(ds: Seq<Duration>, k: int)
    requires
        0 <= k <= ds.len(),
    ensures
        0 <= sum_nanos(ds.take(k)) <= sum_nanos(ds),
    decreases ds.len() - k,
{
    if k < ds.len() {
        lemma_sum_prefix(ds, k + 1);
        assert(ds.take(k + 1).drop_last() =~= ds.take(k));
    } else {
        assert(ds.take(k) =~= ds);
    }
    lemma_sum_nonneg(ds.take(k));
}

/// A sum of spans is never negative.
pub proof fn lemma_sum_nonneg(ds: Seq<Duration>)
    ensures
        sum_nanos(ds) >= 0,
    decreases ds.len(),
{
    if ds.len() > 0 {
        lemma_sum_nonneg(ds.drop_last());
    }
}

/// The sum of the spans, as `delays.iter().sum()` computes it.
pub fn sum_durations(ds: &Vec<Duration>) -> (total: Duration)
    requires
        sum_fits(ds@),
    ensures
        total.total_nanos() == sum_nanos(ds@),
        total.subsec() < 1_000_000_000,
{
    let mut acc: u128 = 0;
    for i in 0..ds.len()
        invariant
            sum_fits(ds@),
            acc == sum_nanos(ds@.take(i as int)),
    {
        proof {
            assert(ds@.take(i + 1).drop_last() =~= ds@.take(i as int));
            lemma_sum_prefix(ds@, i + 1);
        }
        acc = acc + ds[i].as_nanos();
    }
    proof {
        assert(ds@.take(ds@.len() as int) =~= ds@);
    }
    Duration::from_total_nanos(acc)
}

// ---------------------------------------------------------------------
//  The monotonic clock
// ---------------------------------------------------------------------

#[verifier::external_type_specification]
#[verifier::external_body]
pub struct ExInstant(std::time::Instant);

/// `Clone::clone` of `Instant`: `Instant` is `Copy`, and its clone is a
/// copy of the same reading.
pub assume_specification[ <std::time::Instant as std::clone::Clone>::clone ](
    i: &std::time::Instant,
) -> (r: std::time::Instant)
    ensures
        r == *i,
;

/// `Instant::now`: a reading of the monotonic clock. Nothing is claimed of
/// the value: it depends on when the call is made.
#[verifier::external_body]
pub(crate) fn instant_now() -> std::time::Instant {
    std::time::Instant::now()
}

/// `Instant::elapsed`: the time passed since `start`, as seconds and
/// subsecond nanoseconds. It depends on when the call is made; the only
/// claim is the one std documents of every `Duration`, that the subsecond
/// part is below one second.
#[verifier::external_body]
pub(crate) fn elapsed_since(start: &std::time::Instant) -> (d: Duration)
    ensures
        d.subsec() < 1_000_000_000,
{
    let e = start.elapsed();
    Duration { secs: e.as_secs(), nanos: e.subsec_nanos() }
}

} // verus!
