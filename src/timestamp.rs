use vstd::prelude::*;

verus! {

/// Nanoseconds in one second.
pub const NANOS_PER_SEC: u32 = 1_000_000_000;

/// Nanoseconds in one millisecond.
pub const NANOS_PER_MILLI: u32 = 1_000_000;

/// An instant in UTC, as whole seconds since the Unix epoch and the
/// nanoseconds past that second.
#[derive(Clone, Copy, Debug, PartialEq, Eq, Structural)]
pub struct Timestamp {
    secs: i64,
    nanos: u32,
}

/// Milliseconds since the epoch of the instant `secs` seconds and `nanos`
/// nanoseconds after it, sub-millisecond part dropped.
pub open spec fn millis_of(secs: int, nanos: int) -> int {
    secs * 1000 + nanos / 1_000_000
}

impl Timestamp {
    pub closed spec fn spec_secs(&self) -> int {
        self.secs as int
    }

    pub closed spec fn spec_nanos(&self) -> int {
        self.nanos as int
    }

    /// Milliseconds since the epoch.
    pub open spec fn millis(&self) -> int {
        millis_of(self.spec_secs(), self.spec_nanos())
    }

    /// The nanoseconds lie within one second and the instant has a
    /// millisecond count that fits an `i64`.
    pub open spec fn wf(&self) -> bool {
        &&& 0 <= self.spec_nanos() < NANOS_PER_SEC
        &&& i64::MIN <= self.millis() <= i64::MAX
    }

    pub fn secs(&self) -> (r: i64)
        ensures
            r == self.spec_secs(),
    {
        self.secs
    }

    pub fn subsec_nanos(&self) -> (r: u32)
        ensures
            r == self.spec_nanos(),
    {
        self.nanos
    }

    /// The instant `secs` seconds and `nanos` nanoseconds after the epoch;
    /// `None` when `nanos` is a second or more, or when the instant has no
    /// millisecond count in `i64`.
    pub fn from_parts(secs: i64, nanos: u32) -> (r: Option<Timestamp>)
        ensures
            r is Some <==> (nanos < NANOS_PER_SEC && i64::MIN <= millis_of(secs as int, nanos as int)
                <= i64::MAX),
            r matches Some(t) ==> t.wf() && t.spec_secs() == secs && t.spec_nanos() == nanos,
    {
        if nanos >= NANOS_PER_SEC {
            return None;
        }
        let ms: i128 = (secs as i128) * 1000 + ((nanos / NANOS_PER_MILLI) as i128);
        if ms < (i64::MIN as i128) || ms > (i64::MAX as i128) {
            return None;
        }
        Some(Timestamp { secs, nanos })
    }

    /// The instant `ms` milliseconds after the epoch.
    pub fn from_millis(ms: i64) -> (r: Timestamp)
        ensures
            r.wf(),
            r.millis() == ms,
            r.spec_secs() == (ms as int) / 1000,
            r.spec_nanos() == ((ms as int) % 1000) * 1_000_000,
    {
        let q: i64;
        let rem: i64;
        if ms >= 0 {
            q = ms / 1000;
            rem = ms % 1000;
        } else {
            let neg: i128 = -(ms as i128);
            let up: i128 = (neg + 999) / 1000;
            q = (-up) as i64;
            rem = (ms as i128 + up * 1000) as i64;
            assert(q as int == (ms as int) / 1000 && rem as int == (ms as int) % 1000)
                by (nonlinear_arith)
                requires
                    ms < 0,
                    neg == -ms,
                    up == (neg + 999) / 1000,
                    q == -up,
                    rem == ms + up * 1000,
            ;
        }
        let nanos: u32 = (rem as u32) * NANOS_PER_MILLI;
        Timestamp { secs: q, nanos }
    }

    /// Milliseconds since the epoch, sub-millisecond part dropped.
    pub fn timestamp_millis(&self) -> (r: i64)
        requires
            self.wf(),
        ensures
            r == self.millis(),
    {
        let ms: i128 = (self.secs as i128) * 1000 + ((self.nanos / NANOS_PER_MILLI) as i128);
        ms as i64
    }
}

/// Reading an instant's millisecond count back as an instant gives the same
/// second and the nanoseconds cut down to whole milliseconds; together with
/// `Timestamp::from_millis`, a millisecond count survives the round trip.
pub proof fn lemma_millis_round_trip(t: Timestamp)
    requires
        t.wf(),
    ensures
        t.millis() / 1000 == t.spec_secs(),
        (t.millis() % 1000) * 1_000_000 == t.spec_nanos() - t.spec_nanos() % 1_000_000,
{
    let s = t.spec_secs();
    let n = t.spec_nanos();
    assert(0 <= n / 1_000_000 < 1000);
    assert((s * 1000 + n / 1_000_000) / 1000 == s && (s * 1000 + n / 1_000_000) % 1000 == n
        / 1_000_000) by (nonlinear_arith)
        requires
            0 <= n / 1_000_000 < 1000,
    ;
    assert(n == (n / 1_000_000) * 1_000_000 + n % 1_000_000) by (nonlinear_arith);
}

} // verus!
