//! The moment by which an operation has to be done.
use std::time::{Duration, Instant};
use vstd::prelude::*;

verus! {

/// The standard library's monotonic clock reading.
#[verifier::external_type_specification]
#[verifier::external_body]
pub struct ExInstant(std::time::Instant);

/// `Instant::now`: the present moment. Nothing is claimed of it.
pub assume_specification[ Instant::now ]() -> (now: Instant)
;

/// `Instant::checked_add`: the moment so much later, where the clock can
/// express it. Moments are opaque here, so nothing is claimed of the result.
pub assume_specification[ Instant::checked_add ](moment: &Instant, duration: Duration) -> (sum:
    Option<Instant>)
;

/// `Instant::checked_duration_since`: the time between two moments, where
/// they are in order. Nothing is claimed of the result.
pub assume_specification[ Instant::checked_duration_since ](
    moment: &Instant,
    earlier: Instant,
) -> (between: Option<Duration>)
;

/// `Duration::as_secs`: the whole seconds of a duration. Durations are opaque
/// here, so nothing is claimed of the result.
pub assume_specification[ Duration::as_secs ](duration: &Duration) -> (seconds: u64)
;

/// `Duration::subsec_nanos`: what a duration has beyond its whole seconds, in
/// nanoseconds, which is always less than a second.
pub assume_specification[ Duration::subsec_nanos ](duration: &Duration) -> (nanos: u32)
    ensures
        nanos < 1_000_000_000,
;

/// `Duration::new`: the duration of so many seconds and nanoseconds. It can
/// overflow only where the nanoseconds are a second or more. Durations are
/// opaque here, so nothing is claimed of the result.
pub assume_specification[ Duration::new ](seconds: u64, nanos: u32) -> (duration: Duration)
    requires
        nanos < 1_000_000_000,
;

/// The nanoseconds of a second.
pub const SECOND: u128 = 1_000_000_000;

/// The time that is left at `now` until `expires_at`, where there is any.
/// Moments are nanoseconds of one clock.
pub open spec fn left_at(expires_at: u128, now: u128) -> Option<u128> {
    if now < expires_at {
        Some((expires_at - now) as u128)
    } else {
        None
    }
}

pub fn time_left(expires_at: u128, now: u128) -> (left: Option<u128>)
    ensures
        left == left_at(expires_at, now),
        left matches Some(time) ==> 0 < time <= expires_at,
{
    if now < expires_at {
        Some(expires_at - now)
    } else {
        None
    }
}

/// The time that is left is never nothing, and it runs down with the clock:
/// a later moment leaves less by the time between the two, and what expired
/// once stays expired.
pub proof fn time_left_runs_down(expires_at: u128, earlier: u128, later: u128)
    requires
        earlier <= later,
    ensures
        left_at(expires_at, earlier) != Some(0u128),
        match (left_at(expires_at, earlier), left_at(expires_at, later)) {
            (None, after) => after is None,
            (Some(before), Some(after)) => before - after == later - earlier,
            (Some(before), None) => before <= later - earlier,
        },
{
}

/// Whether a duration has so many nanoseconds.
pub open spec fn lasts(duration: Duration, nanos: u128) -> bool {
    exists|seconds: u64, rest: u32|
        #[trigger] call_ensures(Duration::as_secs, (&duration,), seconds)
            && #[trigger] call_ensures(Duration::subsec_nanos, (&duration,), rest) && nanos
            == seconds * SECOND + rest
}

fn nanos_of(duration: Duration) -> (nanos: u128)
    ensures
        lasts(duration, nanos),
        nanos < (u64::MAX + 1) * SECOND,
{
    let seconds = duration.as_secs();
    let rest = duration.subsec_nanos();
    assert(call_ensures(Duration::as_secs, (&duration,), seconds));
    assert(call_ensures(Duration::subsec_nanos, (&duration,), rest));
    seconds as u128 * SECOND + rest as u128
}

/// Whether a duration was made from so many nanoseconds.
pub open spec fn made_of(duration: Duration, nanos: u128) -> bool {
    call_ensures(Duration::new, ((nanos / SECOND) as u64, (nanos % SECOND) as u32), duration)
}

/// Whether the time that is left is the one of so many nanoseconds.
pub open spec fn tells(left: Option<Duration>, nanos: Option<u128>) -> bool {
    match (left, nanos) {
        (Some(duration), Some(nanos)) => made_of(duration, nanos),
        (None, None) => true,
        _ => false,
    }
}

fn duration_of(nanos: u128) -> (duration: Duration)
    requires
        nanos < (u64::MAX + 1) * SECOND,
    ensures
        made_of(duration, nanos),
{
    Duration::new((nanos / SECOND) as u64, (nanos % SECOND) as u32)
}

#[derive(Debug, Clone, Copy)]
pub struct Deadline {
    started_at: Instant,
    expires_at: Instant,
    /// The nanoseconds between the two.
    allowed: u128,
}

/// Whether these are the nanoseconds that a clock counted since the start. A
/// clock that reads an earlier moment counted none.
pub open spec fn counted(between: Option<Duration>, nanos: u128) -> bool {
    match between {
        Some(duration) => lasts(duration, nanos),
        None => nanos == 0,
    }
}

impl Deadline {
    #[verifier::type_invariant]
    spec fn expressible(self) -> bool {
        self.allowed < (u64::MAX + 1) * SECOND
    }

    pub closed spec fn start(self) -> Instant {
        self.started_at
    }

    pub closed spec fn expiry(self) -> Instant {
        self.expires_at
    }

    /// When it expires, in nanoseconds after its start.
    pub closed spec fn span(self) -> u128 {
        self.allowed
    }

    /// Whether this is the deadline of a timeout that started `now`: `sum` is
    /// the moment so much later. A timeout that no moment can express ends at
    /// once.
    pub open spec fn starts(self, now: Instant, timeout: Duration, sum: Option<Instant>) -> bool {
        &&& self.start() == now
        &&& match sum {
            Some(moment) => self.expiry() == moment && lasts(timeout, self.span()),
            None => self.expiry() == now && self.span() == 0,
        }
    }

    /// The deadline at the end of a timeout that starts now.
    pub fn after(timeout: Duration) -> (deadline: Self)
        ensures
            exists|now: Instant, sum: Option<Instant>|
                call_ensures(Instant::now, (), now) && #[trigger] call_ensures(
                    Instant::checked_add,
                    (&now, timeout),
                    sum,
                ) && deadline.starts(now, timeout, sum),
    {
        let now = Instant::now();
        let sum = now.checked_add(timeout);
        assert(call_ensures(Instant::checked_add, (&now, timeout), sum));
        match sum {
            Some(moment) => Deadline {
                started_at: now,
                expires_at: moment,
                allowed: nanos_of(timeout),
            },
            None => Deadline { started_at: now, expires_at: now, allowed: 0 },
        }
    }

    /// The time that is left `elapsed` nanoseconds after the start, where
    /// there is any.
    pub fn remaining_after(self, elapsed: u128) -> (left: Option<Duration>)
        ensures
            tells(left, left_at(self.span(), elapsed)),
    {
        proof {
            use_type_invariant(&self);
        }
        match time_left(self.allowed, elapsed) {
            Some(nanos) => Some(duration_of(nanos)),
            None => None,
        }
    }

    /// The time that is left now, where there is any.
    pub fn remaining(self) -> (left: Option<Duration>)
        ensures
            exists|now: Instant, between: Option<Duration>, elapsed: u128|
                call_ensures(Instant::now, (), now) && #[trigger] call_ensures(
                    Instant::checked_duration_since,
                    (&now, self.start()),
                    between,
                ) && #[trigger] counted(between, elapsed) && tells(left, left_at(self.span(), elapsed)),
    {
        let now = Instant::now();
        let between = now.checked_duration_since(self.started_at);
        assert(call_ensures(Instant::checked_duration_since, (&now, self.start()), between));
        let elapsed: u128 = match between {
            Some(duration) => nanos_of(duration),
            None => 0,
        };
        assert(counted(between, elapsed));
        self.remaining_after(elapsed)
    }

    pub fn expires_at(self) -> (moment: Instant)
        ensures
            moment == self.expiry(),
    {
        self.expires_at
    }
}

} // verus!
