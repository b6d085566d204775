//! Instants and elapsed time.
use vstd::prelude::*;

verus! {

/// An instant: whole seconds since the Unix epoch and the nanoseconds
/// into that second. Instants are ordered by the seconds first and by the
/// nanoseconds among equal seconds.
#[derive(Clone, Copy, Debug, PartialEq, Eq, Structural)]
pub struct Timestamp {
    pub secs: i64,
    pub nanos: u32,
}

/// `t` shifted by `seconds` is not after `now`.
pub open spec fn reached(t: Timestamp, seconds: int, now: Timestamp) -> bool {
    t.secs + seconds < now.secs || (t.secs + seconds == now.secs && t.nanos <= now.nanos)
}

/// `a` is not after `b`.
pub open spec fn at_or_before(a: Timestamp, b: Timestamp) -> bool {
    reached(a, 0, b)
}

impl Timestamp {
    /// Whether this instant is not after `other`.
    pub fn is_at_or_before(&self, other: &Timestamp) -> (r: bool)
        ensures
            r == at_or_before(*self, *other),
    {
        self.secs < other.secs || (self.secs == other.secs && self.nanos <= other.nanos)
    }

    /// Whether at least `seconds` have gone by at `now` since this instant.
    pub fn has_elapsed(&self, seconds: i64, now: &Timestamp) -> (r: bool)
        ensures
            r == reached(*self, seconds as int, *now),
    {
        let due: i128 = self.secs as i128 + seconds as i128;
        let at: i128 = now.secs as i128;
        due < at || (due == at && self.nanos <= now.nanos)
    }

    /// This instant moved by `span`; `None` where the seconds no longer fit
    /// the representation.
    pub fn checked_add_signed(&self, span: &chrono::TimeDelta) -> (r: Option<Timestamp>)
        ensures
            r is Some <==> i64::MIN <= shifted_secs(
                *self,
                delta_seconds(*span),
                delta_subsec_nanos(*span),
            ) <= i64::MAX,
            r is Some ==> r->0.secs == shifted_secs(
                *self,
                delta_seconds(*span),
                delta_subsec_nanos(*span),
            ),
            r is Some ==> r->0.nanos == shifted_nanos(*self, delta_subsec_nanos(*span)),
    {
        let seconds: i64 = delta_num_seconds(span);
        let nanos: i32 = delta_nanos_part(span);
        let total: i64 = self.nanos as i64 + nanos as i64;
        let borrowed: i64 = if total < 0 {
            (999_999_999 - total) / 1_000_000_000
        } else {
            0
        };
        let lifted: i64 = total + borrowed * 1_000_000_000;
        let carry: i64 = lifted / 1_000_000_000 - borrowed;
        let rest: i64 = lifted % 1_000_000_000;
        let sum: i128 = self.secs as i128 + seconds as i128 + carry as i128;
        if sum < i64::MIN as i128 || sum > i64::MAX as i128 {
            None
        } else {
            Some(Timestamp { secs: sum as i64, nanos: rest as u32 })
        }
    }
}

/// The seconds of the instant that lies `seconds` and `nanos` after `t`;
/// they may lie beyond what an instant can hold.
pub open spec fn shifted_secs(t: Timestamp, seconds: int, nanos: int) -> int {
    t.secs + seconds + (t.nanos + nanos) / 1_000_000_000
}

/// The nanoseconds of the instant that lies `nanos` after `t`, within its
/// second.
pub open spec fn shifted_nanos(t: Timestamp, nanos: int) -> int {
    (t.nanos + nanos) % 1_000_000_000
}

/// `chrono::TimeDelta`, a span of time. Its inside is not looked into;
/// what is known of a span is what [`delta_seconds`] and
/// [`delta_subsec_nanos`] say.
#[verifier::external_type_specification]
#[verifier::external_body]
pub struct ExTimeDelta(chrono::TimeDelta);

/// What `chrono::TimeDelta::num_seconds` returns: the whole seconds of the
/// span, negative for a span that points backwards.
pub uninterp spec fn delta_seconds(d: chrono::TimeDelta) -> int;

/// What `chrono::TimeDelta::subsec_nanos` returns: the nanoseconds of the
/// span beyond its whole seconds.
pub uninterp spec fn delta_subsec_nanos(d: chrono::TimeDelta) -> int;

/// `chrono::TimeDelta::seconds`: the span of `seconds` whole seconds.
///
/// The outside function panics beyond `i64::MAX / 1000` seconds in either
/// direction; the precondition keeps those arguments out.
#[verifier::external_body]
pub(crate) fn delta_from_seconds(seconds: i64) -> (d: chrono::TimeDelta)
    requires
        -9_223_372_036_854_775 <= seconds <= 9_223_372_036_854_775,
    ensures
        delta_seconds(d) == seconds,
        delta_subsec_nanos(d) == 0,
{
    chrono::TimeDelta::seconds(seconds)
}

/// `chrono::TimeDelta * i32`, for a span of whole seconds: the span taken
/// `factor` times.
///
/// The outside operator panics unless the seconds of the product lie
/// strictly between `i64::MIN` and `i64::MAX`; the precondition keeps
/// those arguments out.
#[verifier::external_body]
pub(crate) fn delta_times(d: chrono::TimeDelta, factor: i32) -> (r: chrono::TimeDelta)
    requires
        delta_subsec_nanos(d) == 0,
        i64::MIN < delta_seconds(d) * factor < i64::MAX,
    ensures
        delta_seconds(r) == delta_seconds(d) * factor,
        delta_subsec_nanos(r) == 0,
{
    d * factor
}

/// `chrono::TimeDelta::num_seconds`: the whole seconds of the span.
#[verifier::external_body]
pub(crate) fn delta_num_seconds(d: &chrono::TimeDelta) -> (seconds: i64)
    ensures
        seconds == delta_seconds(*d),
{
    d.num_seconds()
}

/// `chrono::TimeDelta::subsec_nanos`: the nanoseconds of the span beyond
/// its whole seconds.
#[verifier::external_body]
pub(crate) fn delta_nanos_part(d: &chrono::TimeDelta) -> (nanos: i32)
    ensures
        nanos == delta_subsec_nanos(*d),
{
    d.subsec_nanos()
}

} // verus!
