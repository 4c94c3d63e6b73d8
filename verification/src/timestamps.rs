//! RFC 3339 timestamps: which of two is later, the latest of several, and
//! the time that has passed between two of them.
use vstd::prelude::*;

use crate::text::{text_less, text_lt};

verus! {

// ---------------------------------------------------------------------------
// Instants
// ---------------------------------------------------------------------------

/// The instant an RFC 3339 timestamp names: whole seconds since the Unix
/// epoch and the nanoseconds past them, or `None` where the text is no
/// RFC 3339 timestamp.
pub uninterp spec fn rfc3339_instant(text: Seq<char>) -> Option<(i64, u32)>;

/// Reads a timestamp with `chrono::DateTime::parse_from_rfc3339`, then its
/// instant with `timestamp` and `timestamp_subsec_nanos`. Claimed: the
/// result depends on the text alone (the text carries its own offset); it
/// is named `rfc3339_instant`.
#[verifier::external_body]
pub(crate) fn parse_rfc3339_instant(text: &str) -> (r: Option<(i64, u32)>)
    ensures
        r == rfc3339_instant(text@),
{
    match chrono::DateTime::parse_from_rfc3339(text) {
        Ok(t) => Some((t.timestamp(), t.timestamp_subsec_nanos())),
        Err(_) => None,
    }
}

/// `a` comes strictly before `b`.
pub open spec fn instant_lt(a: (i64, u32), b: (i64, u32)) -> bool {
    a.0 < b.0 || (a.0 == b.0 && a.1 < b.1)
}

/// Nanoseconds from `start` to `end` (negative when `end` is earlier).
pub open spec fn nanos_between(start: (i64, u32), end: (i64, u32)) -> int {
    (end.0 - start.0) * 1_000_000_000 + (end.1 - start.1)
}

/// `candidate` is later than `current`: by the instants where both are
/// RFC 3339 timestamps, else by the text.
pub open spec fn later_than(
    candidate_instant: Option<(i64, u32)>,
    current_instant: Option<(i64, u32)>,
    candidate: Seq<char>,
    current: Seq<char>,
) -> bool {
    match (candidate_instant, current_instant) {
        (Some(a), Some(b)) => instant_lt(b, a),
        _ => text_lt(current, candidate),
    }
}

pub open spec fn timestamp_after_spec(candidate: Seq<char>, current: Seq<char>) -> bool {
    later_than(rfc3339_instant(candidate), rfc3339_instant(current), candidate, current)
}

/// Decides which of two timestamps is later once they have been read.
pub fn timestamp_after_instants(
    candidate_instant: Option<(i64, u32)>,
    current_instant: Option<(i64, u32)>,
    candidate: &str,
    current: &str,
) -> (r: bool)
    ensures
        r == later_than(candidate_instant, current_instant, candidate@, current@),
{
    match (candidate_instant, current_instant) {
        (Some(a), Some(b)) => b.0 < a.0 || (b.0 == a.0 && b.1 < a.1),
        _ => text_less(current, candidate),
    }
}

/// Whether `candidate` names a later time than `current`.
pub fn timestamp_after(candidate: &str, current: &str) -> (r: bool)
    ensures
        r == timestamp_after_spec(candidate@, current@),
{
    let a = parse_rfc3339_instant(candidate);
    let b = parse_rfc3339_instant(current);
    timestamp_after_instants(a, b, candidate, current)
}

// ---------------------------------------------------------------------------
// The latest of several timestamps
// ---------------------------------------------------------------------------

/// Walking the values in order, a value replaces the one kept so far when it
/// is later; absent values are passed over.
pub open spec fn latest_of(values: Seq<Option<String>>) -> Option<Seq<char>>
    decreases values.len(),
{
    if values.len() == 0 {
        None
    } else {
        let before = latest_of(values.drop_last());
        match values.last() {
            None => before,
            Some(v) => match before {
                None => Some(v@),
                Some(current) => if timestamp_after_spec(v@, current) {
                    Some(v@)
                } else {
                    before
                },
            },
        }
    }
}

/// The latest of the present timestamps.
pub fn latest_rate_limit_timestamp(values: &Vec<Option<String>>) -> (r: Option<String>)
    ensures
        match r {
            Some(t) => latest_of(values@) == Some(t@),
            None => latest_of(values@) is None,
        },
{
    let mut latest: Option<usize> = None;
    let mut i: usize = 0;
    while i < values.len()
        invariant
            i <= values.len(),
            match latest {
                Some(k) => k < i && values@[k as int] is Some && latest_of(values@.take(i as int))
                    == Some(values@[k as int]->0@),
                None => latest_of(values@.take(i as int)) is None,
            },
        decreases values.len() - i,
    {
        assert(values@.take(i as int + 1).drop_last() =~= values@.take(i as int));
        match &values[i] {
            Some(v) => {
                match latest {
                    None => {
                        latest = Some(i);
                    },
                    Some(k) => {
                        let current = match &values[k] {
                            Some(c) => c,
                            None => {
                                proof {
                                    assert(false);
                                }
                                v
                            },
                        };
                        if timestamp_after(v.as_str(), current.as_str()) {
                            latest = Some(i);
                        }
                    },
                }
            },
            None => {},
        }
        i += 1;
    }
    assert(values@.take(values.len() as int) =~= values@);
    match latest {
        Some(k) => match &values[k] {
            Some(v) => Some(v.clone()),
            None => None,
        },
        None => None,
    }
}

pub open spec fn present(values: Seq<Option<String>>, i: int) -> bool {
    0 <= i < values.len() && values[i] is Some
}

/// Where every present value is an RFC 3339 timestamp, the latest is one of
/// them and none of them names a later instant; there is a latest exactly
/// when some value is present.
pub proof fn law_latest_timestamp_is_latest(values: Seq<Option<String>>)
    requires
        forall|i: int| #[trigger] present(values, i) ==> rfc3339_instant(values[i]->0@) is Some,
    ensures
        latest_of(values) is Some <==> exists|i: int| #[trigger] present(values, i),
        latest_of(values) matches Some(t) ==> {
            &&& exists|i: int| #[trigger] present(values, i) && values[i]->0@ == t
            &&& forall|i: int| #[trigger] present(values, i) ==> !instant_lt(
                rfc3339_instant(t)->0,
                rfc3339_instant(values[i]->0@)->0,
            )
        },
    decreases values.len(),
{
    if values.len() > 0 {
        let init = values.drop_last();
        let n = values.len() - 1;
        assert forall|i: int| #[trigger] present(init, i) implies rfc3339_instant(
            init[i]->0@,
        ) is Some by {
            assert(present(values, i));
        }
        law_latest_timestamp_is_latest(init);
        assert forall|i: int| 0 <= i < n implies present(init, i) == present(values, i) by {}
        if values[n] is Some {
            assert(present(values, n));
            let v = values[n]->0@;
            match latest_of(init) {
                None => {
                    assert forall|i: int| #[trigger] present(values, i) implies i == n by {
                        if i < n {
                            assert(present(init, i));
                        }
                    }
                },
                Some(cur) => {
                    let wi = choose|i: int| #[trigger] present(init, i) && init[i]->0@ == cur;
                    assert(present(values, wi));
                    if timestamp_after_spec(v, cur) {
                        assert forall|i: int| #[trigger] present(values, i) implies !instant_lt(
                            rfc3339_instant(v)->0,
                            rfc3339_instant(values[i]->0@)->0,
                        ) by {
                            if i < n {
                                assert(present(init, i));
                            }
                        }
                    } else {
                        assert forall|i: int| #[trigger] present(values, i) implies !instant_lt(
                            rfc3339_instant(cur)->0,
                            rfc3339_instant(values[i]->0@)->0,
                        ) by {
                            if i < n {
                                assert(present(init, i));
                            }
                        }
                    }
                },
            }
        } else {
            assert forall|i: int| #[trigger] present(values, i) implies present(init, i) by {}
            if latest_of(init) is Some {
                let t = latest_of(init)->0;
                let wi = choose|i: int| #[trigger] present(init, i) && init[i]->0@ == t;
                assert(present(values, wi));
            } else {
                assert forall|i: int| !#[trigger] present(values, i) by {
                    if present(values, i) {
                        assert(present(init, i));
                    }
                }
            }
        }
    }
}

// ---------------------------------------------------------------------------
// Time between two instants
// ---------------------------------------------------------------------------

/// Nanoseconds from `start` to `end`.
pub fn nanos_between_instants(start: (i64, u32), end: (i64, u32)) -> (r: i128)
    ensures
        r == nanos_between(start, end),
        -0x1_0000_0000_0000_0000 * 1_000_000_000 - 0x1_0000_0000 < r < 0x1_0000_0000_0000_0000
            * 1_000_000_000 + 0x1_0000_0000,
{
    let secs: i128 = end.0 as i128 - start.0 as i128;
    let nanos: i128 = end.1 as i128 - start.1 as i128;
    assert(-0x1_0000_0000_0000_0000 * 1_000_000_000 < secs * 1_000_000_000
        < 0x1_0000_0000_0000_0000 * 1_000_000_000) by (nonlinear_arith)
        requires
            -0x1_0000_0000_0000_0000 < secs < 0x1_0000_0000_0000_0000,
    ;
    secs * 1_000_000_000 + nanos
}

/// The whole minutes from `start` to `end`, and 0 when `end` is not later.
pub open spec fn minutes_spanned(start: (i64, u32), end: (i64, u32)) -> i64 {
    let n = nanos_between(start, end);
    if n <= 0 {
        0
    } else {
        (n / 1_000_000_000 / 60) as i64
    }
}

/// Whole minutes between two instants, never negative.
pub fn minutes_between_instants(start: (i64, u32), end: (i64, u32)) -> (r: i64)
    ensures
        r == minutes_spanned(start, end),
        r >= 0,
{
    let n = nanos_between_instants(start, end);
    if n <= 0 {
        0
    } else {
        let m: i128 = n / 1_000_000_000 / 60;
        assert(m < 0x7fff_ffff_ffff_ffff) by (nonlinear_arith)
            requires
                0 < n < 0x1_0000_0000_0000_0000 * 1_000_000_000 + 0x1_0000_0000,
                m == n / 1_000_000_000 / 60,
        ;
        m as i64
    }
}

/// The length in minutes of a window given by its two ends, where both are
/// RFC 3339 timestamps.
pub open spec fn window_minutes(window_start: Seq<char>, resets_at: Seq<char>) -> Option<i64> {
    match (rfc3339_instant(window_start), rfc3339_instant(resets_at)) {
        (Some(s), Some(e)) => Some(minutes_spanned(s, e)),
        _ => None,
    }
}

/// How many whole minutes a window spans, from the timestamps of its ends.
pub fn window_minutes_between(window_start: &str, resets_at: &str) -> (r: Option<i64>)
    ensures
        r == window_minutes(window_start@, resets_at@),
{
    match (parse_rfc3339_instant(window_start), parse_rfc3339_instant(resets_at)) {
        (Some(s), Some(e)) => Some(minutes_between_instants(s, e)),
        _ => None,
    }
}

} // verus!
