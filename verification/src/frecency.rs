//! Frecency scoring: a ranking score that blends how often and how recently a
//! project was opened.
//!
//! A score is the sum of a frequency term and a recency term. The frequency
//! term of a project is ten points times the natural logarithm of one more
//! than its access count; the recency term is a step function of the days
//! since the last access.
//!
//! Scores are fixed-point numbers counted in thousandths of a point, so that
//! every comparison and every sum in the library is exact integer arithmetic.
//! The logarithm has no exact integer form: the caller hands in the function
//! that evaluates the frequency term of an access count, rounded to a
//! thousandth of a point, and the library decides for which count to ask.

use vstd::prelude::*;

verus! {

/// Number of score units in one point.
pub const SCORE_SCALE: u64 = 1000;

/// Seconds in one day.
pub const SECONDS_PER_DAY: i64 = 86_400;

/// Whole days elapsed between `then` and `now` (both in epoch seconds).
/// A `then` that lies in the future counts as zero days.
pub open spec fn age_in_days(now: int, then: int) -> int {
    if now <= then {
        0
    } else {
        (now - then) / (SECONDS_PER_DAY as int)
    }
}

/// Recency points for an age in whole days: a coarse step function.
/// Ages below zero are treated as zero.
pub open spec fn recency_points(days: int) -> nat {
    if days <= 4 {
        100
    } else if days <= 14 {
        70
    } else if days <= 31 {
        50
    } else if days <= 90 {
        30
    } else {
        10
    }
}

/// The score of a project whose frequency term is `frequency` (already in
/// score units) and which was last opened at `last_accessed`, seen at `now`.
pub open spec fn frecency_of(frequency: nat, last_accessed: Option<i64>, now: int) -> nat {
    match last_accessed {
        None => frequency,
        Some(then) => frequency + (SCORE_SCALE as nat) * recency_points(
            age_in_days(now, then as int),
        ),
    }
}

/// Whole days between two instants, never negative.
pub fn days_between(now: i64, then: i64) -> (days: i64)
    ensures
        days == age_in_days(now as int, then as int),
        0 <= days,
{
    if now <= then {
        0
    } else {
        let span: i128 = now as i128 - then as i128;
        let days: i128 = span / (SECONDS_PER_DAY as i128);
        days as i64
    }
}

/// Recency weight, in whole points, of an age in days.
pub fn recency_weight(days: i64) -> (points: u64)
    ensures
        points == recency_points(days as int),
{
    if days <= 4 {
        100
    } else if days <= 14 {
        70
    } else if days <= 31 {
        50
    } else if days <= 90 {
        30
    } else {
        10
    }
}

/// Frequency term plus recency term. `frequency` is the frequency term of the
/// project's access count, in score units; `last_accessed` is absent for a
/// project that was never opened, which then earns no recency points.
pub fn score_from_term(frequency: u32, last_accessed: Option<i64>, now: i64) -> (score: u64)
    ensures
        score == frecency_of(frequency as nat, last_accessed, now as int),
{
    match last_accessed {
        None => frequency as u64,
        Some(then) => frequency as u64 + SCORE_SCALE * recency_weight(days_between(now, then)),
    }
}

/// The score of a project that was opened `access_count` times, the last
/// time at `last_accessed`, seen at `now`. `frequency` evaluates the
/// frequency term of an access count; it is asked for the term of
/// `access_count` and of no other count.
pub fn calculate_frecency<F: Fn(u32) -> u32>(
    access_count: u32,
    last_accessed: Option<i64>,
    now: i64,
    frequency: F,
) -> (score: u64)
    requires
        frequency.requires((access_count,)),
    ensures
        exists|term: u32|
            frequency.ensures((access_count,), term) && score == #[trigger] frecency_of(
                term as nat,
                last_accessed,
                now as int,
            ),
{
    let term = frequency(access_count);
    score_from_term(term, last_accessed, now)
}

/// A younger last access never scores lower than an older one, whatever the
/// frequency term.
pub proof fn lemma_recency_monotone(frequency: nat, younger: i64, older: i64, now: int)
    requires
        older <= younger,
    ensures
        frecency_of(frequency, Some(younger), now) >= frecency_of(frequency, Some(older), now),
        frecency_of(frequency, Some(older), now) >= frecency_of(frequency, None, now),
{
    let a = age_in_days(now, younger as int);
    let b = age_in_days(now, older as int);
    assert(a <= b) by {
        if now > younger as int {
            assert((now - younger) / 86_400 <= (now - older) / 86_400) by (nonlinear_arith)
                requires
                    now - younger <= now - older,
            ;
        }
    }
}

/// Fewer days of age never earn fewer recency points.
pub proof fn lemma_recency_points_monotone(fewer: int, more: int)
    requires
        fewer <= more,
    ensures
        recency_points(fewer) >= recency_points(more),
{
}

} // verus!
