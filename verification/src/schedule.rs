//! Cron schedules: when one is valid, and when it fires next.
use crate::text::space::{split_words, words};
use vstd::prelude::*;

verus! {

/// What the cron evaluator says against `expression`, which it reads as
/// seconds, minutes, hours, days of the month, months, days of the week and,
/// optionally, years: `None` where it accepts the expression, else the words
/// of its error.
pub uninterp spec fn cron_refusal(expression: Seq<char>) -> Option<Seq<char>>;

/// Whether the cron evaluator accepts `expression`.
pub open spec fn cron_accepts(expression: Seq<char>) -> bool {
    cron_refusal(expression) is None
}

/// What the evaluator gives as the first instant after `now` at which
/// `expression` is due, both in seconds since the Unix epoch, UTC. `None`
/// where it gives none or does not accept the expression.
pub uninterp spec fn cron_next(expression: Seq<char>, now: i64) -> Option<i64>;

/// The earliest instant that is handed to the evaluator, in seconds since
/// the Unix epoch. It lies some two hundred and fifty thousand years back,
/// inside the calendar that the evaluator computes in.
pub const EARLIEST_INSTANT: i64 = -8_000_000_000_000;

/// The latest instant that is handed to the evaluator, as far ahead as the
/// earliest lies back. The evaluator's calendar goes on for thousands of
/// years after it.
pub const LATEST_INSTANT: i64 = 8_000_000_000_000;

/// Parses `expression` with `cron::Schedule::from_str`, drops the schedule
/// and keeps what the error says through its `Display`. Nothing is claimed of
/// which expressions parse, nor of the words, beyond the name `cron_refusal`.
#[verifier::external_body]
pub(crate) fn refusal(expression: &str) -> (r: Option<String>)
    ensures
        r.deep_view() == cron_refusal(expression@),
{
    expression.parse::<cron::Schedule>().err().map(|e| e.to_string())
}

/// Asks `cron::Schedule::after` for the first instant after `now`. The
/// instant goes in through `chrono::DateTime::from_timestamp` and comes back
/// through `DateTime::timestamp`. The evaluator begins its search one second
/// after `now`, so what it finds is later than `now`; `chrono` cannot add
/// that second at the end of its calendar, so `now` is bounded.
#[verifier::external_body]
pub(crate) fn next_after(expression: &str, now: i64) -> (r: Option<i64>)
    requires
        EARLIEST_INSTANT <= now <= LATEST_INSTANT,
    ensures
        r == cron_next(expression@, now),
        r matches Some(t) ==> t > now,
{
    let schedule = expression.parse::<cron::Schedule>().ok()?;
    let start = chrono::DateTime::from_timestamp(now, 0)?;
    schedule.after(&start).next().map(|t| t.timestamp())
}

/// Why a schedule is refused.
#[derive(Debug, Clone)]
pub enum ScheduleError {
    /// It does not have five white-space separated fields.
    FieldCount,
    /// It has five fields and the evaluator refuses it, for the reason given.
    Syntax(String),
}

/// What a `ScheduleError` holds.
pub ghost enum ScheduleErrorView {
    FieldCount,
    Syntax(Seq<char>),
}

impl View for ScheduleError {
    type V = ScheduleErrorView;

    open spec fn view(&self) -> ScheduleErrorView {
        match self {
            ScheduleError::FieldCount => ScheduleErrorView::FieldCount,
            ScheduleError::Syntax(reason) => ScheduleErrorView::Syntax(reason@),
        }
    }
}

impl ScheduleError {
    /// The error in words.
    pub fn message(&self) -> (r: String)
        ensures
            self is FieldCount ==> r@
                == "Invalid cron format - needs 5 fields (minute hour day month weekday)"@,
            self matches ScheduleError::Syntax(t) ==> r@ == t@,
    {
        match self {
            ScheduleError::FieldCount => {
                "Invalid cron format - needs 5 fields (minute hour day month weekday)".to_owned()
            },
            ScheduleError::Syntax(t) => t.clone(),
        }
    }
}

/// What the evaluator is handed for a schedule of minute, hour, day of the
/// month, month and day of the week: the same fields after a seconds field
/// of zero.
pub open spec fn expression_of(schedule: Seq<char>) -> Seq<char> {
    "0 "@ + schedule
}

/// A schedule is valid when it has five white-space separated fields and the
/// evaluator accepts them.
pub open spec fn valid_schedule(schedule: Seq<char>) -> bool {
    words(schedule).len() == 5 && cron_accepts(expression_of(schedule))
}

/// The next instant after `now` at which `schedule` fires. An instant
/// outside the range handed to the evaluator has none.
pub open spec fn next_fire_time(schedule: Seq<char>, now: i64) -> Option<i64> {
    if EARLIEST_INSTANT <= now <= LATEST_INSTANT {
        cron_next(expression_of(schedule), now)
    } else {
        None
    }
}

/// How long to wait at `now` for an instant `time`: not at all where it is
/// past.
pub open spec fn delay_of(time: i64, now: i64) -> u64 {
    if time > now {
        (time - now) as u64
    } else {
        0
    }
}

/// What the evaluator is handed for `schedule`.
pub fn expression(schedule: &str) -> (r: String)
    ensures
        r@ == expression_of(schedule@),
{
    let mut r = "0 ".to_owned();
    r.append(schedule);
    r
}

/// What `schedule` is judged to be where the evaluator says `refusal`
/// against its expression: a schedule without five fields is refused for
/// that, one that the evaluator refuses for the evaluator's reason.
pub open spec fn verdict(schedule: Seq<char>, refusal: Option<Seq<char>>) -> Result<
    (),
    ScheduleErrorView,
> {
    if words(schedule).len() != 5 {
        Err(ScheduleErrorView::FieldCount)
    } else {
        match refusal {
            Some(reason) => Err(ScheduleErrorView::Syntax(reason)),
            None => Ok(()),
        }
    }
}

/// What `check_schedule` says of `schedule`.
pub open spec fn schedule_verdict(schedule: Seq<char>) -> Result<(), ScheduleErrorView> {
    verdict(schedule, cron_refusal(expression_of(schedule)))
}

/// What a result of judging a schedule holds.
pub open spec fn verdict_view(r: Result<(), ScheduleError>) -> Result<(), ScheduleErrorView> {
    match r {
        Ok(_) => Ok(()),
        Err(e) => Err(e@),
    }
}

/// Judges a schedule of which the evaluator has spoken already: `refusal` is
/// what it said against `expression(schedule)`, `None` where it accepted it.
pub fn judge_schedule(schedule: &str, refusal: Option<String>) -> (r: Result<(), ScheduleError>)
    ensures
        verdict_view(r) == verdict(schedule@, refusal.deep_view()),
{
    let parts = split_words(schedule);
    if parts.len() != 5 {
        return Err(ScheduleError::FieldCount);
    }
    match refusal {
        None => Ok(()),
        Some(reason) => Err(ScheduleError::Syntax(reason)),
    }
}

/// Whether `schedule` is valid, and why not where it is not.
pub fn check_schedule(schedule: &str) -> (r: Result<(), ScheduleError>)
    ensures
        verdict_view(r) == schedule_verdict(schedule@),
        r is Ok <==> valid_schedule(schedule@),
        r matches Err(ScheduleError::FieldCount) <==> words(schedule@).len() != 5,
{
    let e = expression(schedule);
    judge_schedule(schedule, refusal(e.as_str()))
}

/// The next instant after `now` at which `schedule` fires. It is later than
/// `now`.
pub fn next_fire(schedule: &str, now: i64) -> (r: Option<i64>)
    ensures
        r == next_fire_time(schedule@, now),
        r matches Some(t) ==> t > now,
{
    if now < EARLIEST_INSTANT || now > LATEST_INSTANT {
        return None;
    }
    let e = expression(schedule);
    next_after(e.as_str(), now)
}

/// How many seconds to wait at `now` for the instant `time`.
pub fn delay_until(time: i64, now: i64) -> (r: u64)
    ensures
        r == delay_of(time, now),
{
    if time > now {
        if now >= 0 {
            (time - now) as u64
        } else if time < 0 {
            (time - now) as u64
        } else {
            let behind: u64 = if now == i64::MIN {
                9223372036854775808u64
            } else {
                (-now) as u64
            };
            time as u64 + behind
        }
    } else {
        0
    }
}

} // verus!
