//! Schedule arithmetic: when a job runs next, and how long it backs off
//! after failures.
//!
//! Instants are nanoseconds since the Unix epoch (UTC). RFC 3339 parsing and
//! formatting, cron expressions and IANA time zones are handled by `chrono`,
//! `cron` and `chrono-tz`; the arithmetic and the decisions are verified here.

use vstd::prelude::*;
use crate::text::{trim_seq, trim_bounds, chars_of, slice_chars, string_of, opt_view};
use super::models::{SchedulerJob, SchedulerRunStatus, SchedulerScheduleKind};

verus! {

/// Run timeout used when a job does not set one, in seconds.
pub const DEFAULT_RUN_TIMEOUT_SECONDS: i64 = 600;

/// Nanoseconds in one second.
pub const NANOS_PER_SECOND: i128 = 1_000_000_000;

/// Earliest second that `chrono` represents (year -262143).
pub const MIN_CHRONO_SECONDS: i64 = -8334601315200;

/// Latest second that `chrono` represents (year 262142).
pub const MAX_CHRONO_SECONDS: i64 = 8210266876799;

/// An instant, as nanoseconds since 1970-01-01T00:00:00Z.
#[derive(Debug, Clone, Copy, PartialEq, Eq, Structural)]
pub struct Timestamp {
    pub nanos: i128,
}

impl View for Timestamp {
    type V = int;

    open spec fn view(&self) -> int {
        self.nanos as int
    }
}

/// Instants whose arithmetic here cannot overflow: a margin far beyond
/// what `chrono` can represent.
pub open spec fn in_range(t: int) -> bool {
    -100_000_000_000_000_000_000_000_000i128 < t < 100_000_000_000_000_000_000_000_000i128
}

/// Instants from which the next cron occurrence can be searched: `cron`
/// starts its search one second later, which must still be representable.
pub open spec fn cron_searchable(t: int) -> bool {
    MIN_CHRONO_SECONDS * NANOS_PER_SECOND <= t < MAX_CHRONO_SECONDS * NANOS_PER_SECOND
}

/// `DateTime::parse_from_rfc3339(text)`, as whole seconds and the
/// sub-second nanoseconds of the UTC instant; `None` where it fails.
pub uninterp spec fn rfc3339_timestamp(text: Seq<char>) -> Option<(i64, u32)>;

/// `DateTime::<Utc>::from_timestamp(secs, nanos)` formatted with
/// `to_rfc3339`; `None` where the timestamp is not representable.
pub uninterp spec fn rfc3339_text(secs: i64, nanos: u32) -> Option<Seq<char>>;

/// The outcome of `cron::Schedule::from_str(expr)`: `Ok` or the text of
/// the parse error.
pub uninterp spec fn cron_parse_outcome(expr: Seq<char>) -> Result<(), Seq<char>>;

/// Whether `chrono_tz::Tz::from_str(name)` knows the zone.
pub uninterp spec fn iana_zone_known(name: Seq<char>) -> bool;

/// The first occurrence of the cron expression after the instant
/// `(secs, nanos)`, searched in the named IANA zone, as a UTC timestamp;
/// `None` where the expression or the zone does not parse or no occurrence
/// exists.
pub uninterp spec fn cron_next_in_zone(expr: Seq<char>, zone: Seq<char>, secs: i64, nanos: u32) -> Option<(i64, u32)>;

/// Calls `DateTime::parse_from_rfc3339`. The contract claims that the
/// outcome is a function of the text (named by `rfc3339_timestamp`), and that
/// a parsed instant lies in `chrono`'s range with fewer than two seconds of
/// sub-second nanoseconds (the second one only for a leap second).
#[verifier::external_body]
fn chrono_parse_rfc3339(value: &str) -> (r: Option<(i64, u32)>)
    ensures
        r == rfc3339_timestamp(value@),
        r matches Some((s, n)) ==> MIN_CHRONO_SECONDS <= s <= MAX_CHRONO_SECONDS && n < 2_000_000_000,
{
    chrono::DateTime::parse_from_rfc3339(value)
        .ok()
        .map(|dt| (dt.timestamp(), dt.timestamp_subsec_nanos()))
}

/// Calls `DateTime::<Utc>::from_timestamp` and `to_rfc3339`. The contract
/// claims that the text is a function of the timestamp, named by
/// `rfc3339_text`, and that there is one for every timestamp in `chrono`'s
/// range (as `from_timestamp` documents).
#[verifier::external_body]
fn chrono_format_rfc3339(secs: i64, nanos: u32) -> (r: Option<String>)
    ensures
        match r {
            Some(t) => rfc3339_text(secs, nanos) == Some(t@),
            None => rfc3339_text(secs, nanos) is None,
        },
        MIN_CHRONO_SECONDS <= secs <= MAX_CHRONO_SECONDS && nanos < 1_000_000_000 ==> r is Some,
{
    chrono::DateTime::<chrono::Utc>::from_timestamp(secs, nanos).map(|dt| dt.to_rfc3339())
}

/// Calls `cron::Schedule::from_str`, handing back the error's text. The
/// contract claims that the outcome is a function of the expression.
#[verifier::external_body]
fn cron_parse(expr: &str) -> (r: Result<(), String>)
    ensures
        match r {
            Ok(()) => cron_parse_outcome(expr@) == Ok::<(), Seq<char>>(()),
            Err(t) => cron_parse_outcome(expr@) == Err::<(), Seq<char>>(t@),
        },
{
    <cron::Schedule as std::str::FromStr>::from_str(expr).map(|_| ()).map_err(|e| e.to_string())
}

/// Calls `chrono_tz::Tz::from_str`, a lookup in the zone table; the
/// contract claims that the answer is a function of the name.
#[verifier::external_body]
fn tz_lookup(name: &str) -> (r: bool)
    ensures
        r == iana_zone_known(name@),
{
    <chrono_tz::Tz as std::str::FromStr>::from_str(name).is_ok()
}

/// Calls `cron::Schedule::after(..).next()` with the search starting at
/// `(secs, nanos)` in the named IANA zone. The contract claims that the
/// result is a function of the arguments (named by `cron_next_in_zone`),
/// that it is `None` where the expression does not parse, and that an
/// occurrence falls on a whole second. It does not claim that the
/// occurrence lies after the start: `cron` searches from one second after
/// the start in the zone's wall-clock time and takes the earlier instant of
/// a time that occurs twice, so across a fall-back change of the clocks it
/// can give an earlier instant. `cron` adds one second to the start with
/// `chrono`'s panicking `+`, which `requires` keeps in range.
#[verifier::external_body]
fn cron_next_zoned(expr: &str, zone: &str, secs: i64, nanos: u32) -> (r: Option<(i64, u32)>)
    requires
        MIN_CHRONO_SECONDS <= secs < MAX_CHRONO_SECONDS,
        nanos < 1_000_000_000,
    ensures
        r == cron_next_in_zone(expr@, zone@, secs, nanos),
        cron_parse_outcome(expr@) is Err ==> r is None,
        r matches Some((_, n)) ==> n == 0,
        r matches Some((s, _)) ==> MIN_CHRONO_SECONDS <= s <= MAX_CHRONO_SECONDS,
{
    let schedule = <cron::Schedule as std::str::FromStr>::from_str(expr).ok()?;
    let tz = <chrono_tz::Tz as std::str::FromStr>::from_str(zone).ok()?;
    let base = chrono::DateTime::<chrono::Utc>::from_timestamp(secs, nanos)?.with_timezone(&tz);
    let next = schedule.after(&base).next()?.with_timezone(&chrono::Utc);
    Some((next.timestamp(), next.timestamp_subsec_nanos()))
}

/// Calls `cron::Schedule::after(..).next()` with the search starting at
/// `(secs, nanos)` in the machine's local time zone. The local zone is part
/// of the environment, so the contract names no result: it claims only that
/// there is none where the expression does not parse, and that an occurrence
/// falls on a whole second within `chrono`'s range. As with a named zone,
/// it need not lie after the start where the local clocks fall back.
#[verifier::external_body]
fn cron_next_local(expr: &str, secs: i64, nanos: u32) -> (r: Option<(i64, u32)>)
    requires
        MIN_CHRONO_SECONDS <= secs < MAX_CHRONO_SECONDS,
        nanos < 1_000_000_000,
    ensures
        cron_parse_outcome(expr@) is Err ==> r is None,
        r matches Some((_, n)) ==> n == 0,
        r matches Some((s, _)) ==> MIN_CHRONO_SECONDS <= s <= MAX_CHRONO_SECONDS,
{
    let schedule = <cron::Schedule as std::str::FromStr>::from_str(expr).ok()?;
    let base = chrono::DateTime::<chrono::Utc>::from_timestamp(secs, nanos)?.with_timezone(&chrono::Local);
    let next = schedule.after(&base).next()?.with_timezone(&chrono::Utc);
    Some((next.timestamp(), next.timestamp_subsec_nanos()))
}

/// The instant an optional timestamp denotes.
pub open spec fn instant_opt(o: Option<Timestamp>) -> Option<int> {
    match o {
        Some(t) => Some(t@),
        None => None,
    }
}

/// The instant that an RFC 3339 text denotes.
pub open spec fn parse_instant(text: Seq<char>) -> Option<int> {
    match rfc3339_timestamp(text) {
        Some((s, n)) => Some(s * 1_000_000_000 + n),
        None => None,
    }
}

/// Seconds and sub-second nanoseconds of an instant (Euclidean division).
pub open spec fn split_seconds(t: int) -> (int, int) {
    (t / 1_000_000_000, t % 1_000_000_000)
}

/// The RFC 3339 text of an instant; `None` where it is not representable.
pub open spec fn instant_text(t: int) -> Option<Seq<char>> {
    let (s, n) = split_seconds(t);
    if i64::MIN <= s <= i64::MAX {
        rfc3339_text(s as i64, n as u32)
    } else {
        None
    }
}

/// Instants that `chrono` represents (and formats).
pub open spec fn chrono_representable(t: int) -> bool {
    MIN_CHRONO_SECONDS * NANOS_PER_SECOND <= t < (MAX_CHRONO_SECONDS + 1) * NANOS_PER_SECOND
}

/// Parses an RFC 3339 timestamp.
pub fn parse_rfc3339(value: &str) -> (r: Option<Timestamp>)
    ensures
        match r {
            Some(t) => parse_instant(value@) == Some(t@),
            None => parse_instant(value@) is None,
        },
        r matches Some(t) ==> in_range(t@),
        r matches Some(t) ==> MIN_CHRONO_SECONDS * NANOS_PER_SECOND <= t@ < (MAX_CHRONO_SECONDS + 2) * NANOS_PER_SECOND,
{
    match chrono_parse_rfc3339(value) {
        Some((s, n)) => Some(Timestamp { nanos: (s as i128) * NANOS_PER_SECOND + (n as i128) }),
        None => None,
    }
}

/// Seconds and sub-second nanoseconds of an instant.
pub fn split_timestamp(t: Timestamp) -> (r: Option<(i64, u32)>)
    requires
        in_range(t@),
    ensures
        match r {
            Some((s, n)) => split_seconds(t@) == (s as int, n as int),
            None => !(i64::MIN <= split_seconds(t@).0 <= i64::MAX),
        },
        r matches Some((s, n)) ==> n < 1_000_000_000 && s as int * 1_000_000_000 + n as int == t@,
{
    let q: i128;
    let m: i128;
    if t.nanos >= 0 {
        let u = t.nanos as u128;
        q = (u / 1_000_000_000) as i128;
        m = (u % 1_000_000_000) as i128;
    } else {
        let u = (0 - t.nanos) as u128;
        let uq = (u / 1_000_000_000) as i128;
        let ur = (u % 1_000_000_000) as i128;
        if ur == 0 {
            q = 0 - uq;
            m = 0;
        } else {
            q = 0 - uq - 1;
            m = 1_000_000_000 - ur;
        }
    }
    assert(q * 1_000_000_000 + m == t@ && 0 <= m < 1_000_000_000);
    assert(split_seconds(t@) == (q as int, m as int)) by {
        vstd::arithmetic::div_mod::lemma_fundamental_div_mod_converse(
            t@,
            1_000_000_000,
            q as int,
            m as int,
        );
    }
    if q < i64::MIN as i128 || q > i64::MAX as i128 {
        None
    } else {
        Some((q as i64, m as u32))
    }
}

/// Formats an instant as RFC 3339 (`DateTime::to_rfc3339`).
pub fn to_rfc3339(value: Option<Timestamp>) -> (r: Option<String>)
    requires
        value matches Some(t) ==> in_range(t@),
    ensures
        match value {
            None => r is None,
            Some(t) => match r {
                Some(s) => instant_text(t@) == Some(s@),
                None => instant_text(t@) is None,
            },
        },
        value matches Some(t) && chrono_representable(t@) ==> r is Some,
{
    match value {
        None => None,
        Some(t) => match split_timestamp(t) {
            Some((s, n)) => chrono_format_rfc3339(s, n),
            None => None,
        },
    }
}

/// `value.unwrap_or(DEFAULT_RUN_TIMEOUT_SECONDS).clamp(30, 86_400)`.
pub open spec fn clamped_timeout(value: Option<i64>) -> int {
    let v = match value {
        Some(v) => v as int,
        None => DEFAULT_RUN_TIMEOUT_SECONDS as int,
    };
    if v < 30 {
        30
    } else if v > 86_400 {
        86_400
    } else {
        v
    }
}

/// A run timeout in seconds, defaulted and clamped to [30, 86400].
pub fn clamp_timeout_seconds(value: Option<i64>) -> (r: i64)
    ensures
        r == clamped_timeout(value),
        30 <= r <= 86_400,
{
    let v = match value {
        Some(v) => v,
        None => DEFAULT_RUN_TIMEOUT_SECONDS,
    };
    if v < 30 {
        30
    } else if v > 86_400 {
        86_400
    } else {
        v
    }
}

/// The job's time zone, trimmed, where it is set and not blank.
pub open spec fn zone_of(job: SchedulerJob) -> Option<Seq<char>> {
    match job.timezone {
        Some(z) => if trim_seq(z@).len() > 0 {
            Some(trim_seq(z@))
        } else {
            None
        },
        None => None,
    }
}

/// The trimmed time zone of a job, where it is set and not blank.
fn job_zone(job: &SchedulerJob) -> (r: Option<String>)
    ensures
        match r {
            Some(z) => zone_of(*job) == Some(z@),
            None => zone_of(*job) is None,
        },
{
    match &job.timezone {
        Some(z) => {
            let cs = chars_of(z.as_str());
            let (a, b) = trim_bounds(cs.as_slice());
            if a == b {
                None
            } else {
                let t = slice_chars(cs.as_slice(), a, b);
                Some(string_of(t.as_slice()))
            }
        },
        None => None,
    }
}

/// The error of `validate_schedule_fields` for a schedule given by its
/// kind, instant text, interval, cron expression and trimmed zone.
pub open spec fn schedule_error(
    kind: SchedulerScheduleKind,
    at: Option<Seq<char>>,
    every_ms: Option<i64>,
    cron: Option<Seq<char>>,
    zone: Option<Seq<char>>,
) -> Option<Seq<char>> {
    match kind {
        SchedulerScheduleKind::At => match at {
            None => Some("schedule_at is required for schedule_kind=at"@),
            Some(a) => if parse_instant(a) is None {
                Some("schedule_at must be RFC3339 timestamp"@)
            } else {
                None
            },
        },
        SchedulerScheduleKind::Every => match every_ms {
            None => Some("every_ms is required for schedule_kind=every"@),
            Some(e) => if e < 1000 {
                Some("every_ms must be >= 1000"@)
            } else {
                None
            },
        },
        SchedulerScheduleKind::Cron => match cron {
            None => Some("cron_expr is required for schedule_kind=cron"@),
            Some(expr) => match cron_parse_outcome(expr) {
                Err(msg) => Some("Invalid cron expression: "@ + msg),
                Ok(()) => match zone {
                    Some(z) => if iana_zone_known(z) {
                        None
                    } else {
                        Some("Invalid IANA timezone: "@ + z)
                    },
                    None => None,
                },
            },
        },
    }
}

/// The error of `validate_schedule_fields`, if any.
pub open spec fn schedule_fields_error(job: SchedulerJob) -> Option<Seq<char>> {
    schedule_error(job.schedule_kind, opt_view(job.schedule_at), job.every_ms, opt_view(job.cron_expr), zone_of(job))
}

/// Checks that the fields of the job's schedule kind are present and valid.
pub fn validate_schedule_fields(job: &SchedulerJob) -> (r: Result<(), String>)
    ensures
        match r {
            Ok(()) => schedule_fields_error(*job) is None,
            Err(e) => schedule_fields_error(*job) == Some(e@),
        },
{
    match job.schedule_kind {
        SchedulerScheduleKind::At => match &job.schedule_at {
            None => Err(crate::text::owned("schedule_at is required for schedule_kind=at")),
            Some(at) => {
                if parse_rfc3339(at.as_str()).is_none() {
                    Err(crate::text::owned("schedule_at must be RFC3339 timestamp"))
                } else {
                    Ok(())
                }
            },
        },
        SchedulerScheduleKind::Every => match job.every_ms {
            None => Err(crate::text::owned("every_ms is required for schedule_kind=every")),
            Some(e) => {
                if e < 1000 {
                    Err(crate::text::owned("every_ms must be >= 1000"))
                } else {
                    Ok(())
                }
            },
        },
        SchedulerScheduleKind::Cron => match &job.cron_expr {
            None => Err(crate::text::owned("cron_expr is required for schedule_kind=cron")),
            Some(expr) => match cron_parse(expr.as_str()) {
                Err(msg) => {
                    let mut out = chars_of("Invalid cron expression: ");
                    let m = chars_of(msg.as_str());
                    crate::text::push_all(&mut out, m.as_slice());
                    Err(string_of(out.as_slice()))
                },
                Ok(()) => match job_zone(job) {
                    Some(z) => {
                        if tz_lookup(z.as_str()) {
                            Ok(())
                        } else {
                            let mut out = chars_of("Invalid IANA timezone: ");
                            let m = chars_of(z.as_str());
                            crate::text::push_all(&mut out, m.as_slice());
                            Err(string_of(out.as_slice()))
                        }
                    },
                    None => Ok(()),
                },
            },
        },
    }
}

/// Next occurrence of an `every` schedule: the anchor plus one interval when
/// the anchor is not in the past, otherwise the first whole number of
/// intervals after the anchor that lies strictly after `now` (elapsed time
/// counted in whole milliseconds).
pub open spec fn every_next(anchor: int, now: int, every_ms: int) -> int {
    let interval = every_ms * 1_000_000;
    if anchor >= now {
        anchor + interval
    } else {
        let elapsed_ms = (now - anchor) / 1_000_000;
        let steps = elapsed_ms / every_ms + 1;
        anchor + steps * interval
    }
}

/// What `compute_next_run_at` returns for a schedule given by its parts,
/// where it does not depend on the machine's local time zone:
/// `Some(outcome)`; `None` for a valid cron expression without a zone.
pub open spec fn next_run_parts(
    enabled: bool,
    kind: SchedulerScheduleKind,
    at: Option<Seq<char>>,
    every_ms: Option<i64>,
    cron: Option<Seq<char>>,
    zone: Option<Seq<char>>,
    created_at: Seq<char>,
    now: int,
) -> Option<Option<int>> {
    if !enabled {
        Some(None)
    } else {
        match kind {
            SchedulerScheduleKind::At => Some(
                match at {
                    None => None,
                    Some(a) => match parse_instant(a) {
                        None => None,
                        Some(t) => if t > now {
                            Some(t)
                        } else {
                            None
                        },
                    },
                },
            ),
            SchedulerScheduleKind::Every => Some(
                match every_ms {
                    None => None,
                    Some(e) => if e <= 0 {
                        None
                    } else {
                        let anchor = match parse_instant(created_at) {
                            Some(a) => a,
                            None => now,
                        };
                        Some(every_next(anchor, now, e as int))
                    },
                },
            ),
            SchedulerScheduleKind::Cron => match cron {
                None => Some(None),
                Some(expr) => match zone {
                    Some(z) => Some(
                        match cron_next_in_zone(expr, z, split_seconds(now).0 as i64, split_seconds(now).1 as u32) {
                            Some((s, n)) => Some(s * 1_000_000_000 + n),
                            None => None,
                        },
                    ),
                    None => if cron_parse_outcome(expr) is Err {
                        Some(None)
                    } else {
                        None
                    },
                },
            },
        }
    }
}

/// What `compute_next_run_at` returns, where it does not depend on the
/// machine's local time zone: `Some(outcome)`; `None` for a cron job
/// without a time zone.
pub open spec fn next_run_spec(job: SchedulerJob, now: int) -> Option<Option<int>> {
    next_run_parts(
        job.enabled,
        job.schedule_kind,
        opt_view(job.schedule_at),
        job.every_ms,
        opt_view(job.cron_expr),
        zone_of(job),
        job.created_at@,
        now,
    )
}

/// When an enabled job runs next after `now`.
///
/// `at` jobs run once at their instant if it is still ahead; `every` jobs run
/// on a grid anchored at their creation time without catching up missed
/// runs; `cron` jobs run at the next occurrence of their expression in their
/// time zone, or in the machine's local zone when they set none.
pub fn compute_next_run_at(job: &SchedulerJob, now: Timestamp) -> (r: Option<Timestamp>)
    requires
        cron_searchable(now@),
    ensures
        next_run_spec(*job, now@) matches Some(x) ==> x == instant_opt(r),
        r matches Some(t) ==> in_range(t@),
        job.schedule_kind != SchedulerScheduleKind::Cron ==> (r matches Some(t) ==> t@ > now@),
{
    if !job.enabled {
        return None;
    }
    match job.schedule_kind {
        SchedulerScheduleKind::At => {
            let at = match &job.schedule_at {
                Some(s) => parse_rfc3339(s.as_str()),
                None => None,
            };
            match at {
                Some(t) => {
                    if t.nanos > now.nanos {
                        Some(t)
                    } else {
                        None
                    }
                },
                None => None,
            }
        },
        SchedulerScheduleKind::Every => {
            let every_ms = match job.every_ms {
                Some(e) => e,
                None => {
                    return None;
                },
            };
            if every_ms <= 0 {
                return None;
            }
            let interval: i128 = (every_ms as i128) * 1_000_000;
            let anchor = match parse_rfc3339(job.created_at.as_str()) {
                Some(a) => a,
                None => now,
            };
            if anchor.nanos >= now.nanos {
                Some(Timestamp { nanos: anchor.nanos + interval })
            } else {
                let elapsed_ms: i128 = (now.nanos - anchor.nanos) / 1_000_000;
                let steps: i128 = elapsed_ms / (every_ms as i128) + 1;
                assert(0 <= elapsed_ms / (every_ms as i128) <= elapsed_ms) by {
                    vstd::arithmetic::div_mod::lemma_div_is_ordered_by_denominator(elapsed_ms as int, 1, every_ms as int);
                }
                assert(steps * every_ms <= elapsed_ms + every_ms) by (nonlinear_arith)
                    requires
                        steps == elapsed_ms / (every_ms as i128) + 1,
                        every_ms > 0,
                        elapsed_ms >= 0,
                {
                    vstd::arithmetic::div_mod::lemma_fundamental_div_mod(elapsed_ms as int, every_ms as int);
                }
                assert(steps * interval == (steps * every_ms) * 1_000_000) by (nonlinear_arith)
                    requires
                        interval == every_ms * 1_000_000,
                ;
                assert(steps * interval > now.nanos - anchor.nanos) by (nonlinear_arith)
                    requires
                        steps == elapsed_ms / (every_ms as i128) + 1,
                        elapsed_ms == (now.nanos - anchor.nanos) / 1_000_000,
                        now.nanos - anchor.nanos > 0,
                        every_ms > 0,
                        interval == every_ms * 1_000_000,
                {
                    vstd::arithmetic::div_mod::lemma_fundamental_div_mod(elapsed_ms as int, every_ms as int);
                    vstd::arithmetic::div_mod::lemma_fundamental_div_mod((now.nanos - anchor.nanos) as int, 1_000_000);
                }
                Some(Timestamp { nanos: anchor.nanos + steps * interval })
            }
        },
        SchedulerScheduleKind::Cron => {
            let expr = match &job.cron_expr {
                Some(e) => e,
                None => {
                    return None;
                },
            };
            let (secs, nanos) = match split_timestamp(now) {
                Some(p) => p,
                None => {
                    return None;
                },
            };
            let next = match job_zone(job) {
                Some(z) => cron_next_zoned(expr.as_str(), z.as_str(), secs, nanos),
                None => cron_next_local(expr.as_str(), secs, nanos),
            };
            match next {
                Some((s, n)) => Some(Timestamp { nanos: (s as i128) * NANOS_PER_SECOND + (n as i128) }),
                None => None,
            }
        },
    }
}

/// Back-off after `consecutive_errors` failures, in milliseconds: 30 s,
/// 1 min, 5 min, 15 min, then 60 min.
pub open spec fn backoff_millis(consecutive_errors: i64) -> int {
    if consecutive_errors <= 1 {
        30_000
    } else if consecutive_errors == 2 {
        60_000
    } else if consecutive_errors == 3 {
        300_000
    } else if consecutive_errors == 4 {
        900_000
    } else {
        3_600_000
    }
}

/// How long a failing job waits before its next run, in milliseconds.
pub fn error_backoff_duration(consecutive_errors: i64) -> (r: i64)
    ensures
        r == backoff_millis(consecutive_errors),
{
    if consecutive_errors <= 1 {
        30_000
    } else if consecutive_errors == 2 {
        60_000
    } else if consecutive_errors == 3 {
        300_000
    } else if consecutive_errors == 4 {
        900_000
    } else {
        3_600_000
    }
}

/// What `compute_next_after_result` returns, given what
/// `compute_next_run_at` returned at `ended_at`.
pub open spec fn next_after_result_spec(
    job: SchedulerJob,
    status: SchedulerRunStatus,
    ended_at: int,
    consecutive_errors: i64,
    normal_next: Option<int>,
) -> Option<int> {
    match job.schedule_kind {
        SchedulerScheduleKind::At => None,
        _ => if !job.enabled {
            None
        } else if status == SchedulerRunStatus::Error {
            let backoff = ended_at + backoff_millis(consecutive_errors) * 1_000_000;
            match normal_next {
                Some(n) => Some(if n >= backoff { n } else { backoff }),
                None => Some(backoff),
            }
        } else {
            normal_next
        },
    }
}

/// When a recurring job runs next after a run that ended at `ended_at`:
/// its normal next run, pushed back by the error back-off after a failure.
/// `at` jobs never run again.
pub fn compute_next_after_result(
    job: &SchedulerJob,
    status: SchedulerRunStatus,
    ended_at: Timestamp,
    consecutive_errors: i64,
) -> (r: Option<Timestamp>)
    requires
        cron_searchable(ended_at@),
    ensures
        match job.schedule_kind {
            SchedulerScheduleKind::At => r is None,
            _ => exists|normal: Option<Timestamp>|
                (next_run_spec(*job, ended_at@) matches Some(x) ==> x == instant_opt(normal))
                && (job.schedule_kind != SchedulerScheduleKind::Cron ==> (normal matches Some(t) ==> t@ > ended_at@))
                && instant_opt(r) == next_after_result_spec(*job, status, ended_at@, consecutive_errors, instant_opt(normal)),
        },
        r matches Some(t) ==> in_range(t@),
        job.schedule_kind != SchedulerScheduleKind::Cron || status == SchedulerRunStatus::Error
            ==> (r matches Some(t) ==> t@ > ended_at@),
{
    match job.schedule_kind {
        SchedulerScheduleKind::At => None,
        _ => {
            if !job.enabled {
                assert(next_run_spec(*job, ended_at@) == Some(None::<int>));
                assert(instant_opt(None) == next_after_result_spec(*job, status, ended_at@, consecutive_errors, instant_opt(None)));
                return None;
            }
            let normal_next = compute_next_run_at(job, ended_at);
            if status == SchedulerRunStatus::Error {
                let backoff = Timestamp {
                    nanos: ended_at.nanos + (error_backoff_duration(consecutive_errors) as i128) * 1_000_000,
                };
                let r = match normal_next {
                    Some(n) => Some(if n.nanos >= backoff.nanos { n } else { backoff }),
                    None => Some(backoff),
                };
                assert(instant_opt(r) == next_after_result_spec(*job, status, ended_at@, consecutive_errors, instant_opt(normal_next)));
                r
            } else {
                assert(instant_opt(normal_next) == next_after_result_spec(*job, status, ended_at@, consecutive_errors, instant_opt(normal_next)));
                normal_next
            }
        },
    }
}

/// An `every` job's next run lies strictly after `now`, on the grid of
/// whole intervals from its anchor; when the anchor is in the past, it is
/// the first grid point after `now`, so missed runs are not caught up.
pub proof fn lemma_every_next_no_backfill(anchor: int, now: int, every_ms: int)
    requires
        every_ms > 0,
    ensures
        every_next(anchor, now, every_ms) > now,
        exists|k: int| k >= 1 && #[trigger] (k * (every_ms * 1_000_000)) == every_next(anchor, now, every_ms) - anchor,
        anchor < now ==> every_next(anchor, now, every_ms) - every_ms * 1_000_000 <= now,
{
    let interval = every_ms * 1_000_000;
    if anchor >= now {
        assert(1 * interval == interval);
    } else {
        let d = now - anchor;
        let elapsed_ms = d / 1_000_000;
        let q = elapsed_ms / every_ms;
        let steps = q + 1;
        assert(d == elapsed_ms * 1_000_000 + d % 1_000_000);
        assert(0 <= d % 1_000_000 < 1_000_000);
        vstd::arithmetic::div_mod::lemma_fundamental_div_mod(elapsed_ms, every_ms);
        assert(0 <= elapsed_ms % every_ms < every_ms) by {
            vstd::arithmetic::div_mod::lemma_mod_bound(elapsed_ms, every_ms);
        }
        assert(elapsed_ms >= 0);
        assert(q >= 0) by {
            vstd::arithmetic::div_mod::lemma_div_pos_is_pos(elapsed_ms, every_ms);
        }
        assert(steps * interval == (q * every_ms) * 1_000_000 + every_ms * 1_000_000) by (nonlinear_arith)
            requires
                steps == q + 1,
                interval == every_ms * 1_000_000,
        ;
        assert(elapsed_ms == q * every_ms + elapsed_ms % every_ms) by (nonlinear_arith)
            requires
                elapsed_ms == every_ms * q + elapsed_ms % every_ms,
        ;
        assert(q * every_ms * 1_000_000 <= elapsed_ms * 1_000_000) by (nonlinear_arith)
            requires
                q * every_ms <= elapsed_ms,
        ;
        assert((elapsed_ms + 1) * 1_000_000 <= (q * every_ms + every_ms) * 1_000_000) by (nonlinear_arith)
            requires
                elapsed_ms + 1 <= q * every_ms + every_ms,
        ;
        assert(steps * interval == every_next(anchor, now, every_ms) - anchor);
    }
}

/// The error back-off never shrinks as failures accumulate, and stays
/// between 30 seconds and one hour.
pub proof fn lemma_backoff_monotone(a: i64, b: i64)
    requires
        a <= b,
    ensures
        backoff_millis(a) <= backoff_millis(b),
        30_000 <= backoff_millis(a) <= 3_600_000,
{
}

/// After a failed run, a recurring job does not run again before the
/// back-off has passed.
pub proof fn lemma_failed_run_waits_for_backoff(
    job: SchedulerJob,
    ended_at: int,
    consecutive_errors: i64,
    normal_next: Option<int>,
)
    requires
        job.schedule_kind != SchedulerScheduleKind::At,
        job.enabled,
    ensures
        next_after_result_spec(job, SchedulerRunStatus::Error, ended_at, consecutive_errors, normal_next)
            matches Some(t) && t >= ended_at + backoff_millis(consecutive_errors) * 1_000_000,
{
}

/// A disabled job has no next run.
pub proof fn lemma_disabled_job_never_runs(job: SchedulerJob, now: int)
    requires
        !job.enabled,
    ensures
        next_run_spec(job, now) == Some(None::<int>),
{
}

/// An `at` job is only scheduled for an instant still ahead of `now`.
pub proof fn lemma_at_job_runs_in_future(job: SchedulerJob, now: int)
    requires
        job.schedule_kind == SchedulerScheduleKind::At,
    ensures
        next_run_spec(job, now) matches Some(x) && (x matches Some(t) ==> t > now),
{
}

} // verus!
