//! Next-run computation.
//!
//! - `At`: the instant if it lies in the future, else nothing (it will not fire again).
//! - `Every`: `now + every` for a positive interval.
//! - `Cron`: the first whole minute strictly after `now` whose wall-clock time the
//!   expression selects, searched for up to four years; in local time without `tz`,
//!   in UTC for `tz` equal to `UTC` (any case) or `Z`; other zone names are not supported.

use chrono::{Datelike, TimeZone, Timelike};
use vstd::prelude::*;

use crate::cron::expr::{cron_spec, spec_matches, CronExpr, CronSpec, WallClock};
use crate::cron::types::{CronSchedule, ScheduleKind};
use crate::text::{chars_of, eq_ignore_ascii_case, eq_ignore_case, eq_str};

verus! {

/// One minute in milliseconds.
pub const MINUTE_MS: i64 = 60000;

/// Number of minutes searched: about four years, enough for `0 0 29 2 *`.
pub const MAX_STEPS: i64 = 2108160;

/// Wall-clock fields `(minute, hour, day, month, weekday)` of an instant in UTC, as chrono
/// computes them; `None` for instants chrono cannot represent.
pub uninterp spec fn utc_fields(ms: i64) -> Option<(u32, u32, u32, u32, u32)>;

/// The wall clock a field tuple describes.
pub open spec fn wall_of(f: (u32, u32, u32, u32, u32)) -> WallClock {
    WallClock { minute: f.0, hour: f.1, day: f.2, month: f.3, weekday: f.4 }
}

/// Whether the fields of a wall clock lie in their ranges.
pub open spec fn wall_in_range(w: WallClock) -> bool {
    w.minute < 60 && w.hour < 24 && 1 <= w.day <= 31 && 1 <= w.month <= 12 && w.weekday < 7
}

/// The UTC wall-clock time of `ms` (chrono `Utc.timestamp_millis_opt`).
#[verifier::external_body]
fn utc_wall_clock(ms: i64) -> (r: Option<WallClock>)
    ensures
        match utc_fields(ms) {
            Some(f) => r == Some(wall_of(f)) && wall_in_range(wall_of(f)),
            None => r is None,
        },
{
    match chrono::Utc.timestamp_millis_opt(ms) {
        chrono::LocalResult::Single(d) => Some(WallClock {
            minute: d.minute(),
            hour: d.hour(),
            day: d.day(),
            month: d.month(),
            weekday: d.weekday().num_days_from_sunday(),
        }),
        _ => None,
    }
}

/// The local wall-clock time of `ms` in the machine's time zone (chrono
/// `Local.timestamp_millis_opt`): the earlier reading when the local time is
/// ambiguous, `None` when it does not exist. It depends on the machine's zone, so
/// only the ranges of the fields are stated.
#[verifier::external_body]
fn local_wall_clock(ms: i64) -> (r: Option<WallClock>)
    ensures
        match r {
            Some(w) => wall_in_range(w),
            None => true,
        },
{
    let to_wall = |d: chrono::DateTime<chrono::Local>| WallClock {
        minute: d.minute(),
        hour: d.hour(),
        day: d.day(),
        month: d.month(),
        weekday: d.weekday().num_days_from_sunday(),
    };
    match chrono::Local.timestamp_millis_opt(ms) {
        chrono::LocalResult::Single(d) => Some(to_wall(d)),
        chrono::LocalResult::Ambiguous(d, _) => Some(to_wall(d)),
        chrono::LocalResult::None => None,
    }
}

/// The first whole minute strictly after `now`.
pub open spec fn minute_start(now: int) -> int {
    now - now % (MINUTE_MS as int) + MINUTE_MS
}

/// Whether the search from `now` stays within `i64`.
pub open spec fn search_fits(now: int) -> bool {
    i64::MIN + MINUTE_MS <= now <= i64::MAX - (MAX_STEPS + 1) * MINUTE_MS
}

/// The first minute `start + i`, `start + i + 1`, ... (below `MAX_STEPS`) whose UTC wall
/// clock `c` selects.
pub open spec fn first_utc_match(c: CronSpec, start: int, i: int) -> Option<i64>
    decreases MAX_STEPS - i,
{
    if i < 0 || i >= MAX_STEPS {
        None
    } else {
        let t = start + i * MINUTE_MS;
        match utc_fields(t as i64) {
            Some(f) => if spec_matches(c, wall_of(f)) {
                Some(t as i64)
            } else {
                first_utc_match(c, start, i + 1)
            },
            None => first_utc_match(c, start, i + 1),
        }
    }
}

/// What holds of any result of the minute search from `now`.
pub open spec fn search_result_ok(now: int, r: Option<i64>) -> bool {
    match r {
        Some(t) => now < t && t % MINUTE_MS == 0 && t < minute_start(now) + MAX_STEPS
            * MINUTE_MS,
        None => true,
    }
}

/// Whether a wall-clock reading (`None` for a time that does not exist there) is
/// selected by `c`.
pub open spec fn reading_selected(c: CronSpec, w: Option<WallClock>) -> bool {
    w matches Some(x) && spec_matches(c, x)
}

/// Whether `ws` are wall-clock readings of the minutes `start`, `start + 1 min`, ...,
/// each in range, that `c` first selects at the last one, found at `t`.
pub open spec fn readings_first_select(c: CronSpec, start: int, ws: Seq<Option<WallClock>>, t: int) -> bool {
    &&& ws.len() > 0
    &&& t == start + (ws.len() - 1) * MINUTE_MS
    &&& reading_selected(c, ws.last())
    &&& forall|j: int| 0 <= j < ws.len() - 1 ==> !reading_selected(c, #[trigger] ws[j])
    &&& forall|j: int| 0 <= j < ws.len() ==> (#[trigger] ws[j] matches Some(x) ==> wall_in_range(x))
}

/// Whether `ws` are readings of all the minutes searched, none selected by `c`.
pub open spec fn readings_none_select(c: CronSpec, ws: Seq<Option<WallClock>>) -> bool {
    &&& ws.len() == MAX_STEPS
    &&& forall|j: int| 0 <= j < ws.len() ==> !reading_selected(c, #[trigger] ws[j])
}

/// What holds of the local-time search from `now`, whatever the machine's zone: the
/// minute found is the first whose local reading `c` selects; none is found only when
/// no reading of the searched minutes is selected.
pub open spec fn local_search_ok(c: CronSpec, now: int, r: Option<i64>) -> bool {
    match r {
        Some(t) => local_found(c, now, t as int),
        None => local_missed(c),
    }
}

/// Whether some readings of the minutes from `now` on are first selected at `t`.
pub open spec fn local_found(c: CronSpec, now: int, t: int) -> bool {
    exists|ws: Seq<Option<WallClock>>| #[trigger] readings_first_select(c, minute_start(now), ws, t)
}

/// Whether some readings of all the minutes searched are none selected.
pub open spec fn local_missed(c: CronSpec) -> bool {
    exists|ws: Seq<Option<WallClock>>| #[trigger] readings_none_select(c, ws)
}

/// Searches minute by minute from `now` for the first wall-clock minute `expr`
/// selects, in UTC or in local time.
fn next_after(expr: &CronExpr, utc: bool, now_ms: i64) -> (r: Option<i64>)
    requires
        search_fits(now_ms as int),
    ensures
        search_result_ok(now_ms as int, r),
        utc ==> r == first_utc_match(expr.model(), minute_start(now_ms as int), 0),
        !utc ==> local_search_ok(expr.model(), now_ms as int, r),
{
    let rem = match now_ms.checked_rem_euclid(MINUTE_MS) {
        Some(v) => v,
        None => 0,
    };
    assert(rem == now_ms % MINUTE_MS);
    let start = now_ms - rem + MINUTE_MS;
    let ghost c = expr.model();
    let ghost mut ws: Seq<Option<WallClock>> = Seq::empty();
    let mut i: i64 = 0;
    while i < MAX_STEPS
        invariant
            ws.len() == i,
            forall|j: int| 0 <= j < ws.len() ==> !reading_selected(c, #[trigger] ws[j]),
            forall|j: int| 0 <= j < ws.len() ==> (#[trigger] ws[j] matches Some(x) ==> wall_in_range(x)),
            0 <= i <= MAX_STEPS,
            start == minute_start(now_ms as int),
            search_fits(now_ms as int),
            c == expr.model(),
            start as int % (MINUTE_MS as int) == 0,
            utc ==> first_utc_match(c, start as int, 0) == first_utc_match(c, start as int, i as int),
        decreases MAX_STEPS - i,
    {
        assert(0 <= i * MINUTE_MS < MAX_STEPS * MINUTE_MS) by (nonlinear_arith)
            requires 0 <= i < MAX_STEPS;
        let t = start + i * MINUTE_MS;
        assert(t as int % (MINUTE_MS as int) == 0) by {
            vstd::arithmetic::div_mod::lemma_mod_multiples_vanish(i as int, start as int, MINUTE_MS as int);
        }
        let w = if utc {
            utc_wall_clock(t)
        } else {
            local_wall_clock(t)
        };
        proof {
            ws = ws.push(w);
        }
        match w {
            Some(w) => {
                if expr.matches(&w) {
                    proof {
                        assert(readings_first_select(c, start as int, ws, t as int));
                        assert(readings_first_select(c, minute_start(now_ms as int), ws, t as int));
                        assert(local_found(c, now_ms as int, t as int));
                        assert(local_search_ok(c, now_ms as int, Some(t)));
                    }
                    return Some(t);
                }
            },
            None => {},
        }
        i = i + 1;
    }
    proof {
        assert(readings_none_select(c, ws));
        assert(local_missed(c));
        assert(local_search_ok(c, now_ms as int, None));
    }
    None
}

/// Whether `tz` names UTC (`utc` in any case, or `Z`).
pub open spec fn is_utc_name(tz: Seq<char>) -> bool {
    eq_ignore_case(tz, "utc"@) || tz == "Z"@
}

/// What `compute_next_run` returns, or for local-time cron schedules what holds of it.
pub open spec fn next_run_rel(s: CronSchedule, now: i64, r: Option<i64>) -> bool {
    match s.kind {
        ScheduleKind::At => r == match s.at_ms {
            Some(at) => if at > now {
                Some(at)
            } else {
                None
            },
            None => None,
        },
        ScheduleKind::Every => r == match s.every_ms {
            Some(e) => if e > 0 {
                Some((now + e) as i64)
            } else {
                None
            },
            None => None,
        },
        ScheduleKind::Cron => match s.expr {
            None => r is None,
            Some(e) => match cron_spec(e@) {
                None => r is None,
                Some(c) => match s.tz {
                    None => search_result_ok(now as int, r) && local_search_ok(c, now as int, r),
                    Some(tz) => if is_utc_name(tz@) {
                        r == first_utc_match(c, minute_start(now as int), 0)
                    } else {
                        r is None
                    },
                },
            },
        },
    }
}

/// Whether computing the next run from `now` stays within `i64`.
pub open spec fn next_run_computable(s: CronSchedule, now: i64) -> bool {
    &&& s.kind == ScheduleKind::Every ==> match s.every_ms {
        Some(e) => e > 0 ==> now + e <= i64::MAX,
        None => true,
    }
    &&& s.kind == ScheduleKind::Cron ==> search_fits(now as int)
}

/// The next run of a schedule after `now_ms` (ms since the epoch), or `None`.
pub fn compute_next_run(schedule: &CronSchedule, now_ms: i64) -> (r: Option<i64>)
    requires
        next_run_computable(*schedule, now_ms),
    ensures
        next_run_rel(*schedule, now_ms, r),
{
    match schedule.kind {
        ScheduleKind::At => match schedule.at_ms {
            Some(at) => if at > now_ms {
                Some(at)
            } else {
                None
            },
            None => None,
        },
        ScheduleKind::Every => match schedule.every_ms {
            Some(every) => if every > 0 {
                Some(now_ms + every)
            } else {
                None
            },
            None => None,
        },
        ScheduleKind::Cron => compute_cron_next_run(schedule, now_ms),
    }
}

fn compute_cron_next_run(schedule: &CronSchedule, now_ms: i64) -> (r: Option<i64>)
    requires
        schedule.kind == ScheduleKind::Cron,
        search_fits(now_ms as int),
    ensures
        next_run_rel(*schedule, now_ms, r),
{
    let text = match &schedule.expr {
        Some(e) => e,
        None => {
            return None;
        },
    };
    let expr = match CronExpr::parse(text.as_str()) {
        Some(e) => e,
        None => {
            return None;
        },
    };
    match &schedule.tz {
        None => next_after(&expr, false, now_ms),
        Some(tz) => {
            let tzc = chars_of(tz.as_str());
            let utc_chars = chars_of("utc");
            if eq_ignore_ascii_case(&tzc, &utc_chars) || eq_str(&tzc, "Z") {
                next_after(&expr, true, now_ms)
            } else {
                None
            }
        },
    }
}

} // verus!

verus! {

/// A minute found by the search from `minute_start(now)` lies after `now`.
proof fn lemma_first_match_after(c: CronSpec, now: int, i: int)
    requires
        search_fits(now),
        0 <= i,
    ensures
        first_utc_match(c, minute_start(now), i) matches Some(t) ==> t > now,
    decreases MAX_STEPS - i,
{
    let start = minute_start(now);
    if i < MAX_STEPS {
        let t = start + i * MINUTE_MS;
        assert(0 <= i * MINUTE_MS < MAX_STEPS * MINUTE_MS) by (nonlinear_arith)
            requires 0 <= i < MAX_STEPS;
        assert(now < start <= now + MINUTE_MS);
        assert(i64::MIN <= t <= i64::MAX);
        assert((t as i64) as int == t);
        lemma_first_match_after(c, now, i + 1);
    }
}

/// The next run of a schedule always lies strictly after the moment it is computed
/// from.
pub proof fn law_next_run_after_now(s: CronSchedule, now: i64, r: Option<i64>)
    requires
        next_run_computable(s, now),
        next_run_rel(s, now, r),
        r is Some,
    ensures
        r.unwrap() > now,
{
    if s.kind == ScheduleKind::Cron {
        match s.expr {
            Some(e) => match cron_spec(e@) {
                Some(c) => match s.tz {
                    Some(tz) => if is_utc_name(tz@) {
                        lemma_first_match_after(c, now as int, 0);
                    },
                    None => {},
                },
                None => {},
            },
            None => {},
        }
    }
}

} // verus!

verus! {

/// The reading of minute `m` among readings that start at minute `start`.
pub open spec fn reading_of(ws: Seq<Option<WallClock>>, start: int, m: int) -> Option<WallClock> {
    ws[(m - start) / (MINUTE_MS as int)]
}

/// A local-time cron schedule runs next at the first whole minute after `now` whose
/// local wall-clock time its expression selects: the minute returned lies after
/// `now`, its local reading is selected, and the reading of every whole minute
/// between `now` and it is not.
pub proof fn law_local_cron_runs_at_first_selected_minute(s: CronSchedule, now: i64, t: i64)
    requires
        next_run_computable(s, now),
        next_run_rel(s, now, Some(t)),
        s.kind == ScheduleKind::Cron,
        s.tz is None,
    ensures
        now < t,
        t % MINUTE_MS == 0,
        exists|ws: Seq<Option<WallClock>>| {
            &&& reading_selected(cron_spec(s.expr.unwrap()@).unwrap(), #[trigger] reading_of(ws, minute_start(now as int), t as int))
            &&& forall|m: int| now < m < t && m % (MINUTE_MS as int) == 0
                ==> !reading_selected(cron_spec(s.expr.unwrap()@).unwrap(), #[trigger] reading_of(ws, minute_start(now as int), m))
        },
{
    let c = cron_spec(s.expr.unwrap()@).unwrap();
    let start = minute_start(now as int);
    let ws = choose|ws: Seq<Option<WallClock>>| #[trigger] readings_first_select(c, start, ws, t as int);
    let k = ws.len() - 1;
    assert(t == start + k * MINUTE_MS);
    assert((t - start) / (MINUTE_MS as int) == k) by {
        vstd::arithmetic::div_mod::lemma_div_multiples_vanish(k, MINUTE_MS as int);
    }
    assert(reading_of(ws, start, t as int) == ws.last());
    assert forall|m: int| now < m < t && m % (MINUTE_MS as int) == 0
        implies !reading_selected(c, #[trigger] reading_of(ws, start, m)) by {
        let q = m / (MINUTE_MS as int);
        vstd::arithmetic::div_mod::lemma_fundamental_div_mod(m, MINUTE_MS as int);
        vstd::arithmetic::div_mod::lemma_fundamental_div_mod(now as int, MINUTE_MS as int);
        let sq = (now as int) / (MINUTE_MS as int) + 1;
        assert(start == sq * MINUTE_MS);
        assert(m == q * MINUTE_MS);
        assert(q >= sq) by (nonlinear_arith)
            requires m == q * 60000, start == sq * 60000, now < m, start == now - (now - (now / 60000) * 60000) + 60000,
                sq == now / 60000 + 1;
        assert(m - start == (q - sq) * MINUTE_MS) by (nonlinear_arith)
            requires m == q * 60000, start == sq * 60000;
        vstd::arithmetic::div_mod::lemma_div_multiples_vanish(q - sq, MINUTE_MS as int);
        assert(q - sq < k) by (nonlinear_arith)
            requires m - start == (q - sq) * 60000, t == start + k * 60000, m < t;
    }
    assert(t > now) by {
        vstd::arithmetic::div_mod::lemma_fundamental_div_mod(now as int, MINUTE_MS as int);
    }
    assert(t % MINUTE_MS == 0) by {
        vstd::arithmetic::div_mod::lemma_fundamental_div_mod(now as int, MINUTE_MS as int);
        vstd::arithmetic::div_mod::lemma_mod_multiples_vanish((now as int) / (MINUTE_MS as int) + 1 + k, 0, MINUTE_MS as int);
    }
}

} // verus!
