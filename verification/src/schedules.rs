//! The rules of the schedule endpoints.
//!
//! **A cron expression is compiled when it is saved.** Storing one that
//! cannot run costs a job that silently never fires; refusing it at save
//! time is the one moment a person sees the mistake.

use vstd::prelude::*;

use crate::cron::{
    cron_error_message, is_known_timezone, local_rendering, next_occurrence, CronError, CronSchedule,
    LOCAL_PATTERN,
};
use crate::error::{invalid, AppError};
use crate::text::{decimal, push_decimal};

verus! {

/// The largest random delay, in seconds: beyond it "at what time" stops
/// meaning anything.
pub const MAX_JITTER_S: u32 = 3600;

/// How many fires a preview shows by default, and at most.
pub const DEFAULT_PREVIEW: u32 = 5;
pub const MAX_PREVIEW: u32 = 10;

/// The zone of a schedule that names none.
pub fn default_tz() -> (s: String)
    ensures
        s@ == "Asia/Shanghai"@,
{
    String::from_str("Asia/Shanghai")
}

/// A new schedule is enabled unless said otherwise.
pub fn default_true() -> (b: bool)
    ensures
        b,
{
    true
}

/// The body of `PUT /api/v1/schedules/{id}/enabled`.
pub struct EnabledChange {
    pub enabled: bool,
}

/// The occurrences after `after`, at most `count`, each after the one
/// before; fewer when the rule runs out.
pub open spec fn upcoming_spec(v: (Seq<char>, Seq<char>), after: i64, count: nat) -> Seq<i64>
    decreases count,
{
    if count == 0 {
        Seq::empty()
    } else {
        match next_occurrence(v.0, v.1, after) {
            None => Seq::empty(),
            Some(n) => seq![n] + upcoming_spec(v, n, (count - 1) as nat),
        }
    }
}

/// The next `count` fire points after `after`, strictly increasing.
pub fn upcoming(schedule: &CronSchedule, after: i64, count: u32) -> (r: Vec<i64>)
    ensures
        r@ == upcoming_spec(schedule@, after, count as nat),
        forall|i: int| 0 <= i < r@.len() ==> after < #[trigger] r@[i],
        forall|i: int, j: int| 0 <= i < j < r@.len() ==> #[trigger] r@[i] < #[trigger] r@[j],
{
    let mut out: Vec<i64> = Vec::new();
    let mut cursor = after;
    let mut i: u32 = 0;
    let mut exhausted = false;
    while i < count && !exhausted
        invariant
            i <= count,
            out@ + upcoming_spec(schedule@, cursor, (count - i) as nat) == upcoming_spec(
                schedule@,
                after,
                count as nat,
            ),
            exhausted ==> upcoming_spec(schedule@, cursor, (count - i) as nat) == Seq::<i64>::empty(),
            forall|k: int| 0 <= k < out@.len() ==> after < #[trigger] out@[k] <= cursor,
            out@.len() > 0 ==> out@.last() == cursor,
            out@.len() == 0 ==> cursor == after,
            forall|a: int, b: int| 0 <= a < b < out@.len() ==> #[trigger] out@[a] < #[trigger] out@[b],
        decreases count - i, (if exhausted { 0int } else { 1int }),
    {
        match schedule.next_after(cursor) {
            None => {
                assert(upcoming_spec(schedule@, cursor, (count - i) as nat) =~= Seq::<i64>::empty());
                exhausted = true;
            },
            Some(n) => {
                let ghost before = out@;
                out.push(n);
                assert(before + upcoming_spec(schedule@, cursor, (count - i) as nat) =~= out@
                    + upcoming_spec(schedule@, n, (count - i - 1) as nat));
                cursor = n;
                i += 1;
            },
        }
    }
    if !exhausted {
        assert(upcoming_spec(schedule@, cursor, 0) =~= Seq::<i64>::empty());
    }
    assert(out@ + Seq::<i64>::empty() =~= out@);
    out
}

/// The next three fires in the schedule's local time, so that a person
/// sees at once whether the expression says what they meant. Nothing when
/// the stored expression no longer parses.
pub fn next_three(schedule: &Result<CronSchedule, CronError>, now: i64) -> (r: Vec<String>)
    ensures
        match *schedule {
            Ok(s) => r@.len() == upcoming_spec(s@, now, 3).len() && forall|i: int|
                0 <= i < r@.len() ==> (#[trigger] r@[i])@ == local_rendering(
                    s@.1,
                    upcoming_spec(s@, now, 3)[i],
                    LOCAL_PATTERN@,
                ),
            Err(_) => r@.len() == 0,
        },
{
    match schedule {
        Ok(s) => {
            let points = upcoming(s, now, 3);
            let mut out: Vec<String> = Vec::new();
            let n = points.len();
            let mut i: usize = 0;
            while i < n
                invariant
                    n == points@.len(),
                    points@ == upcoming_spec(s@, now, 3),
                    i <= n,
                    out@.len() == i,
                    forall|k: int|
                        0 <= k < i ==> (#[trigger] out@[k])@ == local_rendering(
                            s@.1,
                            points@[k],
                            LOCAL_PATTERN@,
                        ),
                decreases n - i,
            {
                out.push(s.to_local_string(points[i]));
                i += 1;
            }
            out
        },
        Err(_) => Vec::new(),
    }
}

/// The count of a preview: 5 by default, 1 to 10 allowed.
pub fn preview_count(count: Option<u32>) -> (r: Result<u32, AppError>)
    ensures
        match count {
            Some(c) => if 1 <= c <= MAX_PREVIEW {
                r == Ok::<u32, AppError>(c)
            } else {
                r matches Err(AppError::Validation(v)) && v@.len() == 1 && v@[0].field@ == "count"@
                    && v@[0].message@ == "一次预览 1 到 "@ + decimal(MAX_PREVIEW as nat) + " 次"@
            },
            None => r == Ok::<u32, AppError>(DEFAULT_PREVIEW),
        },
{
    let c = match count {
        Some(c) => c,
        None => DEFAULT_PREVIEW,
    };
    if 1 <= c && c <= MAX_PREVIEW {
        Ok(c)
    } else {
        let mut m = String::from_str("一次预览 1 到 ");
        push_decimal(&mut m, MAX_PREVIEW as u64);
        m.append(" 次");
        Err(invalid("count", m.as_str()))
    }
}

/// The jitter of a schedule: at most [`MAX_JITTER_S`] seconds.
pub fn jitter_check(jitter_s: u32) -> (r: Result<(), AppError>)
    ensures
        jitter_s <= MAX_JITTER_S ==> r is Ok,
        jitter_s > MAX_JITTER_S ==> (r matches Err(AppError::Validation(v)) && v@.len() == 1
            && v@[0].field@ == "jitter_s"@ && v@[0].message@ == "最多 "@ + decimal(MAX_JITTER_S as nat)
            + " 秒：再大的话「几点触发」就没有意义了"@),
{
    if jitter_s > MAX_JITTER_S {
        let mut m = String::from_str("最多 ");
        push_decimal(&mut m, MAX_JITTER_S as u64);
        m.append(" 秒：再大的话「几点触发」就没有意义了");
        Err(invalid("jitter_s", m.as_str()))
    } else {
        Ok(())
    }
}

/// A parse failure lands on the field that caused it: a bad zone under
/// the zone box, anything else under the expression.
pub fn cron_error(err: &CronError) -> (e: AppError)
    ensures
        e matches AppError::Validation(v) && v@.len() == 1 && v@[0].field@ == (match *err {
            CronError::BadTimezone(_) => "timezone"@,
            _ => "cron"@,
        }) && v@[0].code@ == "invalid"@ && v@[0].message@ == cron_error_message(*err),
{
    let field = match err {
        CronError::BadTimezone(_) => "timezone",
        _ => "cron",
    };
    let m = err.message();
    invalid(field, m.as_str())
}

/// The first fire point of a schedule saved at `now`.
pub fn first_fire(schedule: &CronSchedule, now: i64) -> (r: Result<i64, AppError>)
    ensures
        match next_occurrence(schedule@.0, schedule@.1, now) {
            Some(n) => r == Ok::<i64, AppError>(n),
            None => r matches Err(AppError::Validation(v)) && v@.len() == 1 && v@[0].field@ == "cron"@
                && v@[0].message@ == "这个表达式算不出任何未来的触发点（比如 2 月 30 日）"@,
        },
{
    match schedule.next_after(now) {
        Some(n) => Ok(n),
        None => Err(invalid("cron", "这个表达式算不出任何未来的触发点（比如 2 月 30 日）")),
    }
}

/// A schedule for a task that is not in this workspace would never run.
pub fn task_missing(task_id: &str) -> (e: AppError)
    ensures
        e matches AppError::Validation(v) && v@.len() == 1 && v@[0].field@ == "task_id"@
            && v@[0].message@ == "任务 "@ + task_id@ + " 不存在"@,
{
    let mut m = String::from_str("任务 ");
    m.append(task_id);
    m.append(" 不存在");
    invalid("task_id", m.as_str())
}

/// A schedule id that does not exist.
pub fn schedule_not_found(id: &str) -> (e: AppError)
    ensures
        e matches AppError::NotFound(m) && m@ == "定时配置 "@ + id@ + " 不存在"@,
{
    let mut m = String::from_str("定时配置 ");
    m.append(id);
    m.append(" 不存在");
    AppError::NotFound(m)
}

} // verus!
