//! The parameters of the home page's aggregate endpoints. Every bad
//! parameter is reported at once, not one per attempt.

use vstd::prelude::*;

use crate::cron::{is_known_timezone, Zone};
use crate::error::{AppError, FieldError};
use crate::text::{decimal, push_decimal};

verus! {

/// Days of the daily chart by default, and at most.
pub const DEFAULT_DAYS: u32 = 14;
pub const MAX_DAYS: u32 = 90;

/// The zone "today" is counted in by default.
pub const DEFAULT_TIMEZONE: &'static str = "Asia/Shanghai";

/// The window of the failing-tasks list, in hours, by default and at most.
pub const DEFAULT_WINDOW_HOURS: u32 = 168;
pub const MAX_WINDOW_HOURS: u32 = 720;

/// How many failing tasks are listed by default, and at most.
pub const DEFAULT_LIMIT: u32 = 5;
pub const MAX_LIMIT: u32 = 50;

/// The views of field errors: the fields, in order.
pub open spec fn fields_of(v: Seq<FieldError>) -> Seq<Seq<char>> {
    v.map_values(|f: FieldError| f.field@)
}

/// The fields that are wrong in a daily query.
pub open spec fn daily_errors(days: u32, zone: Seq<char>) -> Seq<Seq<char>> {
    (if 1 <= days <= MAX_DAYS {
        Seq::empty()
    } else {
        seq!["days"@]
    }) + (if is_known_timezone(zone) {
        Seq::empty()
    } else {
        seq!["timezone"@]
    })
}

/// The days and zone of the daily chart: 14 days in Asia/Shanghai unless
/// asked otherwise; 1 to 90 days and a known IANA zone.
pub fn daily_params(days: Option<u32>, timezone: Option<&str>) -> (r: Result<(u32, Zone), AppError>)
    ensures
        ({
            let d = match days {
                Some(x) => x,
                None => DEFAULT_DAYS,
            };
            let z = match timezone {
                Some(t) => t@,
                None => "Asia/Shanghai"@,
            };
            match r {
                Ok(p) => daily_errors(d, z).len() == 0 && p.0 == d && p.1@ == z,
                Err(e) => daily_errors(d, z).len() > 0 && (e matches AppError::Validation(v) && fields_of(v@)
                    == daily_errors(d, z)),
            }
        }),
{
    let d = match days {
        Some(x) => x,
        None => DEFAULT_DAYS,
    };
    let name = match timezone {
        Some(t) => t,
        None => DEFAULT_TIMEZONE,
    };
    proof {
        reveal_strlit("Asia/Shanghai");
    }
    let mut errors: Vec<FieldError> = Vec::new();
    if !(1 <= d && d <= MAX_DAYS) {
        let mut m = String::from_str("看 1 到 ");
        push_decimal(&mut m, MAX_DAYS as u64);
        m.append(" 天");
        errors.push(FieldError::new("days", "invalid", m.as_str()));
    }
    let zone = Zone::parse(name);
    if zone.is_none() {
        let mut m = String::from_str("`");
        m.append(name);
        m.append("` 不是合法的 IANA 时区名（形如 Asia/Shanghai、UTC）");
        errors.push(FieldError::new("timezone", "invalid", m.as_str()));
    }
    assert(fields_of(errors@) =~= daily_errors(d, name@));
    match zone {
        Some(z) => {
            if errors.len() == 0 {
                Ok((d, z))
            } else {
                Err(AppError::Validation(errors))
            }
        },
        None => Err(AppError::Validation(errors)),
    }
}

/// The fields that are wrong in a failing-tasks query.
pub open spec fn tasks_errors(window: u32, limit: u32) -> Seq<Seq<char>> {
    (if 1 <= window <= MAX_WINDOW_HOURS {
        Seq::empty()
    } else {
        seq!["window_hours"@]
    }) + (if 1 <= limit <= MAX_LIMIT {
        Seq::empty()
    } else {
        seq!["limit"@]
    })
}

/// The window and length of the failing-tasks list: 168 hours and 5
/// tasks unless asked otherwise, both bounded.
pub fn tasks_params(window_hours: Option<u32>, limit: Option<u32>) -> (r: Result<(u32, u32), AppError>)
    ensures
        ({
            let w = match window_hours {
                Some(x) => x,
                None => DEFAULT_WINDOW_HOURS,
            };
            let l = match limit {
                Some(x) => x,
                None => DEFAULT_LIMIT,
            };
            match r {
                Ok(p) => tasks_errors(w, l).len() == 0 && p == (w, l),
                Err(e) => tasks_errors(w, l).len() > 0 && (e matches AppError::Validation(v) && fields_of(v@)
                    == tasks_errors(w, l)),
            }
        }),
{
    let w = match window_hours {
        Some(x) => x,
        None => DEFAULT_WINDOW_HOURS,
    };
    let l = match limit {
        Some(x) => x,
        None => DEFAULT_LIMIT,
    };
    let mut errors: Vec<FieldError> = Vec::new();
    if !(1 <= w && w <= MAX_WINDOW_HOURS) {
        let mut m = String::from_str("看 1 到 ");
        push_decimal(&mut m, MAX_WINDOW_HOURS as u64);
        m.append(" 小时");
        errors.push(FieldError::new("window_hours", "invalid", m.as_str()));
    }
    if !(1 <= l && l <= MAX_LIMIT) {
        let mut m = String::from_str("一次最多 ");
        push_decimal(&mut m, MAX_LIMIT as u64);
        m.append(" 个任务");
        errors.push(FieldError::new("limit", "invalid", m.as_str()));
    }
    assert(fields_of(errors@) =~= tasks_errors(w, l));
    if errors.len() == 0 {
        Ok((w, l))
    } else {
        Err(AppError::Validation(errors))
    }
}

} // verus!
