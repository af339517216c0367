//! Cron expressions evaluated in a named time zone.
//!
//! The time zone is a required parameter, not decoration: `0 2 * * *` in
//! `Asia/Shanghai` and in `America/New_York` are different instants, and the
//! latter has one day a year without 02:00 and one with two 01:00s. Parsing
//! and stepping through occurrences is croner's work; this module decides what
//! is due, how much of a backlog is kept, and which misfire policy fires what.
//!
//! Instants are microseconds since the Unix epoch, UTC.

use vstd::prelude::*;

use chrono::TimeZone;


verus! {

#[verifier::external_type_specification]
#[verifier::external_body]
pub struct ExTz(chrono_tz::Tz);

#[verifier::external_type_specification]
#[verifier::external_body]
pub struct ExCron(croner::Cron);

/// At most this many past occurrences are replayed after an outage.
///
/// An `*/1 * * * *` job that was down for a week missed ten thousand
/// occurrences; replaying all of them at once would flood the cluster.
pub const MAX_CATCH_UP: usize = 512;

/// Microseconds in one second.
pub const MICROS_PER_SECOND: i64 = 1_000_000;

/// An instant past the end of chrono's calendar (year 262142): no
/// `DateTime<Utc>` lies later.
pub const MAX_INSTANT: i64 = 8_300_000_000_000_000_000;

/// How local times are rendered for people.
pub const LOCAL_PATTERN: &'static str = "%Y-%m-%d %H:%M:%S %Z";

// ------------------------------------------------------------------ names

/// The time zone database knows `name` (what `chrono_tz::Tz::from_str`
/// accepts).
pub uninterp spec fn is_known_timezone(name: Seq<char>) -> bool;

/// The UTC instants that a local wall-clock time (microseconds since the
/// local epoch) stands for in the zone `zone`: `None` when that wall-clock
/// time does not exist there, `(t, t)` when it is unique, `(earlier, later)`
/// when it occurs twice.
pub uninterp spec fn local_lookup(zone: Seq<char>, naive: i64) -> Option<(i64, i64)>;

/// `at` rendered in `zone` with the chrono format `pattern`.
pub uninterp spec fn local_rendering(zone: Seq<char>, at: i64, pattern: Seq<char>) -> Seq<char>;

/// croner's verdict on an expression: `None` when it parses, else the text
/// of its error.
pub uninterp spec fn cron_parse_error(expr: Seq<char>) -> Option<Seq<char>>;

/// The first occurrence of `expr` in `zone` strictly after `after`, as croner
/// finds it.
pub uninterp spec fn next_occurrence(expr: Seq<char>, zone: Seq<char>, after: i64) -> Option<i64>;

// ------------------------------------------------------------------ trusted

/// `chrono_tz::Tz::from_str`: succeeds exactly for the names the database
/// knows.
#[verifier::external_body]
fn parse_tz(name: &str) -> (r: Option<chrono_tz::Tz>)
    ensures
        r is Some == is_known_timezone(name@),
{
    match name.parse::<chrono_tz::Tz>() {
        Ok(tz) => Some(tz),
        Err(_) => None,
    }
}

/// `TimeZone::from_local_datetime` for a zone built by [`Zone::parse`]. A
/// wall-clock time outside chrono's range is reported as missing.
#[verifier::external_body]
fn tz_local_lookup(zone: &Zone, naive: i64) -> (r: Option<(i64, i64)>)
    ensures
        r == local_lookup(zone@, naive),
{
    let local = match chrono::DateTime::from_timestamp_micros(naive) {
        Some(t) => t.naive_utc(),
        None => return None,
    };
    match zone.tz.from_local_datetime(&local) {
        chrono::LocalResult::Single(t) => Some((t.timestamp_micros(), t.timestamp_micros())),
        chrono::LocalResult::Ambiguous(a, b) => Some((a.timestamp_micros(), b.timestamp_micros())),
        chrono::LocalResult::None => None,
    }
}

/// `DateTime::with_timezone(..).format(pattern)` for a zone built by
/// [`Zone::parse`]; an instant outside chrono's range renders as nothing.
/// Only [`LOCAL_PATTERN`] is admitted: its items are all valid, so chrono's
/// formatter never fails on it (an invalid item would make `to_string`
/// panic).
#[verifier::external_body]
fn tz_render(zone: &Zone, at: i64, pattern: &str) -> (s: String)
    requires
        pattern@ == LOCAL_PATTERN@,
    ensures
        s@ == local_rendering(zone@, at, pattern@),
{
    match chrono::DateTime::from_timestamp_micros(at) {
        Some(t) => t.with_timezone(&zone.tz).format(pattern).to_string(),
        None => String::new(),
    }
}

/// `croner::Cron::from_str`, with the error rendered by its `Display`.
#[verifier::external_body]
fn parse_cron_expr(expr: &str) -> (r: Result<croner::Cron, String>)
    ensures
        match r {
            Ok(_) => cron_parse_error(expr@) is None,
            Err(m) => cron_parse_error(expr@) == Some(m@),
        },
{
    match expr.parse::<croner::Cron>() {
        Ok(cron) => Ok(cron),
        Err(err) => Err(format!("{err}")),
    }
}

/// `Cron::find_next_occurrence(.., inclusive = false)` in the schedule's
/// zone. croner steps one whole second past the start before it searches, so
/// what it finds lies strictly after `after`; being a chrono `DateTime` it
/// lies before [`MAX_INSTANT`]. An instant outside chrono's range, or a
/// search that croner gives up on, has no next occurrence. What it finds is
/// the first occurrence: from any instant between `after` and it, the same
/// one is found.
#[verifier::external_body]
fn cron_next(schedule: &CronSchedule, after: i64) -> (r: Option<i64>)
    ensures
        r == next_occurrence(schedule@.0, schedule@.1, after),
        r matches Some(n) ==> after < n <= MAX_INSTANT,
        r matches Some(n) ==> forall|t: i64|
            after <= t < n ==> #[trigger] next_occurrence(schedule@.0, schedule@.1, t) == Some(n),
{
    let start = match chrono::DateTime::from_timestamp_micros(after) {
        Some(t) => t.with_timezone(&schedule.zone.tz),
        None => return None,
    };
    match schedule.cron.find_next_occurrence(&start, false) {
        Ok(t) => Some(t.timestamp_micros()),
        Err(_) => None,
    }
}

/// `Utc::now()` in microseconds.
#[verifier::external_body]
fn now_micros() -> (t: i64) {
    chrono::Utc::now().timestamp_micros()
}

/// `rand::random_range(0..=max)`: uniform in `[0, max]`.
#[verifier::external_body]
fn random_up_to(max: i64) -> (r: i64)
    requires
        max >= 0,
    ensures
        0 <= r <= max,
{
    rand::random_range(0..=max)
}

// ------------------------------------------------------------------ zones

/// An IANA time zone, remembered together with the name it was parsed from.
pub struct Zone {
    name: String,
    tz: chrono_tz::Tz,
}

impl View for Zone {
    type V = Seq<char>;

    closed spec fn view(&self) -> Seq<char> {
        self.name@
    }
}

impl Zone {
    /// Looks a zone up by its IANA name (`Asia/Shanghai`, `UTC`).
    pub fn parse(name: &str) -> (r: Option<Zone>)
        ensures
            r is Some == is_known_timezone(name@),
            r matches Some(z) ==> z@ == name@,
    {
        match parse_tz(name) {
            Some(tz) => Some(Zone { name: String::from_str(name), tz }),
            None => None,
        }
    }

    /// The name the zone was parsed from.
    pub fn name(&self) -> (s: &str)
        ensures
            s@ == self@,
    {
        self.name.as_str()
    }
}

/// The local-time rule for `local_to_utc`: the earlier instant of a repeated
/// wall-clock time; for a skipped one, the first wall-clock time up to two
/// hours later that exists.
pub open spec fn local_to_utc_spec(zone: Seq<char>, naive: i64) -> Option<i64> {
    match local_lookup(zone, naive) {
        Some(pair) => Some(pair.0),
        None => first_existing_after(zone, naive, 1),
    }
}

/// The earliest instant of the first wall-clock time `naive + m` minutes,
/// `m` from `from` up to 120, that exists in `zone`.
pub open spec fn first_existing_after(zone: Seq<char>, naive: i64, from: int) -> Option<i64>
    decreases 121 - from,
{
    if from > 120 || from < 1 {
        None
    } else {
        match local_lookup(zone, (naive + from * 60 * MICROS_PER_SECOND) as i64) {
            Some(pair) => Some(pair.0),
            None => first_existing_after(zone, naive, from + 1),
        }
    }
}

/// Local wall-clock time (microseconds since the local epoch) to UTC.
///
/// A repeated wall-clock time (autumn DST) maps to its earlier instant; a
/// skipped one (spring DST) moves forward to the first wall-clock time that
/// exists, looking up to two hours ahead.
pub fn local_to_utc(zone: &Zone, naive: i64) -> (r: Option<i64>)
    requires
        naive + 120 * 60 * MICROS_PER_SECOND <= i64::MAX,
    ensures
        r == local_to_utc_spec(zone@, naive),
{
    match tz_local_lookup(zone, naive) {
        Some(pair) => Some(pair.0),
        None => {
            let mut m: i64 = 1;
            while m <= 120
                invariant
                    1 <= m <= 121,
                    naive + 120 * 60 * MICROS_PER_SECOND <= i64::MAX,
                    local_lookup(zone@, naive) is None,
                    local_to_utc_spec(zone@, naive) == first_existing_after(zone@, naive, m as int),
                decreases 121 - m,
            {
                let shifted = naive + m * 60 * MICROS_PER_SECOND;
                match tz_local_lookup(zone, shifted) {
                    Some(pair) => {
                        return Some(pair.0);
                    },
                    None => {},
                }
                m += 1;
            }
            None
        },
    }
}

// ------------------------------------------------------------------ errors

/// Why an expression or zone was refused.
#[derive(Debug, Clone)]
pub enum CronError {
    BadExpression { expr: String, detail: String },
    BadTimezone(String),
    NeverFires(String),
}

/// The text of a [`CronError`], as it is shown to users.
pub open spec fn cron_error_message(e: CronError) -> Seq<char> {
    match e {
        CronError::BadExpression { expr, detail } => "cron 表达式 `"@ + expr@ + "` 无法解析："@
            + detail@,
        CronError::BadTimezone(name) => "`"@ + name@ + "` 不是合法的 IANA 时区名（形如 Asia/Shanghai、UTC）"@,
        CronError::NeverFires(expr) => "cron 表达式 `"@ + expr@ + "` 永远不会触发"@,
    }
}

impl CronError {
    /// The message shown to users.
    pub fn message(&self) -> (s: String)
        ensures
            s@ == cron_error_message(*self),
    {
        match self {
            CronError::BadExpression { expr, detail } => {
                let mut s = String::from_str("cron 表达式 `");
                s.append(expr.as_str());
                s.append("` 无法解析：");
                s.append(detail.as_str());
                s
            },
            CronError::BadTimezone(name) => {
                let mut s = String::from_str("`");
                s.append(name.as_str());
                s.append("` 不是合法的 IANA 时区名（形如 Asia/Shanghai、UTC）");
                s
            },
            CronError::NeverFires(expr) => {
                let mut s = String::from_str("cron 表达式 `");
                s.append(expr.as_str());
                s.append("` 永远不会触发");
                s
            },
        }
    }
}

// ------------------------------------------------------------------ schedules

/// What happens to occurrences that were missed.
#[derive(Debug, Clone, Copy, PartialEq, Eq, Structural)]
pub enum MisfirePolicy {
    /// Fire only what is on time; drop the backlog.
    Skip,
    /// Fire the newest missed occurrence, once.
    FireOnce,
    /// Replay every missed occurrence.
    FireAll,
}

/// A parsed cron rule in its time zone.
pub struct CronSchedule {
    cron: croner::Cron,
    zone: Zone,
    expr: String,
}

impl View for CronSchedule {
    /// The expression and the zone name.
    type V = (Seq<char>, Seq<char>);

    closed spec fn view(&self) -> (Seq<char>, Seq<char>) {
        (self.expr@, self.zone@)
    }
}

/// The outcome of parsing `expr` in `timezone`, judged at instant `now`.
pub open spec fn parse_outcome(expr: Seq<char>, timezone: Seq<char>, now: i64) -> Option<
    CronErrorKind,
> {
    if !is_known_timezone(timezone) {
        Some(CronErrorKind::BadTimezone)
    } else if cron_parse_error(expr) is Some {
        Some(CronErrorKind::BadExpression)
    } else if next_occurrence(expr, timezone, now) is None {
        Some(CronErrorKind::NeverFires)
    } else {
        None
    }
}

/// Which [`CronError`] variant.
#[derive(Debug, Clone, Copy, PartialEq, Eq, Structural)]
pub enum CronErrorKind {
    BadExpression,
    BadTimezone,
    NeverFires,
}

/// `e` is exactly the error that `parse_outcome` names for these inputs.
pub open spec fn is_parse_error(e: CronError, expr: Seq<char>, timezone: Seq<char>) -> bool {
    match e {
        CronError::BadTimezone(name) => name@ == timezone,
        CronError::BadExpression { expr: x, detail } => x@ == expr && cron_parse_error(expr) == Some(
            detail@,
        ),
        CronError::NeverFires(x) => x@ == expr,
    }
}

pub open spec fn kind_of(e: CronError) -> CronErrorKind {
    match e {
        CronError::BadExpression { .. } => CronErrorKind::BadExpression,
        CronError::BadTimezone(_) => CronErrorKind::BadTimezone,
        CronError::NeverFires(_) => CronErrorKind::NeverFires,
    }
}

/// The occurrences in `(after, now]`, in order.
pub open spec fn due_points(v: (Seq<char>, Seq<char>), after: i64, now: i64) -> Seq<i64>
    decreases now - after,
{
    match next_occurrence(v.0, v.1, after) {
        Some(n) => if after < n && n <= now {
            seq![n] + due_points(v, n, now)
        } else {
            Seq::empty()
        },
        None => Seq::empty(),
    }
}

/// The last `k` elements of `s` (all of them when `s` is shorter).
pub open spec fn last_n(s: Seq<i64>, k: int) -> Seq<i64> {
    if s.len() <= k {
        s
    } else {
        s.skip(s.len() - k)
    }
}

impl CronSchedule {
    /// The first occurrence strictly after `after`.
    pub open spec fn next_after_spec(&self, after: i64) -> Option<i64> {
        next_occurrence(self@.0, self@.1, after)
    }

    /// Parses `expr` in `timezone`, judging "never fires" at instant `now`.
    ///
    /// Five fields (min hour dom month dow) and six (with seconds) are both
    /// accepted, as are `L` and `#`. An expression that is well-formed but
    /// never fires (`0 0 30 2 *`) is refused here, not a year later.
    pub fn parse_at(expr: &str, timezone: &str, now: i64) -> (r: Result<CronSchedule, CronError>)
        ensures
            match r {
                Ok(s) => parse_outcome(expr@, timezone@, now) is None && s@ == (expr@, timezone@),
                Err(e) => parse_outcome(expr@, timezone@, now) == Some(kind_of(e))
                    && is_parse_error(e, expr@, timezone@),
            },
    {
        let zone = match Zone::parse(timezone) {
            Some(z) => z,
            None => {
                return Err(CronError::BadTimezone(String::from_str(timezone)));
            },
        };
        let cron = match parse_cron_expr(expr) {
            Ok(c) => c,
            Err(detail) => {
                return Err(CronError::BadExpression { expr: String::from_str(expr), detail });
            },
        };
        let schedule = CronSchedule { cron, zone, expr: String::from_str(expr) };
        if schedule.next_after(now).is_none() {
            return Err(CronError::NeverFires(String::from_str(expr)));
        }
        Ok(schedule)
    }

    /// Parses `expr` in `timezone`, judging "never fires" now.
    pub fn parse(expr: &str, timezone: &str) -> (r: Result<CronSchedule, CronError>)
        ensures
            match r {
                Ok(s) => s@ == (expr@, timezone@) && is_known_timezone(timezone@)
                    && cron_parse_error(expr@) is None && exists|t: i64|
                    #[trigger] next_occurrence(expr@, timezone@, t) is Some,
                Err(e) => is_parse_error(e, expr@, timezone@) && (e is NeverFires ==> exists|t: i64|
                    #[trigger] next_occurrence(expr@, timezone@, t) is None) && (kind_of(e)
                    == CronErrorKind::BadTimezone <==> !is_known_timezone(timezone@)) && (kind_of(e)
                    == CronErrorKind::BadExpression <==> (is_known_timezone(timezone@)
                    && cron_parse_error(expr@) is Some)),
            },
    {
        let now = now_micros();
        let r = CronSchedule::parse_at(expr, timezone, now);
        proof {
            if parse_outcome(expr@, timezone@, now) is None {
                assert(next_occurrence(expr@, timezone@, now) is Some);
            }
            if parse_outcome(expr@, timezone@, now) == Some(CronErrorKind::NeverFires) {
                assert(next_occurrence(expr@, timezone@, now) is None);
            }
        }
        r
    }

    /// The first occurrence strictly after `after`.
    pub fn next_after(&self, after: i64) -> (r: Option<i64>)
        ensures
            r == next_occurrence(self@.0, self@.1, after),
            r matches Some(n) ==> after < n <= MAX_INSTANT,
            r matches Some(n) ==> forall|t: i64|
                after <= t < n ==> #[trigger] next_occurrence(self@.0, self@.1, t) == Some(n),
    {
        cron_next(self, after)
    }

    /// The expression as written.
    pub fn expression(&self) -> (s: &str)
        ensures
            s@ == self@.0,
    {
        self.expr.as_str()
    }

    /// The zone the expression is evaluated in.
    pub fn timezone(&self) -> (z: &Zone)
        ensures
            z@ == self@.1,
    {
        &self.zone
    }

    /// `at` in the rule's zone, for display (`2026-09-08 10:01:00 CST`).
    pub fn to_local_string(&self, at: i64) -> (s: String)
        ensures
            s@ == local_rendering(self@.1, at, LOCAL_PATTERN@),
    {
        tz_render(&self.zone, at, LOCAL_PATTERN)
    }

    /// Every occurrence in `(after, now]`, keeping only the newest
    /// [`MAX_CATCH_UP`] and counting all of them.
    pub fn due_between(&self, after: i64, now: i64) -> (d: DueSet)
        ensures
            d.total as int == vstd::math::min(due_points(self@, after, now).len() as int, usize::MAX as int),
            d.points@ == last_n(due_points(self@, after, now), MAX_CATCH_UP as int),
            d.truncated == (due_points(self@, after, now).len() > MAX_CATCH_UP),
            d.points@.len() <= MAX_CATCH_UP,
    {
        let mut points: Vec<i64> = Vec::new();
        let mut cursor = after;
        let mut total: usize = 0;
        let ghost all: Seq<i64> = Seq::empty();
        proof {
            lemma_due_points_bounded(self@, after, now);
        }
        loop
            invariant_except_break
                due_points(self@, after, now) == all + due_points(self@, cursor, now),
                total as int == vstd::math::min(all.len() as int, usize::MAX as int),
                points@ == last_n(all, MAX_CATCH_UP as int),
                all.len() > 0 ==> cursor == all.last(),
                all.len() > 0 ==> after < cursor <= now,
                all.len() == 0 ==> cursor == after,
                all.len() + due_points(self@, cursor, now).len() <= if now > after {
                    now - after
                } else {
                    0
                },
            ensures
                due_points(self@, after, now) == all,
                total as int == vstd::math::min(all.len() as int, usize::MAX as int),
                points@ == last_n(all, MAX_CATCH_UP as int),
            decreases now - cursor,
        {
            let next = match self.next_after(cursor) {
                Some(n) => n,
                None => {
                    assert(all + due_points(self@, cursor, now) =~= all);
                    break;
                },
            };
            if next > now {
                assert(all + due_points(self@, cursor, now) =~= all);
                break;
            }
            proof {
                assert(due_points(self@, cursor, now) == seq![next] + due_points(self@, next, now));
                assert(all + due_points(self@, cursor, now) =~= all.push(next) + due_points(
                    self@,
                    next,
                    now,
                ));
            }
            total = total.saturating_add(1);
            if points.len() == MAX_CATCH_UP {
                points.remove(0);
            }
            points.push(next);
            proof {
                let all2 = all.push(next);
                if all.len() < MAX_CATCH_UP {
                    assert(points@ =~= last_n(all2, MAX_CATCH_UP as int));
                } else {
                    assert(points@ =~= last_n(all2, MAX_CATCH_UP as int));
                }
                all = all2;
            }
            cursor = next;
        }
        DueSet { truncated: total > points.len(), total, points }
    }
}

proof fn lemma_due_points_bounded(v: (Seq<char>, Seq<char>), after: i64, now: i64)
    ensures
        due_points(v, after, now).len() <= if now > after {
            now - after
        } else {
            0
        },
    decreases now - after,
{
    match next_occurrence(v.0, v.1, after) {
        Some(n) => if after < n && n <= now {
            lemma_due_points_bounded(v, n, now);
        },
        None => {},
    }
}

/// The occurrences due in one interval.
#[derive(Debug, Clone)]
pub struct DueSet {
    /// Due occurrences, oldest first. When truncated, only the newest.
    pub points: Vec<i64>,
    /// How many occurrences the interval held, truncated ones included.
    pub total: usize,
    /// There were more than [`MAX_CATCH_UP`].
    pub truncated: bool,
}

/// The occurrences a misfire policy fires.
pub open spec fn select_spec(points: Seq<i64>, now: i64, policy: MisfirePolicy, grace: i64) -> Seq<
    i64,
> {
    match policy {
        MisfirePolicy::Skip => points.filter(|p: i64| now - p <= grace),
        MisfirePolicy::FireOnce => if points.len() == 0 {
            Seq::empty()
        } else {
            seq![points.last()]
        },
        MisfirePolicy::FireAll => points,
    }
}

impl DueSet {
    pub fn is_empty(&self) -> (b: bool)
        ensures
            b == (self.points@.len() == 0),
    {
        self.points.len() == 0
    }

    /// Where the schedule's cursor moves to: the newest due occurrence.
    pub fn newest(&self) -> (r: Option<i64>)
        ensures
            self.points@.len() == 0 ==> r is None,
            self.points@.len() > 0 ==> r == Some(self.points@.last()),
    {
        if self.points.len() == 0 {
            None
        } else {
            Some(self.points[self.points.len() - 1])
        }
    }

    /// Picks what actually fires under `policy`.
    ///
    /// An occurrence at most `grace` late is on time and fires under every
    /// policy; otherwise `skip` would never fire during normal operation.
    /// `Skip` drops the backlog, `FireOnce` fires only the newest, `FireAll`
    /// replays everything.
    pub fn select(&self, now: i64, policy: MisfirePolicy, grace: i64) -> (r: Vec<i64>)
        ensures
            r@ == select_spec(self.points@, now, policy, grace),
    {
        match policy {
            MisfirePolicy::Skip => {
                let mut out: Vec<i64> = Vec::new();
                let n = self.points.len();
                let mut i: usize = 0;
                while i < n
                    invariant
                        n == self.points@.len(),
                        i <= n,
                        out@ == self.points@.take(i as int).filter(|p: i64| now - p <= grace),
                    decreases n - i,
                {
                    let p = self.points[i];
                    proof {
                        reveal(Seq::filter);
                        assert(self.points@.take(i + 1).drop_last() =~= self.points@.take(
                            i as int,
                        ));
                    }
                    if (now as i128) - (p as i128) <= grace as i128 {
                        out.push(p);
                    }
                    i += 1;
                }
                assert(self.points@.take(n as int) =~= self.points@);
                out
            },
            MisfirePolicy::FireOnce => match self.newest() {
                Some(p) => {
                    let mut out: Vec<i64> = Vec::new();
                    out.push(p);
                    assert(out@ =~= seq![self.points@.last()]);
                    out
                },
                None => Vec::new(),
            },
            MisfirePolicy::FireAll => self.points.clone(),
        }
    }
}

/// The claim time for an occurrence: `fire_at` delayed by a uniform
/// `[0, jitter_s]` seconds.
///
/// Only the claim moves, never the canonical occurrence: that one goes into
/// `UNIQUE (schedule_id, fire_at)`, and a random shift there would end
/// idempotence.
pub fn apply_jitter(fire_at: i64, jitter_s: u32) -> (r: i64)
    requires
        fire_at + jitter_s * MICROS_PER_SECOND <= i64::MAX,
    ensures
        jitter_s == 0 ==> r == fire_at,
        fire_at <= r <= fire_at + jitter_s * MICROS_PER_SECOND,
        (r - fire_at) % (MICROS_PER_SECOND as int) == 0,
{
    if jitter_s == 0 {
        return fire_at;
    }
    let offset = random_up_to(jitter_s as i64);
    proof {
        assert(offset * MICROS_PER_SECOND <= jitter_s * MICROS_PER_SECOND) by (nonlinear_arith)
            requires
                offset <= jitter_s,
        ;
        assert((offset * MICROS_PER_SECOND) % (MICROS_PER_SECOND as int) == 0) by (nonlinear_arith)
            requires
                offset >= 0,
        ;
    }
    fire_at + offset * MICROS_PER_SECOND
}


// ------------------------------------------------------------------ laws

/// The due occurrences of an interval come oldest first, without repeats,
/// and every one of them lies in `(after, now]`.
pub proof fn lemma_due_points_ordered(v: (Seq<char>, Seq<char>), after: i64, now: i64)
    ensures
        forall|i: int|
            0 <= i < due_points(v, after, now).len() ==> after < #[trigger] due_points(v, after, now)[i]
                <= now,
        forall|i: int, j: int|
            0 <= i < j < due_points(v, after, now).len() ==> #[trigger] due_points(v, after, now)[i]
                < #[trigger] due_points(v, after, now)[j],
    decreases now - after,
{
    match next_occurrence(v.0, v.1, after) {
        Some(n) => if after < n && n <= now {
            lemma_due_points_ordered(v, n, now);
            let rest = due_points(v, n, now);
            let all = due_points(v, after, now);
            assert(all =~= seq![n] + rest);
            assert forall|i: int, j: int| 0 <= i < j < all.len() implies #[trigger] all[i] < #[trigger] all[j] by {
                if i == 0 {
                    assert(all[j] == rest[j - 1]);
                } else {
                    assert(all[i] == rest[i - 1] && all[j] == rest[j - 1]);
                }
            }
            assert forall|i: int| 0 <= i < all.len() implies after < #[trigger] all[i] <= now by {
                if i > 0 {
                    assert(all[i] == rest[i - 1]);
                }
            }
        },
        None => {},
    }
}

/// An occurrence that is at most `grace` late fires under every misfire
/// policy: the policies only differ on the backlog.
pub proof fn lemma_on_time_fires_under_every_policy(
    points: Seq<i64>,
    now: i64,
    policy: MisfirePolicy,
    grace: i64,
)
    requires
        points.len() > 0,
        now - points.last() <= grace,
    ensures
        select_spec(points, now, policy, grace).contains(points.last()),
{
    match policy {
        MisfirePolicy::Skip => {
            points.lemma_filter_contains(|p: i64| now - p <= grace, points.len() - 1);
        },
        MisfirePolicy::FireOnce => {
            assert(seq![points.last()][0] == points.last());
        },
        MisfirePolicy::FireAll => {
            assert(points[points.len() - 1] == points.last());
        },
    }
}

/// `skip` never fires an occurrence later than `grace`.
pub proof fn lemma_skip_fires_nothing_stale(points: Seq<i64>, now: i64, grace: i64)
    ensures
        forall|i: int|
            0 <= i < select_spec(points, now, MisfirePolicy::Skip, grace).len() ==> now
                - #[trigger] select_spec(points, now, MisfirePolicy::Skip, grace)[i] <= grace,
{
    assert forall|i: int|
        0 <= i < select_spec(points, now, MisfirePolicy::Skip, grace).len() implies now
            - #[trigger] select_spec(points, now, MisfirePolicy::Skip, grace)[i] <= grace by {
        points.lemma_filter_pred(|p: i64| now - p <= grace, i);
    }
}

/// `fire_once` collapses any backlog into exactly one fire: the newest.
pub proof fn lemma_fire_once_fires_exactly_the_newest(points: Seq<i64>, now: i64, grace: i64)
    requires
        points.len() > 0,
    ensures
        select_spec(points, now, MisfirePolicy::FireOnce, grace) == seq![points.last()],
{
}

/// `fire_all` replays every missed occurrence, in order.
pub proof fn lemma_fire_all_replays_everything(points: Seq<i64>, now: i64, grace: i64)
    ensures
        select_spec(points, now, MisfirePolicy::FireAll, grace) == points,
{
}

} // verus!
