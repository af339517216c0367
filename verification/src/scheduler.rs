//! Decisions of the cron scheduler.
//!
//! Replicas claim due schedules with `FOR UPDATE SKIP LOCKED`; a claim, the
//! runs it creates and the new cursor commit in one transaction. The database
//! work belongs to the caller. What is decided here, step by step, is what a
//! claimed schedule fires and where its cursor moves.
//!
//! Instants are microseconds since the Unix epoch, UTC.

use vstd::prelude::*;

use crate::cron::{
    apply_jitter, due_points, lemma_due_points_ordered, last_n, parse_outcome, select_spec, CronSchedule, DueSet,
    MisfirePolicy, MAX_CATCH_UP, MAX_INSTANT, MICROS_PER_SECOND,
};

verus! {

/// An occurrence at most this late is on time (30 s). Every misfire policy
/// fires on-time occurrences.
pub const GRACE_MICROS: i64 = 30 * MICROS_PER_SECOND;

/// A schedule whose expression no longer parses is looked at again after
/// this long (5 min) instead of on every tick.
pub const BAD_EXPRESSION_BACKOFF_MICROS: i64 = 300 * MICROS_PER_SECOND;

/// `overlap = queue` with the previous run still going: look again after
/// this long (10 s).
pub const QUEUE_RETRY_MICROS: i64 = 10 * MICROS_PER_SECOND;

/// Where the cursor goes when the expression has no next occurrence (1 h).
pub const NO_NEXT_ADVANCE_MICROS: i64 = 3600 * MICROS_PER_SECOND;

/// At most this many schedules are claimed in one tick.
pub const MAX_CLAIMS_PER_TICK: usize = 64;

/// What happens when an occurrence comes due while the previous run of the
/// task is still going.
#[derive(Debug, Clone, Copy, PartialEq, Eq, Structural)]
pub enum OverlapPolicy {
    /// Start it anyway.
    Allow,
    /// Drop this occurrence.
    Skip,
    /// Keep the occurrence pending until the previous run ends.
    Queue,
}

/// The cursor of a schedule after a claim.
#[derive(Debug, Clone, Copy, PartialEq, Eq, Structural)]
pub struct SchedulePosition {
    /// The next canonical occurrence; it goes into `runs.fire_at`.
    pub next_fire_at: i64,
    /// When a replica may claim the schedule again (the occurrence plus
    /// jitter).
    pub next_claim_at: i64,
    /// The newest occurrence handled so far.
    pub last_fired_at: Option<i64>,
}

/// The fields of a claimed schedule that the decisions read.
#[derive(Debug, Clone)]
pub struct ClaimedSchedule {
    pub cron: String,
    pub timezone: String,
    pub misfire: MisfirePolicy,
    pub overlap: OverlapPolicy,
    pub jitter_s: u32,
    pub task_enabled: bool,
    pub next_fire_at: Option<i64>,
    pub last_fired_at: Option<i64>,
}

/// The first step of processing a claim.
pub enum ClaimStart {
    /// The expression does not parse (any more): commit this position and
    /// create nothing.
    BadExpression(SchedulePosition),
    /// The expression parses; these occurrences are due.
    Due { schedule: CronSchedule, due: DueSet },
}

/// Where enumeration of due occurrences starts: the newest occurrence fired
/// so far, else just before the canonical next occurrence (so that one
/// counts too), else just before now.
pub open spec fn anchor_spec(last_fired_at: Option<i64>, next_fire_at: Option<i64>, now: i64) -> i64 {
    match last_fired_at {
        Some(t) => t,
        None => {
            let base = match next_fire_at {
                Some(t) => t,
                None => now,
            };
            if base >= i64::MIN + 1000 {
                (base - 1000) as i64
            } else {
                now
            }
        },
    }
}

/// A schedule that has fired enumerates from its newest occurrence; one
/// that never fired enumerates from just before its canonical occurrence
/// (one millisecond), so that occurrence itself is still due: nothing lies
/// between the anchor and it, and it counts once it has come.
pub proof fn lemma_anchor_keeps_the_first_occurrence(
    v: (Seq<char>, Seq<char>),
    last_fired_at: Option<i64>,
    t: i64,
    now: i64,
)
    requires
        t >= i64::MIN + 1000,
    ensures
        last_fired_at matches Some(l) ==> anchor_spec(last_fired_at, Some(t), now) == l,
        last_fired_at is None ==> anchor_spec(last_fired_at, Some(t), now) < t,
        last_fired_at is None ==> t - 1000 <= anchor_spec(last_fired_at, Some(t), now),
        (last_fired_at is None && crate::cron::next_occurrence(v.0, v.1, anchor_spec(last_fired_at, Some(t), now)) == Some(t)
            && t <= now) ==> due_points(v, anchor_spec(last_fired_at, Some(t), now), now).len() > 0
            && due_points(v, anchor_spec(last_fired_at, Some(t), now), now)[0] == t,
{
}

/// The anchor of [`anchor_spec`].
pub fn anchor(last_fired_at: Option<i64>, next_fire_at: Option<i64>, now: i64) -> (a: i64)
    ensures
        a == anchor_spec(last_fired_at, next_fire_at, now),
{
    match last_fired_at {
        Some(t) => t,
        None => {
            let base = match next_fire_at {
                Some(t) => t,
                None => now,
            };
            if base >= i64::MIN + 1000 {
                base - 1000
            } else {
                now
            }
        },
    }
}

/// The position of a schedule that is looked at again after `delay`
/// without firing: the canonical occurrence stays (or is now), the cursor
/// does not move.
pub fn retry_position(next_fire_at: Option<i64>, now: i64, delay: i64) -> (p: SchedulePosition)
    requires
        0 <= delay,
        now + delay <= i64::MAX,
    ensures
        p.next_fire_at == (match next_fire_at {
            Some(t) => t,
            None => now,
        }),
        p.next_claim_at == now + delay,
        p.last_fired_at is None,
{
    SchedulePosition {
        next_fire_at: match next_fire_at {
            Some(t) => t,
            None => now,
        },
        next_claim_at: now + delay,
        last_fired_at: None,
    }
}

/// Parses the claimed schedule and enumerates what is due.
///
/// A schedule whose expression no longer parses is pushed back by
/// [`BAD_EXPRESSION_BACKOFF_MICROS`]; it is neither fired nor disabled.
pub fn begin_claim(claim: &ClaimedSchedule, now: i64) -> (r: ClaimStart)
    requires
        now + BAD_EXPRESSION_BACKOFF_MICROS <= i64::MAX,
    ensures
        match r {
            ClaimStart::BadExpression(p) => parse_outcome(claim.cron@, claim.timezone@, now) is Some
                && p.next_fire_at == (match claim.next_fire_at {
                Some(t) => t,
                None => now,
            }) && p.next_claim_at == now + BAD_EXPRESSION_BACKOFF_MICROS && p.last_fired_at is None,
            ClaimStart::Due { schedule, due } => {
                let from = anchor_spec(claim.last_fired_at, claim.next_fire_at, now);
                &&& parse_outcome(claim.cron@, claim.timezone@, now) is None
                &&& schedule@ == (claim.cron@, claim.timezone@)
                &&& due.points@ == last_n(due_points(schedule@, from, now), MAX_CATCH_UP as int)
                &&& due.total as int == vstd::math::min(
                    due_points(schedule@, from, now).len() as int,
                    usize::MAX as int,
                )
                &&& due.truncated == (due_points(schedule@, from, now).len() > MAX_CATCH_UP)
            },
        },
{
    let schedule = match CronSchedule::parse_at(claim.cron.as_str(), claim.timezone.as_str(), now) {
        Ok(s) => s,
        Err(_) => {
            return ClaimStart::BadExpression(
                retry_position(claim.next_fire_at, now, BAD_EXPRESSION_BACKOFF_MICROS),
            );
        },
    };
    let from = anchor(claim.last_fired_at, claim.next_fire_at, now);
    let due = schedule.due_between(from, now);
    ClaimStart::Due { schedule, due }
}

/// `overlap = queue` with something due: the caller must find out whether
/// the previous run is still going before anything fires.
pub fn queue_needs_check(overlap: OverlapPolicy, due: &DueSet) -> (b: bool)
    ensures
        b == (overlap == OverlapPolicy::Queue && due.points@.len() > 0),
{
    overlap == OverlapPolicy::Queue && !due.is_empty()
}

/// The position of a queued schedule whose previous run is still going:
/// the cursor stays, so the occurrence stays pending until that run ends.
pub fn queued_position(next_fire_at: Option<i64>, now: i64) -> (p: SchedulePosition)
    requires
        now + QUEUE_RETRY_MICROS <= i64::MAX,
    ensures
        p == retry_position_spec(next_fire_at, now, QUEUE_RETRY_MICROS),
{
    retry_position(next_fire_at, now, QUEUE_RETRY_MICROS)
}

pub open spec fn retry_position_spec(next_fire_at: Option<i64>, now: i64, delay: i64) -> SchedulePosition {
    SchedulePosition {
        next_fire_at: match next_fire_at {
            Some(t) => t,
            None => now,
        },
        next_claim_at: (now + delay) as i64,
        last_fired_at: None,
    }
}

/// What the misfire policy fires, before overlap and enablement are looked
/// at.
pub fn fires_for(claim: &ClaimedSchedule, due: &DueSet, now: i64) -> (r: Vec<i64>)
    ensures
        r@ == select_spec(due.points@, now, claim.misfire, GRACE_MICROS),
{
    due.select(now, claim.misfire, GRACE_MICROS)
}

/// `overlap = skip` with something to fire on an enabled task: the caller
/// must find out whether the previous run is still going.
pub fn skip_needs_check(claim: &ClaimedSchedule, fires: &Vec<i64>) -> (b: bool)
    ensures
        b == (claim.task_enabled && claim.overlap == OverlapPolicy::Skip && fires@.len() > 0),
{
    claim.task_enabled && claim.overlap == OverlapPolicy::Skip && fires.len() > 0
}

/// The occurrences to create runs for: none for a disabled task, none when
/// `overlap = skip` found the previous run still going, else all of them.
/// The cursor moves in every case.
pub fn runs_to_create(claim: &ClaimedSchedule, fires: Vec<i64>, previous_still_running: bool) -> (r:
    Vec<i64>)
    ensures
        r@ == (if !claim.task_enabled || (claim.overlap == OverlapPolicy::Skip
            && previous_still_running) {
            Seq::empty()
        } else {
            fires@
        }),
{
    if !claim.task_enabled {
        Vec::new()
    } else if claim.overlap == OverlapPolicy::Skip && previous_still_running {
        Vec::new()
    } else {
        fires
    }
}

/// The instant the next occurrence is searched from: the newest handled
/// occurrence or now, whichever is later.
pub open spec fn search_from(newest_due: Option<i64>, now: i64) -> i64 {
    match newest_due {
        Some(n) => if n > now {
            n
        } else {
            now
        },
        None => now,
    }
}

/// The cursor after a claim.
///
/// The next canonical occurrence is searched from the later of the newest
/// handled occurrence and now, so it always lies in the future. Jitter
/// delays only the claim, never the canonical occurrence. The cursor moves
/// to the newest due occurrence whether or not a run was created, else the
/// next tick would enumerate the same batch again.
pub fn next_position(cron: &CronSchedule, jitter_s: u32, newest_due: Option<i64>, now: i64) -> (p:
    SchedulePosition)
    requires
        now <= MAX_INSTANT,
        newest_due matches Some(n) ==> n <= MAX_INSTANT,
    ensures
        p.next_fire_at as int == (match cron.next_after_spec(search_from(newest_due, now)) {
            Some(t) => t as int,
            None => search_from(newest_due, now) + NO_NEXT_ADVANCE_MICROS,
        }),
        p.next_fire_at > now,
        p.next_fire_at <= p.next_claim_at <= p.next_fire_at + jitter_s * MICROS_PER_SECOND,
        jitter_s == 0 ==> p.next_claim_at == p.next_fire_at,
        p.last_fired_at == newest_due,
{
    let from = match newest_due {
        Some(n) => if n > now {
            n
        } else {
            now
        },
        None => now,
    };
    let next_fire_at = match cron.next_after(from) {
        Some(t) => t,
        None => from + NO_NEXT_ADVANCE_MICROS,
    };
    let next_claim_at = apply_jitter(next_fire_at, jitter_s);
    SchedulePosition { next_fire_at, next_claim_at, last_fired_at: newest_due }
}

/// What to do with a claimed schedule.
pub enum ClaimPlan {
    /// Commit this position and create nothing; `deferred` when the
    /// overlap policy held the occurrence back.
    Advance { position: SchedulePosition, deferred: bool },
    /// Find out whether the task still has a run going, then plan again
    /// with the answer.
    CheckRunning,
    /// Create runs for these occurrences, then commit this position.
    Fire { fires: Vec<i64>, position: SchedulePosition },
}

/// The occurrences of a claim that get runs, given whether the previous
/// run is still going.
pub open spec fn fires_spec(claim: ClaimedSchedule, points: Seq<i64>, now: i64, running: bool) -> Seq<i64> {
    let sel = select_spec(points, now, claim.misfire, GRACE_MICROS);
    if !claim.task_enabled || (claim.overlap == OverlapPolicy::Skip && running) {
        Seq::empty()
    } else {
        sel
    }
}

/// The occurrences due for a claim that parses, newest last, at most
/// [`MAX_CATCH_UP`] of them.
pub open spec fn claim_points(claim: ClaimedSchedule, now: i64) -> Seq<i64> {
    last_n(
        due_points((claim.cron@, claim.timezone@), anchor_spec(claim.last_fired_at, claim.next_fire_at, now), now),
        MAX_CATCH_UP as int,
    )
}

/// Whether the previous run is still going can change the plan: with
/// `overlap = queue` and something due, or with `overlap = skip` and
/// something to fire on an enabled task.
pub open spec fn running_matters(claim: ClaimedSchedule, now: i64) -> bool {
    let pts = claim_points(claim, now);
    (claim.overlap == OverlapPolicy::Queue && pts.len() > 0) || (claim.task_enabled && claim.overlap
        == OverlapPolicy::Skip && select_spec(pts, now, claim.misfire, GRACE_MICROS).len() > 0)
}

/// The plan for one claimed schedule, step by step: an expression that no
/// longer parses backs off; with `overlap = queue` and something due, a
/// previous run still going keeps the occurrence pending; otherwise the
/// misfire policy picks what fires, a disabled task fires nothing, and
/// `overlap = skip` drops the fires while the previous run goes on. The
/// cursor moves past everything due whether or not a run was created.
/// `previous_running` is the answer to [`ClaimPlan::CheckRunning`], asked
/// only when it matters.
pub fn plan_claim(claim: &ClaimedSchedule, now: i64, previous_running: Option<bool>) -> (p: ClaimPlan)
    requires
        now <= MAX_INSTANT,
    ensures
        p is CheckRunning ==> previous_running is None,
        p is CheckRunning <==> (previous_running is None && parse_outcome(claim.cron@, claim.timezone@, now) is None
            && running_matters(*claim, now)),
        p matches ClaimPlan::Advance { deferred, .. } ==> (deferred || parse_outcome(
            claim.cron@,
            claim.timezone@,
            now,
        ) is Some),
        parse_outcome(claim.cron@, claim.timezone@, now) is Some ==> (p matches ClaimPlan::Advance {
            position,
            deferred,
        } && !deferred && position == retry_position_spec(claim.next_fire_at, now, BAD_EXPRESSION_BACKOFF_MICROS)),
        p matches ClaimPlan::Advance { position, deferred } ==> (deferred ==> (claim.overlap
            == OverlapPolicy::Queue && previous_running == Some(true) && position == retry_position_spec(
            claim.next_fire_at,
            now,
            QUEUE_RETRY_MICROS,
        ))),
        p matches ClaimPlan::Fire { fires, position } ==> ({
            let v = (claim.cron@, claim.timezone@);
            let pts = last_n(due_points(v, anchor_spec(claim.last_fired_at, claim.next_fire_at, now), now), MAX_CATCH_UP as int);
            &&& parse_outcome(claim.cron@, claim.timezone@, now) is None
            &&& (claim.overlap == OverlapPolicy::Queue && pts.len() > 0 ==> previous_running == Some(false))
            &&& fires@ == fires_spec(*claim, pts, now, previous_running == Some(true))
            &&& (claim.task_enabled && claim.overlap == OverlapPolicy::Skip && select_spec(pts, now, claim.misfire, GRACE_MICROS).len() > 0 ==> previous_running is Some)
            &&& position.last_fired_at == (if pts.len() == 0 { None } else { Some(pts.last()) })
            &&& position.next_fire_at > now
            &&& position.next_fire_at <= position.next_claim_at <= position.next_fire_at + claim.jitter_s * MICROS_PER_SECOND
        }),
{
    let (schedule, due) = match begin_claim(claim, now) {
        ClaimStart::BadExpression(position) => {
            return ClaimPlan::Advance { position, deferred: false };
        },
        ClaimStart::Due { schedule, due } => (schedule, due),
    };
    if queue_needs_check(claim.overlap, &due) {
        match previous_running {
            None => {
                return ClaimPlan::CheckRunning;
            },
            Some(true) => {
                return ClaimPlan::Advance { position: queued_position(claim.next_fire_at, now), deferred: true };
            },
            Some(false) => {},
        }
    }
    let fires = fires_for(claim, &due, now);
    let running = if skip_needs_check(claim, &fires) {
        match previous_running {
            None => {
                return ClaimPlan::CheckRunning;
            },
            Some(r) => r,
        }
    } else {
        false
    };
    let fires = runs_to_create(claim, fires, running);
    let newest = due.newest();
    proof {
        let v = schedule@;
        let from = anchor_spec(claim.last_fired_at, claim.next_fire_at, now);
        lemma_due_points_ordered(v, from, now);
        let all = due_points(v, from, now);
        if due.points@.len() > 0 {
            let k = due.points@.len() - 1;
            if all.len() <= MAX_CATCH_UP {
                assert(due.points@[k] == all[k]);
            } else {
                assert(due.points@[k] == all[all.len() - MAX_CATCH_UP + k]);
            }
        }
    }
    let position = next_position(&schedule, claim.jitter_s, newest, now);
    ClaimPlan::Fire { fires, position }
}

/// What one claim came to.
pub enum ClaimOutcome {
    /// Runs were created: `(workspace, run)` pairs, UUIDs as integers.
    Created(Vec<(u128, u128)>),
    /// `overlap = queue` held the occurrence back.
    Deferred,
    /// Nothing was created.
    Nothing,
}

/// The result of one polling round.
#[derive(Debug)]
pub struct Tick {
    /// Claims processed.
    pub processed: usize,
    /// Runs created; the caller starts them after commit.
    pub created: Vec<(u128, u128)>,
    /// Claims deferred by the overlap policy.
    pub deferred: usize,
}

impl Tick {
    pub fn new() -> (t: Tick)
        ensures
            t.processed == 0,
            t.created@.len() == 0,
            t.deferred == 0,
    {
        Tick { processed: 0, created: Vec::new(), deferred: 0 }
    }

    /// Counts one processed claim.
    pub fn absorb(&mut self, outcome: ClaimOutcome)
        requires
            old(self).processed < usize::MAX,
            old(self).deferred < usize::MAX,
        ensures
            final(self).processed == old(self).processed + 1,
            final(self).created@ == old(self).created@ + match outcome {
                ClaimOutcome::Created(runs) => runs@,
                _ => Seq::empty(),
            },
            final(self).deferred == old(self).deferred + if outcome is Deferred {
                1int
            } else {
                0int
            },
    {
        self.processed = self.processed + 1;
        match outcome {
            ClaimOutcome::Created(runs) => {
                let mut runs = runs;
                self.created.append(&mut runs);
            },
            ClaimOutcome::Deferred => {
                self.deferred = self.deferred + 1;
            },
            ClaimOutcome::Nothing => {
                assert(self.created@ + Seq::<(u128, u128)>::empty() =~= self.created@);
            },
        }
    }
}

} // verus!
