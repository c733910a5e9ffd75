use chrono::TimeZone;
use vstd::prelude::*;
use vstd::string::StringExecFns;
use crate::decimal::{i64_to_decimal, signed_decimal};

verus! {

/// The first instant, in milliseconds since the epoch, at which the cron
/// schedule parsed from `expression` fires after the instant `after_ms`, as
/// the `cron` crate computes it (`Schedule::after(..).next()` on a UTC
/// time); `None` when the expression does not parse, the instant is outside
/// `chrono`'s range, or the schedule never fires again.
pub uninterp spec fn cron_next_fire(expression: Seq<char>, after_ms: i64) -> Option<i64>;

/// Whether `chrono` can represent the instant `ms` milliseconds after the
/// epoch as a UTC date and time (`Utc.timestamp_millis_opt(ms)` is single).
pub uninterp spec fn chrono_millis_in_range(ms: i64) -> bool;

/// An instant from which the next firing can be searched without overflow:
/// either `chrono` cannot represent it (the search then finds nothing), or
/// it can also represent the instant one second later.
pub open spec fn searchable_after(ms: i64) -> bool {
    chrono_millis_in_range(ms) ==> (ms <= i64::MAX - 1000 && chrono_millis_in_range((ms + 1000) as i64))
}

/// Computes the next firing of the schedule `expression` after `after_ms`
/// with the `cron` and `chrono` crates. The contract names the result and
/// states that a firing lies strictly after `after_ms`: the crate starts
/// its search one second after the given instant. That addition panics in
/// `chrono` at the end of its range, so `requires` leaves such instants out.
#[verifier::external_body]
fn cron_next_fire_ms(expression: &str, after_ms: i64) -> (r: Option<i64>)
    requires
        searchable_after(after_ms),
    ensures
        r == cron_next_fire(expression@, after_ms),
        r matches Some(n) ==> n > after_ms,
{
    let schedule = expression.parse::<cron::Schedule>().ok()?;
    let after = chrono::Utc.timestamp_millis_opt(after_ms).single()?;
    schedule.after(&after).next().map(|t| t.timestamp_millis())
}

/// Whether `chrono::Utc.timestamp_millis_opt(ms)` gives a single instant.
#[verifier::external_body]
fn millis_in_range(ms: i64) -> (r: bool)
    ensures
        r == chrono_millis_in_range(ms),
{
    chrono::Utc.timestamp_millis_opt(ms).single().is_some()
}

/// One enabled cron job as the scheduler sees it.
#[derive(Debug, Clone, PartialEq, Eq)]
pub struct CronJobState {
    pub id: i64,
    pub cron_expression: String,
    /// When the job last ran, in milliseconds; `None` if it never ran.
    pub last_run_time: Option<i64>,
}

/// The instant after which a job's next firing is looked for when deciding
/// whether it is due: a job that never ran counts as run one second ago, and
/// an unrepresentable last run as the epoch.
pub open spec fn due_reference(last_run: Option<i64>, now_ms: i64) -> i64 {
    match last_run {
        None => (now_ms - 1000) as i64,
        Some(t) => if chrono_millis_in_range(t) { t } else { 0 },
    }
}

/// The instant after which a job's next firing is looked for when planning
/// the next wake-up: as for `due_reference`, but an unrepresentable last run
/// counts as now.
pub open spec fn wake_reference(last_run: Option<i64>, now_ms: i64) -> i64 {
    match last_run {
        None => (now_ms - 1000) as i64,
        Some(t) => if chrono_millis_in_range(t) { t } else { now_ms },
    }
}

/// A job is due when its schedule fires, after its reference instant, no
/// later than now.
pub open spec fn job_is_due(job: CronJobState, now_ms: i64) -> bool {
    cron_next_fire(job.cron_expression@, due_reference(job.last_run_time, now_ms)) matches Some(next) && next <= now_ms
}

/// Every job's reference instants, for deciding whether it is due and for
/// planning the wake-up, can be searched from.
pub open spec fn jobs_searchable(jobs: Seq<CronJobState>, now_ms: i64) -> bool {
    forall|k: int|
        0 <= k < jobs.len() ==> searchable_after(due_reference(#[trigger] jobs[k].last_run_time, now_ms))
            && searchable_after(wake_reference(jobs[k].last_run_time, now_ms))
}

/// The ids of the due jobs, in the order of `jobs`.
pub open spec fn due_job_ids(jobs: Seq<CronJobState>, now_ms: i64) -> Seq<i64>
    decreases jobs.len(),
{
    if jobs.len() == 0 {
        Seq::empty()
    } else {
        let prev = due_job_ids(jobs.drop_last(), now_ms);
        if job_is_due(jobs.last(), now_ms) {
            prev.push(jobs.last().id)
        } else {
            prev
        }
    }
}

/// The earliest next firing among the jobs, if any fires.
pub open spec fn earliest_fire(jobs: Seq<CronJobState>, now_ms: i64) -> Option<i64>
    decreases jobs.len(),
{
    if jobs.len() == 0 {
        None
    } else {
        let prev = earliest_fire(jobs.drop_last(), now_ms);
        let last = jobs.last();
        match cron_next_fire(last.cron_expression@, wake_reference(last.last_run_time, now_ms)) {
            None => prev,
            Some(n) => match prev {
                None => Some(n),
                Some(e) => if n < e { Some(n) } else { Some(e) },
            },
        }
    }
}

/// How long the scheduler sleeps, in milliseconds: until the earliest next
/// firing (at once if that has passed), and never more than a minute.
pub open spec fn wake_delay(jobs: Seq<CronJobState>, now_ms: i64) -> int {
    let delta = match earliest_fire(jobs, now_ms) {
        Some(e) => e - now_ms,
        None => 60000,
    };
    if delta < 0 {
        0
    } else if delta > 60000 {
        60000
    } else {
        delta
    }
}

fn due_reference_exec(last_run: Option<i64>, now_ms: i64) -> (r: i64)
    requires
        now_ms >= i64::MIN + 1000,
    ensures
        r == due_reference(last_run, now_ms),
{
    match last_run {
        None => now_ms - 1000,
        Some(t) => if millis_in_range(t) {
            t
        } else {
            0
        },
    }
}

fn wake_reference_exec(last_run: Option<i64>, now_ms: i64) -> (r: i64)
    requires
        now_ms >= i64::MIN + 1000,
    ensures
        r == wake_reference(last_run, now_ms),
{
    match last_run {
        None => now_ms - 1000,
        Some(t) => if millis_in_range(t) {
            t
        } else {
            now_ms
        },
    }
}

/// The ids of the jobs that are due at `now_ms` (see `job_is_due`), in order.
pub fn due_crontab_jobs(jobs: &Vec<CronJobState>, now_ms: i64) -> (r: Vec<i64>)
    requires
        now_ms >= i64::MIN + 1000,
        jobs_searchable(jobs@, now_ms),
    ensures
        r@ == due_job_ids(jobs@, now_ms),
        forall|k: int|
            0 <= k < jobs@.len() && jobs@[k].last_run_time == Some(now_ms) && chrono_millis_in_range(now_ms)
                ==> !job_is_due(#[trigger] jobs@[k], now_ms),
{
    let mut r: Vec<i64> = Vec::new();
    let mut i: usize = 0;
    while i < jobs.len()
        invariant
            i <= jobs@.len(),
            now_ms >= i64::MIN + 1000,
            jobs_searchable(jobs@, now_ms),
            r@ == due_job_ids(jobs@.subrange(0, i as int), now_ms),
            forall|k: int|
                0 <= k < i && jobs@[k].last_run_time == Some(now_ms) && chrono_millis_in_range(now_ms)
                    ==> !job_is_due(#[trigger] jobs@[k], now_ms),
        decreases jobs@.len() - i,
    {
        proof {
            assert(jobs@.subrange(0, i + 1).drop_last() =~= jobs@.subrange(0, i as int));
        }
        let job = &jobs[i];
        let reference = due_reference_exec(job.last_run_time, now_ms);
        let next = cron_next_fire_ms(job.cron_expression.as_str(), reference);
        let due = match next {
            Some(n) => n <= now_ms,
            None => false,
        };
        if due {
            r.push(job.id);
        }
        i = i + 1;
    }
    assert(jobs@.subrange(0, jobs@.len() as int) =~= jobs@);
    r
}

/// How long the scheduler sleeps before its next pass, in milliseconds
/// (see `wake_delay`).
pub fn next_wake_delay_ms(jobs: &Vec<CronJobState>, now_ms: i64) -> (r: u64)
    requires
        now_ms >= i64::MIN + 1000,
        jobs_searchable(jobs@, now_ms),
    ensures
        r == wake_delay(jobs@, now_ms),
{
    let mut earliest: Option<i64> = None;
    let mut i: usize = 0;
    while i < jobs.len()
        invariant
            i <= jobs@.len(),
            now_ms >= i64::MIN + 1000,
            jobs_searchable(jobs@, now_ms),
            earliest == earliest_fire(jobs@.subrange(0, i as int), now_ms),
        decreases jobs@.len() - i,
    {
        proof {
            assert(jobs@.subrange(0, i + 1).drop_last() =~= jobs@.subrange(0, i as int));
        }
        let job = &jobs[i];
        let reference = wake_reference_exec(job.last_run_time, now_ms);
        if let Some(n) = cron_next_fire_ms(job.cron_expression.as_str(), reference) {
            earliest = match earliest {
                None => Some(n),
                Some(e) => if n < e {
                    Some(n)
                } else {
                    Some(e)
                },
            };
        }
        i = i + 1;
    }
    assert(jobs@.subrange(0, jobs@.len() as int) =~= jobs@);
    let delta: i128 = match earliest {
        Some(e) => e as i128 - now_ms as i128,
        None => 60000,
    };
    if delta < 0 {
        0
    } else if delta > 60000 {
        60000
    } else {
        delta as u64
    }
}

/// The scheduler never sleeps longer than a minute.
pub proof fn lemma_wake_delay_at_most_a_minute(jobs: Seq<CronJobState>, now_ms: i64)
    ensures
        0 <= wake_delay(jobs, now_ms) <= 60000,
{
}

proof fn lemma_earliest_fire_bounds(jobs: Seq<CronJobState>, now_ms: i64, k: int)
    requires
        0 <= k < jobs.len(),
        cron_next_fire(jobs[k].cron_expression@, wake_reference(jobs[k].last_run_time, now_ms)) is Some,
    ensures
        earliest_fire(jobs, now_ms) matches Some(e) && e <= cron_next_fire(
            jobs[k].cron_expression@,
            wake_reference(jobs[k].last_run_time, now_ms),
        )->0,
    decreases jobs.len(),
{
    if k < jobs.len() - 1 {
        lemma_earliest_fire_bounds(jobs.drop_last(), now_ms, k);
    }
}

/// When a job whose last run is absent or representable is due, the
/// scheduler wakes at once: its next pass starts without delay.
pub proof fn lemma_due_job_means_no_delay(jobs: Seq<CronJobState>, now_ms: i64, k: int)
    requires
        0 <= k < jobs.len(),
        job_is_due(jobs[k], now_ms),
        jobs[k].last_run_time matches Some(t) ==> chrono_millis_in_range(t),
    ensures
        wake_delay(jobs, now_ms) == 0,
{
    lemma_earliest_fire_bounds(jobs, now_ms, k);
}

fn searchable_after_exec(ms: i64) -> (r: bool)
    ensures
        r == searchable_after(ms),
{
    if !millis_in_range(ms) {
        return true;
    }
    ms <= i64::MAX - 1000 && millis_in_range(ms + 1000)
}

/// Whether every job's reference instants can be searched from (see
/// `jobs_searchable`).
pub fn jobs_are_searchable(jobs: &Vec<CronJobState>, now_ms: i64) -> (r: bool)
    requires
        now_ms >= i64::MIN + 1000,
    ensures
        r == jobs_searchable(jobs@, now_ms),
{
    let mut i: usize = 0;
    while i < jobs.len()
        invariant
            i <= jobs@.len(),
            now_ms >= i64::MIN + 1000,
            forall|k: int|
                0 <= k < i ==> searchable_after(due_reference(#[trigger] jobs@[k].last_run_time, now_ms))
                    && searchable_after(wake_reference(jobs@[k].last_run_time, now_ms)),
        decreases jobs@.len() - i,
    {
        let last = jobs[i].last_run_time;
        let due_ref = due_reference_exec(last, now_ms);
        let wake_ref = wake_reference_exec(last, now_ms);
        if !searchable_after_exec(due_ref) || !searchable_after_exec(wake_ref) {
            return false;
        }
        i = i + 1;
    }
    true
}

/// The due jobs (see `due_crontab_jobs`), or `None` when some job's last run
/// lies within a second of the end of `chrono`'s range, where the search
/// for its next firing cannot be made.
pub fn due_crontab_jobs_checked(jobs: &Vec<CronJobState>, now_ms: i64) -> (r: Option<Vec<i64>>)
    requires
        now_ms >= i64::MIN + 1000,
    ensures
        match r {
            Some(v) => jobs_searchable(jobs@, now_ms) && v@ == due_job_ids(jobs@, now_ms),
            None => !jobs_searchable(jobs@, now_ms),
        },
{
    if jobs_are_searchable(jobs, now_ms) {
        Some(due_crontab_jobs(jobs, now_ms))
    } else {
        None
    }
}

/// The wake-up delay (see `next_wake_delay_ms`), or `None` when some job's
/// last run lies within a second of the end of `chrono`'s range.
pub fn next_wake_delay_ms_checked(jobs: &Vec<CronJobState>, now_ms: i64) -> (r: Option<u64>)
    requires
        now_ms >= i64::MIN + 1000,
    ensures
        match r {
            Some(d) => jobs_searchable(jobs@, now_ms) && d == wake_delay(jobs@, now_ms),
            None => !jobs_searchable(jobs@, now_ms),
        },
{
    if jobs_are_searchable(jobs, now_ms) {
        Some(next_wake_delay_ms(jobs, now_ms))
    } else {
        None
    }
}

/// The job list after the jobs whose ids are in `ran` ran at `now_ms`, given
/// whether storing their new last-run time succeeded: if it did, those jobs
/// have `now_ms` as their last run and the others are as they were; if it
/// failed, the list is unchanged.
pub fn record_runs(jobs: Vec<CronJobState>, ran: &Vec<i64>, now_ms: i64, stored: bool) -> (r: Vec<CronJobState>)
    ensures
        !stored ==> r@ == jobs@,
        r@.len() == jobs@.len(),
        stored ==> forall|k: int|
            0 <= k < jobs@.len() ==> #[trigger] r@[k] == (if ran@.contains(jobs@[k].id) {
                CronJobState { last_run_time: Some(now_ms), ..jobs@[k] }
            } else {
                jobs@[k]
            }),
{
    if !stored {
        return jobs;
    }
    let ghost before = jobs@;
    let mut rest = jobs;
    let mut out: Vec<CronJobState> = Vec::new();
    while rest.len() > 0
        invariant
            out@.len() + rest@.len() == before.len(),
            rest@ == before.subrange(out@.len() as int, before.len() as int),
            forall|k: int|
                0 <= k < out@.len() ==> #[trigger] out@[k] == (if ran@.contains(before[k].id) {
                    CronJobState { last_run_time: Some(now_ms), ..before[k] }
                } else {
                    before[k]
                }),
        decreases rest@.len(),
    {
        let ghost n = out@.len();
        let job = rest.remove(0);
        assert(job == before[n as int]);
        let updated = if contains_id(ran, job.id) {
            CronJobState { id: job.id, cron_expression: job.cron_expression, last_run_time: Some(now_ms) }
        } else {
            job
        };
        out.push(updated);
        assert(rest@ =~= before.subrange(out@.len() as int, before.len() as int));
    }
    out
}

fn contains_id(ids: &Vec<i64>, id: i64) -> (r: bool)
    ensures
        r == ids@.contains(id),
{
    let mut i: usize = 0;
    while i < ids.len()
        invariant
            i <= ids@.len(),
            forall|j: int| 0 <= j < i ==> ids@[j] != id,
        decreases ids@.len() - i,
    {
        if ids[i] == id {
            return true;
        }
        i = i + 1;
    }
    false
}

/// What the scheduler records of one run of a JS worker cron job.
#[derive(Debug, Clone, PartialEq, Eq)]
pub struct JsWorkerRunRecord {
    /// Whether the run was queued.
    pub success: bool,
    /// The message stored with the run.
    pub message: String,
    /// The id the worker pool gave the queued run.
    pub relative_id: Option<i64>,
}

/// The message stored when the script was queued as run `id`.
pub open spec fn js_worker_queued_text(script: Seq<char>, id: int) -> Seq<char> {
    "已触发 JsWorker 定时任务，脚本名："@ + script + "，relative_id："@ + signed_decimal(id)
}

/// The message stored when queueing the script failed with `error`.
pub open spec fn js_worker_failed_text(script: Seq<char>, error: Seq<char>) -> Seq<char> {
    "触发 JsWorker 定时任务失败，脚本名："@ + script + "，错误："@ + error
}

/// The record of a JS worker cron run from what queueing the script gave:
/// the run's id, or the text of the error.
pub fn js_worker_run_record(script: &str, outcome: Result<i64, String>) -> (r: JsWorkerRunRecord)
    ensures
        match outcome {
            Ok(id) => r.success && r.relative_id == Some(id) && r.message@ == js_worker_queued_text(script@, id as int),
            Err(e) => !r.success && r.relative_id is None && r.message@ == js_worker_failed_text(script@, e@),
        },
{
    match outcome {
        Ok(id) => {
            let id_text = i64_to_decimal(id);
            let message = String::from_str("已触发 JsWorker 定时任务，脚本名：").concat(script).concat(
                "，relative_id：",
            ).concat(id_text.as_str());
            JsWorkerRunRecord { success: true, message, relative_id: Some(id) }
        },
        Err(e) => {
            let message = String::from_str("触发 JsWorker 定时任务失败，脚本名：").concat(script).concat(
                "，错误：",
            ).concat(e.as_str());
            JsWorkerRunRecord { success: false, message, relative_id: None }
        },
    }
}

/// The due jobs are, in order, exactly the jobs whose schedule fires after
/// their last run (after one second before now for a job that never ran,
/// after the epoch for an unrepresentable last run) and no later than now.
pub proof fn lemma_due_jobs_fired_since_last_run(jobs: Seq<CronJobState>, now_ms: i64)
    ensures
        due_job_ids(jobs, now_ms) == jobs.filter(
            |j: CronJobState|
                {
                    let after: i64 = match j.last_run_time {
                        None => (now_ms - 1000) as i64,
                        Some(t) => if chrono_millis_in_range(t) {
                            t
                        } else {
                            0
                        },
                    };
                    match cron_next_fire(j.cron_expression@, after) {
                        Some(n) => n <= now_ms,
                        None => false,
                    }
                },
        ).map_values(|j: CronJobState| j.id),
    decreases jobs.len(),
{
    let f = |j: CronJobState|
        {
            let after: i64 = match j.last_run_time {
                None => (now_ms - 1000) as i64,
                Some(t) => if chrono_millis_in_range(t) {
                    t
                } else {
                    0
                },
            };
            match cron_next_fire(j.cron_expression@, after) {
                Some(n) => n <= now_ms,
                None => false,
            }
        };
    reveal_with_fuel(Seq::<_>::filter, 1);
    if jobs.len() > 0 {
        lemma_due_jobs_fired_since_last_run(jobs.drop_last(), now_ms);
        let prev = jobs.drop_last().filter(f);
        assert(f(jobs.last()) == job_is_due(jobs.last(), now_ms));
        if f(jobs.last()) {
            assert(prev.push(jobs.last()).map_values(|j: CronJobState| j.id) =~= prev.map_values(
                |j: CronJobState| j.id,
            ).push(jobs.last().id));
        }
    } else {
        assert(jobs.filter(f) =~= Seq::<CronJobState>::empty());
    }
}

/// A single job that last ran at a representable instant `t` makes the
/// scheduler sleep until its first firing after `t`, at once if that has
/// passed, a minute if it never fires, and never more than a minute.
pub proof fn lemma_wake_delay_follows_last_run(job: CronJobState, now_ms: i64, t: i64)
    requires
        job.last_run_time == Some(t),
        chrono_millis_in_range(t),
    ensures
        wake_delay(seq![job], now_ms) == ({
            let d: int = match cron_next_fire(job.cron_expression@, t) {
                Some(n) => n - now_ms,
                None => 60000,
            };
            if d < 0 {
                0
            } else if d > 60000 {
                60000
            } else {
                d
            }
        }),
{
    let s = seq![job];
    assert(s.drop_last() =~= Seq::<CronJobState>::empty());
    assert(s.last() == job);
    assert(earliest_fire(Seq::<CronJobState>::empty(), now_ms) is None);
    assert(wake_reference(job.last_run_time, now_ms) == t);
    assert(earliest_fire(s, now_ms) == cron_next_fire(job.cron_expression@, t));
}

} // verus!
