//! The registry of recurring jobs and the decisions of each scheduler tick.
//!
//! Each job is held with its compiled cron schedule and the next time at
//! which it fires. A tick hands out the jobs that are due and moves each of
//! them to its next fire time before anything is run, so that a slow run
//! cannot make its job fire again on the following tick.
//!
//! Times are seconds since the Unix epoch, in UTC.

use std::str::FromStr;

use chrono::{DateTime, Utc};
use cron::Schedule;
use vstd::prelude::*;
use vstd::string::StringExecFns;

use crate::models::{duplicate_texts, Job, JobView};
use crate::text::{chars_of, lowercase, texts};
use crate::utils::{hyphen, uuid_string, uuid_text};

verus! {

/// `cron::Schedule`, a compiled cron expression. Nothing of its inside is
/// read here.
#[verifier::external_type_specification]
#[verifier::external_body]
pub struct ExSchedule(Schedule);

/// The cron expression that a compiled schedule was made from
/// (`cron::Schedule::source`).
pub uninterp spec fn schedule_source(schedule: Schedule) -> Seq<char>;

/// What `cron::Schedule::from_str` says against an expression that it
/// refuses, or `None` where it accepts the expression.
pub uninterp spec fn cron_refusal(expression: Seq<char>) -> Option<Seq<char>>;

/// The first time that `cron::Schedule::after` yields for the schedule
/// compiled from `expression` and the time `after`, in UTC: the first fire
/// time strictly behind `after`, or `None` where the schedule yields none.
pub uninterp spec fn cron_next_fire(expression: Seq<char>, after: int) -> Option<int>;

/// The RFC 3339 form that `chrono::DateTime::to_rfc3339` gives to a time in
/// UTC.
pub uninterp spec fn rfc3339_utc(seconds: int) -> Seq<char>;

/// The last second that `chrono::DateTime<Utc>` holds: the end of the year
/// 262142.
pub const LAST_SECOND: i64 = 8_210_266_876_799;

/// The last second of the year 2100, the last year that a schedule can name.
pub const LAST_FIRE: i64 = 4_133_980_799;

/// Compiles a cron expression with `cron::Schedule::from_str`. Trusted: the
/// schedule keeps the expression as its source, and a refusal carries the
/// crate's own words.
#[verifier::external_body]
fn compile_cadence(expression: &str) -> (compiled: Result<Schedule, String>)
    ensures
        match compiled {
            Ok(schedule) => cron_refusal(expression@) is None && schedule_source(schedule)
                == expression@,
            Err(reason) => cron_refusal(expression@) == Some(reason@),
        },
{
    Schedule::from_str(expression).map_err(|refusal| refusal.to_string())
}

/// Asks `cron::Schedule::after` for the first fire time behind `after`,
/// which `chrono::DateTime::from_timestamp` turns into a UTC date and
/// `DateTime::timestamp` turns back. Trusted: the time returned lies
/// strictly behind `after`, in the years 1970 to 2100. The crate adds a
/// second to `after` and panics where chrono cannot hold the sum; that
/// input is left out.
#[verifier::external_body]
fn next_fire_after(schedule: &Schedule, after: i64) -> (next: Option<i64>)
    requires
        after < LAST_SECOND,
    ensures
        match next {
            Some(fire) => cron_next_fire(schedule_source(*schedule), after as int) == Some(
                fire as int,
            ) && after < fire && 0 <= fire <= LAST_FIRE,
            None => cron_next_fire(schedule_source(*schedule), after as int) is None,
        },
{
    let start = DateTime::<Utc>::from_timestamp(after, 0)?;
    schedule.after(&start).next().map(|fire| fire.timestamp())
}

/// The `Clone` of `cron::Schedule`. Trusted: the copy has the source of the
/// schedule that was copied.
pub assume_specification[ <Schedule as Clone>::clone ](schedule: &Schedule) -> (copy: Schedule)
    ensures
        schedule_source(copy) == schedule_source(*schedule),
;

/// Writes a time with `chrono::DateTime::to_rfc3339`, after
/// `DateTime::from_timestamp`. Trusted: the text is the RFC 3339 form of the
/// time in UTC.
#[verifier::external_body]
fn format_rfc3339(seconds: i64) -> (text: String)
    requires
        0 <= seconds <= LAST_SECOND,
    ensures
        text@ == rfc3339_utc(seconds as int),
{
    DateTime::<Utc>::from_timestamp(seconds, 0).map(|time| time.to_rfc3339()).unwrap_or_default()
}

/// Why a job was not taken into the registry.
#[derive(Debug, Clone, PartialEq)]
pub enum ScheduleError {
    /// The cadence is no cron expression.
    InvalidCadence { cadence: String, reason: String },
    /// The cadence names no time that is still to come.
    NoUpcomingRun,
}

pub enum ScheduleErrorView {
    InvalidCadence { cadence: Seq<char>, reason: Seq<char> },
    NoUpcomingRun,
}

impl View for ScheduleError {
    type V = ScheduleErrorView;

    open spec fn view(&self) -> ScheduleErrorView {
        match self {
            ScheduleError::InvalidCadence { cadence, reason } => ScheduleErrorView::InvalidCadence {
                cadence: cadence@,
                reason: reason@,
            },
            ScheduleError::NoUpcomingRun => ScheduleErrorView::NoUpcomingRun,
        }
    }
}

/// The error in words.
pub open spec fn schedule_error_text(error: ScheduleErrorView) -> Seq<char> {
    match error {
        ScheduleErrorView::InvalidCadence { cadence, reason } => "Invalid cron expression '"@
            + cadence + "': "@ + reason,
        ScheduleErrorView::NoUpcomingRun => "Could not calculate next run time"@,
    }
}

impl ScheduleError {
    pub fn message(&self) -> (text: String)
        ensures
            text@ == schedule_error_text(self@),
    {
        match self {
            ScheduleError::InvalidCadence { cadence, reason } => {
                let mut text = "Invalid cron expression '".to_string();
                text.append(cadence.as_str());
                text.append("': ");
                text.append(reason.as_str());
                text
            },
            ScheduleError::NoUpcomingRun => "Could not calculate next run time".to_string(),
        }
    }
}

/// A job in the registry.
#[derive(Debug, Clone)]
pub struct ScheduledJob {
    pub job: Job,
    pub schedule: Schedule,
    /// The next time at which the job fires.
    pub next_run: i64,
    /// The key under which the registry holds the job.
    pub slug: String,
}

pub struct ScheduledJobView {
    pub job: JobView,
    /// The cron expression of the compiled schedule.
    pub source: Seq<char>,
    pub next_run: int,
    pub slug: Seq<char>,
}

impl View for ScheduledJob {
    type V = ScheduledJobView;

    open spec fn view(&self) -> ScheduledJobView {
        ScheduledJobView {
            job: self.job@,
            source: schedule_source(self.schedule),
            next_run: self.next_run as int,
            slug: self.slug@,
        }
    }
}

/// `text` with a hyphen in place of each space.
pub open spec fn spaces_to_hyphens(text: Seq<char>) -> Seq<char> {
    text.map_values(|c: char| if c == ' ' { '-' } else { c })
}

/// The first of `names`, or "unknown".
pub open spec fn first_or_unknown(names: Seq<Seq<char>>) -> Seq<char> {
    if names.len() > 0 {
        names[0]
    } else {
        "unknown"@
    }
}

/// The key of a job without identifier: its first character and its first
/// prompt, in lower case, with hyphens for spaces. Two such jobs with the
/// same first character and first prompt have the same key.
pub open spec fn fallback_key(job: JobView) -> Seq<char> {
    spaces_to_hyphens(
        lowercase(first_or_unknown(job.characters) + hyphen() + first_or_unknown(job.prompts)),
    )
}

/// The key under which the registry holds a job: the text of its
/// identifier, or the fallback key where it has none.
pub open spec fn job_key(job: JobView) -> Seq<char> {
    match job.id {
        Some(id) => uuid_text(id),
        None => fallback_key(job),
    }
}

/// Whether `next_run` is the first fire time of `source` behind some
/// earlier time.
pub open spec fn is_next_fire(source: Seq<char>, next_run: int) -> bool {
    exists|after: int| after < next_run && cron_next_fire(source, after) == Some(next_run)
}

/// What holds of every job in the registry: its schedule is compiled from
/// its cadence, its key is the key of the job, and its next fire time is
/// the first fire time of the schedule behind the time at which it was
/// computed.
pub open spec fn valid_entry(entry: ScheduledJobView) -> bool {
    &&& entry.source == entry.job.cadence
    &&& entry.slug == job_key(entry.job)
    &&& 0 <= entry.next_run <= LAST_FIRE
    &&& is_next_fire(entry.source, entry.next_run)
}

/// What becomes of a job that is to be scheduled at the time `now`.
pub open spec fn schedule_outcome(job: JobView, now: int) -> Result<
    ScheduledJobView,
    ScheduleErrorView,
> {
    match cron_refusal(job.cadence) {
        Some(reason) => Err(ScheduleErrorView::InvalidCadence { cadence: job.cadence, reason }),
        None => match cron_next_fire(job.cadence, now) {
            None => Err(ScheduleErrorView::NoUpcomingRun),
            Some(next) => Ok(
                ScheduledJobView {
                    job,
                    source: job.cadence,
                    next_run: next,
                    slug: job_key(job),
                },
            ),
        },
    }
}

/// The place of the first entry at or after `from` that has the key `key`.
pub open spec fn position_from(entries: Seq<ScheduledJobView>, key: Seq<char>, from: int) -> Option<
    int,
>
    decreases entries.len() - from,
{
    if from < 0 || from >= entries.len() {
        None
    } else if entries[from].slug == key {
        Some(from)
    } else {
        position_from(entries, key, from + 1)
    }
}

/// The registry with `entry` in it: in the place of the entry with the same
/// key where there was one, else at the end.
pub open spec fn upserted(entries: Seq<ScheduledJobView>, entry: ScheduledJobView) -> Seq<
    ScheduledJobView,
> {
    match position_from(entries, entry.slug, 0) {
        Some(at) => entries.update(at, entry),
        None => entries.push(entry),
    }
}

/// The registry after a rebuild from `jobs` at the time `now`: each job
/// that can be scheduled is put in, in order; the others are passed over.
pub open spec fn loaded(jobs: Seq<JobView>, now: int) -> Seq<ScheduledJobView>
    decreases jobs.len(),
{
    if jobs.len() == 0 {
        Seq::empty()
    } else {
        let before = loaded(jobs.drop_last(), now);
        match schedule_outcome(jobs.last(), now) {
            Ok(entry) => upserted(before, entry),
            Err(_) => before,
        }
    }
}

/// Why the jobs among `jobs` that cannot be scheduled at the time `now` are
/// passed over, in the order of the jobs.
pub open spec fn refused(jobs: Seq<JobView>, now: int) -> Seq<ScheduleErrorView>
    decreases jobs.len(),
{
    if jobs.len() == 0 {
        Seq::empty()
    } else {
        let before = refused(jobs.drop_last(), now);
        match schedule_outcome(jobs.last(), now) {
            Ok(_) => before,
            Err(error) => before.push(error),
        }
    }
}

/// The views of a list of errors.
pub open spec fn error_views(errors: Seq<ScheduleError>) -> Seq<ScheduleErrorView> {
    errors.map_values(|error: ScheduleError| error@)
}

/// Whether no two entries have the same key.
pub open spec fn distinct_keys(entries: Seq<ScheduledJobView>) -> bool {
    forall|i: int, j: int|
        0 <= i < j < entries.len() ==> (#[trigger] entries[i]).slug != (#[trigger] entries[j]).slug
}

/// Whether an entry is due at the time `now`.
pub open spec fn is_due(entry: ScheduledJobView, now: int) -> bool {
    entry.next_run <= now
}

/// An entry after the tick at the time `now`: a due entry moves to the first
/// fire time behind `now`, or stays where its schedule never fires again.
pub open spec fn ticked(entry: ScheduledJobView, now: int) -> ScheduledJobView {
    if is_due(entry, now) {
        match cron_next_fire(entry.source, now) {
            Some(next) => ScheduledJobView { next_run: next, ..entry },
            None => entry,
        }
    } else {
        entry
    }
}

/// The jobs of the entries that are due at the time `now`, in the order of
/// the registry.
pub open spec fn due_jobs(entries: Seq<ScheduledJobView>, now: int) -> Seq<JobView> {
    entries.filter(|entry: ScheduledJobView| is_due(entry, now)).map_values(
        |entry: ScheduledJobView| entry.job,
    )
}

/// The place that is found holds the key, and where none is found no entry
/// at or after `from` holds it.
pub proof fn lemma_position_from(entries: Seq<ScheduledJobView>, key: Seq<char>, from: int)
    requires
        0 <= from,
    ensures
        match position_from(entries, key, from) {
            Some(at) => from <= at < entries.len() && entries[at].slug == key,
            None => forall|i: int| from <= i < entries.len() ==> entries[i].slug != key,
        },
    decreases entries.len() - from,
{
    if from < entries.len() && entries[from].slug != key {
        lemma_position_from(entries, key, from + 1);
    }
}

/// Putting a valid entry into a registry of valid entries with distinct
/// keys leaves such a registry.
pub proof fn lemma_upserted_keeps_registry(entries: Seq<ScheduledJobView>, entry: ScheduledJobView)
    requires
        distinct_keys(entries),
        forall|i: int| 0 <= i < entries.len() ==> valid_entry(#[trigger] entries[i]),
        valid_entry(entry),
    ensures
        distinct_keys(upserted(entries, entry)),
        forall|i: int|
            0 <= i < upserted(entries, entry).len() ==> valid_entry(
                #[trigger] upserted(entries, entry)[i],
            ),
{
    lemma_position_from(entries, entry.slug, 0);
}

fn spaces_to_hyphens_of(text: &str) -> (out: String)
    ensures
        out@ == spaces_to_hyphens(text@),
{
    let chars = chars_of(text);
    let mut out = String::new();
    let mut i: usize = 0;
    while i < chars.len()
        invariant
            i <= chars.len(),
            chars@ == text@,
            out@ == spaces_to_hyphens(chars@.take(i as int)),
        decreases chars.len() - i,
    {
        let c = chars[i];
        if c == ' ' {
            out.push('-');
        } else {
            out.push(c);
        }
        i += 1;
    }
    out
}

fn first_or_unknown_of(names: &Vec<String>) -> (name: &str)
    ensures
        name@ == first_or_unknown(texts(names@)),
{
    if names.len() > 0 {
        names[0].as_str()
    } else {
        "unknown"
    }
}

/// Makes the key under which the registry holds `job`.
pub fn key_of(job: &Job) -> (key: String)
    ensures
        key@ == job_key(job@),
{
    match job.id {
        Some(id) => uuid_string(id),
        None => {
            let mut joined = first_or_unknown_of(&job.characters).to_string();
            joined.append("-");
            joined.append(first_or_unknown_of(&job.prompts));
            let lower = joined.as_str().to_lowercase();
            spaces_to_hyphens_of(lower.as_str())
        },
    }
}

impl ScheduledJob {
    /// A copy of the entry.
    pub fn duplicate(&self) -> (copy: Self)
        ensures
            copy@ == self@,
    {
        ScheduledJob {
            job: self.job.duplicate(),
            schedule: self.schedule.clone(),
            next_run: self.next_run,
            slug: self.slug.clone(),
        }
    }
}

/// Compiles the cadence of `job` and finds its first fire time behind
/// `now`.
///
/// Fails exactly where the cadence is no cron expression, or names no time
/// behind `now`.
pub fn schedule_job(job: Job, now: i64) -> (made: Result<ScheduledJob, ScheduleError>)
    requires
        now < LAST_SECOND,
    ensures
        match made {
            Ok(entry) => schedule_outcome(job@, now as int) == Ok::<
                ScheduledJobView,
                ScheduleErrorView,
            >(entry@) && valid_entry(entry@),
            Err(error) => schedule_outcome(job@, now as int) == Err::<
                ScheduledJobView,
                ScheduleErrorView,
            >(error@),
        },
{
    let schedule = match compile_cadence(job.cadence.as_str()) {
        Ok(schedule) => schedule,
        Err(reason) => {
            return Err(ScheduleError::InvalidCadence { cadence: job.cadence, reason });
        },
    };
    let next_run = match next_fire_after(&schedule, now) {
        Some(next_run) => next_run,
        None => {
            return Err(ScheduleError::NoUpcomingRun);
        },
    };
    let slug = key_of(&job);
    Ok(ScheduledJob { job, schedule, next_run, slug })
}

/// What the status report says of one job in the registry.
#[derive(Debug, Clone, PartialEq)]
pub struct ScheduledJobInfo {
    pub slug: String,
    pub cadence: String,
    pub characters: Vec<String>,
    pub prompts: Vec<String>,
    /// The next fire time in RFC 3339 form.
    pub next_run: String,
}

pub struct ScheduledJobInfoView {
    pub slug: Seq<char>,
    pub cadence: Seq<char>,
    pub characters: Seq<Seq<char>>,
    pub prompts: Seq<Seq<char>>,
    pub next_run: Seq<char>,
}

impl View for ScheduledJobInfo {
    type V = ScheduledJobInfoView;

    open spec fn view(&self) -> ScheduledJobInfoView {
        ScheduledJobInfoView {
            slug: self.slug@,
            cadence: self.cadence@,
            characters: texts(self.characters@),
            prompts: texts(self.prompts@),
            next_run: self.next_run@,
        }
    }
}

/// The status report of the scheduler.
#[derive(Debug, Clone, PartialEq)]
pub struct SchedulerStatus {
    pub is_running: bool,
    pub job_count: usize,
    pub scheduled_jobs: Vec<ScheduledJobInfo>,
}

/// What the status report says of an entry.
pub open spec fn info_of(entry: ScheduledJobView) -> ScheduledJobInfoView {
    ScheduledJobInfoView {
        slug: entry.slug,
        cadence: entry.job.cadence,
        characters: entry.job.characters,
        prompts: entry.job.prompts,
        next_run: rfc3339_utc(entry.next_run),
    }
}

/// The views of the entries of a registry.
pub open spec fn entry_views(entries: Seq<ScheduledJob>) -> Seq<ScheduledJobView> {
    entries.map_values(|entry: ScheduledJob| entry@)
}

/// The views of a list of jobs.
pub open spec fn job_views(jobs: Seq<Job>) -> Seq<JobView> {
    jobs.map_values(|job: Job| job@)
}

/// The mathematical value of a scheduler: its registry in order, and
/// whether it runs.
pub struct JobSchedulerView {
    pub entries: Seq<ScheduledJobView>,
    pub running: bool,
}

/// The registry of scheduled jobs, and whether the scheduler runs.
///
/// No two jobs in the registry have the same key, and each of them is held
/// as `valid_entry` says.
pub struct JobScheduler {
    scheduled_jobs: Vec<ScheduledJob>,
    is_running: bool,
}

impl View for JobScheduler {
    type V = JobSchedulerView;

    closed spec fn view(&self) -> JobSchedulerView {
        JobSchedulerView { entries: entry_views(self.scheduled_jobs@), running: self.is_running }
    }
}

/// What holds of every registry.
pub open spec fn valid_registry(entries: Seq<ScheduledJobView>) -> bool {
    &&& distinct_keys(entries)
    &&& forall|i: int| 0 <= i < entries.len() ==> valid_entry(#[trigger] entries[i])
}

fn find_key(entries: &Vec<ScheduledJob>, key: &str) -> (found: Option<usize>)
    ensures
        match found {
            Some(at) => position_from(entry_views(entries@), key@, 0) == Some(at as int),
            None => position_from(entry_views(entries@), key@, 0) is None,
        },
{
    let mut i: usize = 0;
    while i < entries.len()
        invariant
            i <= entries.len(),
            position_from(entry_views(entries@), key@, 0) == position_from(
                entry_views(entries@),
                key@,
                i as int,
            ),
        decreases entries.len() - i,
    {
        if crate::text::same_text(entries[i].slug.as_str(), key) {
            return Some(i);
        }
        i += 1;
    }
    None
}

/// Puts `entry` into `entries`, in the place of the entry with its key
/// where there is one.
fn upsert(entries: &mut Vec<ScheduledJob>, entry: ScheduledJob)
    ensures
        entry_views(final(entries)@) == upserted(entry_views(old(entries)@), entry@),
{
    match find_key(entries, entry.slug.as_str()) {
        Some(at) => {
            proof {
                lemma_position_from(entry_views(entries@), entry@.slug, 0);
            }
            entries[at] = entry;
        },
        None => {
            entries.push(entry);
        },
    }
}

/// Builds a registry from `jobs`, passing over those that cannot be
/// scheduled, and says why each of those was passed over.
fn load(jobs: Vec<Job>, now: i64) -> (built: (Vec<ScheduledJob>, Vec<ScheduleError>))
    requires
        now < LAST_SECOND,
    ensures
        entry_views(built.0@) == loaded(job_views(jobs@), now as int),
        error_views(built.1@) == refused(job_views(jobs@), now as int),
        valid_registry(entry_views(built.0@)),
{
    let ghost given = jobs@;
    let ghost all = job_views(jobs@);
    let mut entries: Vec<ScheduledJob> = Vec::new();
    let mut skipped: Vec<ScheduleError> = Vec::new();
    for job in it: jobs
        invariant
            it.seq() == given,
            all == job_views(given),
            now < LAST_SECOND,
            entry_views(entries@) == loaded(all.take(it.index() as int), now as int),
            error_views(skipped@) == refused(all.take(it.index() as int), now as int),
            valid_registry(entry_views(entries@)),
    {
        proof {
            let upto = all.take(it.index() + 1);
            assert(upto.drop_last() =~= all.take(it.index() as int));
        }
        match schedule_job(job, now) {
            Ok(entry) => {
                proof {
                    lemma_upserted_keeps_registry(entry_views(entries@), entry@);
                }
                upsert(&mut entries, entry);
            },
            Err(error) => {
                skipped.push(error);
            },
        }
    }
    proof {
        assert(all.take(given.len() as int) =~= all);
    }
    (entries, skipped)
}

impl JobScheduler {
    #[verifier::type_invariant]
    spec fn registry_holds(&self) -> bool {
        valid_registry(entry_views(self.scheduled_jobs@))
    }

    /// A scheduler that does not run and holds no job.
    pub fn new() -> (scheduler: Self)
        ensures
            scheduler@.entries == Seq::<ScheduledJobView>::empty(),
            !scheduler@.running,
    {
        let scheduled_jobs: Vec<ScheduledJob> = Vec::new();
        JobScheduler { scheduled_jobs, is_running: false }
    }

    /// Starts the scheduler with the registry rebuilt from `jobs`, unless it
    /// runs already: then nothing changes and `None` is returned. A
    /// scheduler that was started says why it passed over the jobs that it
    /// could not schedule.
    pub fn start(&mut self, jobs: Vec<Job>, now: i64) -> (started: Option<Vec<ScheduleError>>)
        requires
            now < LAST_SECOND,
        ensures
            final(self)@.running,
            match started {
                Some(skipped) => !old(self)@.running && final(self)@.entries == loaded(
                    job_views(jobs@),
                    now as int,
                ) && error_views(skipped@) == refused(job_views(jobs@), now as int),
                None => old(self)@.running && final(self)@.entries == old(self)@.entries,
            },
    {
        if self.is_running {
            return None;
        }
        let (entries, skipped) = load(jobs, now);
        self.scheduled_jobs = entries;
        proof {
            use_type_invariant(&*self);
        }
        self.is_running = true;
        Some(skipped)
    }

    /// Stops the scheduler. The registry stays as it is.
    pub fn stop(&mut self)
        ensures
            !final(self)@.running,
            final(self)@.entries == old(self)@.entries,
    {
        proof {
            use_type_invariant(&*self);
        }
        self.is_running = false;
    }

    /// Rebuilds the registry from `jobs`: what it held is dropped, and every
    /// fire time is computed afresh from `now`. A job that cannot be
    /// scheduled is passed over; the others are not held up by it.
    pub fn load_and_schedule_jobs(&mut self, jobs: Vec<Job>, now: i64) -> (skipped: Vec<
        ScheduleError,
    >)
        requires
            now < LAST_SECOND,
        ensures
            final(self)@.entries == loaded(job_views(jobs@), now as int),
            final(self)@.running == old(self)@.running,
            error_views(skipped@) == refused(job_views(jobs@), now as int),
    {
        let (entries, skipped) = load(jobs, now);
        self.scheduled_jobs = entries;
        skipped
    }

    /// Rebuilds the registry from `jobs`, as `load_and_schedule_jobs` does.
    pub fn reload_jobs(&mut self, jobs: Vec<Job>, now: i64) -> (skipped: Vec<ScheduleError>)
        requires
            now < LAST_SECOND,
        ensures
            final(self)@.entries == loaded(job_views(jobs@), now as int),
            final(self)@.running == old(self)@.running,
            error_views(skipped@) == refused(job_views(jobs@), now as int),
    {
        self.load_and_schedule_jobs(jobs, now)
    }

    /// Takes one job into the registry, under its key.
    ///
    /// Fails, and leaves the registry as it is, exactly where the cadence is
    /// no cron expression or names no time behind `now`.
    pub fn schedule_job_internal(&mut self, job: Job, now: i64) -> (taken: Result<
        (),
        ScheduleError,
    >)
        requires
            now < LAST_SECOND,
        ensures
            final(self)@.running == old(self)@.running,
            match taken {
                Ok(_) => schedule_outcome(job@, now as int) is Ok && final(self)@.entries
                    == upserted(old(self)@.entries, schedule_outcome(job@, now as int)->Ok_0),
                Err(error) => schedule_outcome(job@, now as int) == Err::<
                    ScheduledJobView,
                    ScheduleErrorView,
                >(error@) && final(self)@.entries == old(self)@.entries,
            },
    {
        match schedule_job(job, now) {
            Ok(entry) => {
                proof {
                    use_type_invariant(&*self);
                    lemma_upserted_keeps_registry(entry_views(self.scheduled_jobs@), entry@);
                }
                let mut entries: Vec<ScheduledJob> = Vec::new();
                std::mem::swap(&mut entries, &mut self.scheduled_jobs);
                upsert(&mut entries, entry);
                self.scheduled_jobs = entries;
                Ok(())
            },
            Err(error) => Err(error),
        }
    }

    /// Whether the scheduler runs.
    pub fn is_running(&self) -> (running: bool)
        ensures
            running == self@.running,
    {
        self.is_running
    }

    /// Copies of the jobs in the registry, in its order.
    pub fn get_scheduled_jobs(&self) -> (jobs: Vec<ScheduledJob>)
        ensures
            entry_views(jobs@) == self@.entries,
            valid_registry(entry_views(jobs@)),
    {
        proof {
            use_type_invariant(self);
        }
        let mut jobs: Vec<ScheduledJob> = Vec::new();
        let mut i: usize = 0;
        while i < self.scheduled_jobs.len()
            invariant
                i <= self.scheduled_jobs.len(),
                entry_views(jobs@) == entry_views(self.scheduled_jobs@).take(i as int),
            decreases self.scheduled_jobs.len() - i,
        {
            let ghost before = entry_views(jobs@);
            let copy = self.scheduled_jobs[i].duplicate();
            jobs.push(copy);
            proof {
                assert(entry_views(jobs@) =~= before.push(copy@));
            }
            i += 1;
        }
        jobs
    }

    /// The status report: whether the scheduler runs, and each job of the
    /// registry with its next fire time.
    pub fn status(&self) -> (report: SchedulerStatus)
        ensures
            report.is_running == self@.running,
            report.job_count == self@.entries.len(),
            report.scheduled_jobs@.map_values(|info: ScheduledJobInfo| info@)
                == self@.entries.map_values(|entry: ScheduledJobView| info_of(entry)),
    {
        proof {
            use_type_invariant(self);
        }
        let mut infos: Vec<ScheduledJobInfo> = Vec::new();
        let mut i: usize = 0;
        let ghost entries = entry_views(self.scheduled_jobs@);
        while i < self.scheduled_jobs.len()
            invariant
                i <= self.scheduled_jobs.len(),
                entries == entry_views(self.scheduled_jobs@),
                valid_registry(entries),
                infos@.map_values(|info: ScheduledJobInfo| info@) == entries.take(
                    i as int,
                ).map_values(|entry: ScheduledJobView| info_of(entry)),
            decreases self.scheduled_jobs.len() - i,
        {
            let entry = &self.scheduled_jobs[i];
            let ghost before = infos@.map_values(|info: ScheduledJobInfo| info@);
            proof {
                assert(valid_entry(entries[i as int]));
            }
            let info = ScheduledJobInfo {
                slug: entry.slug.clone(),
                cadence: entry.job.cadence.clone(),
                characters: duplicate_texts(&entry.job.characters),
                prompts: duplicate_texts(&entry.job.prompts),
                next_run: format_rfc3339(entry.next_run),
            };
            infos.push(info);
            proof {
                assert(infos@.map_values(|info: ScheduledJobInfo| info@) =~= before.push(info@));
            }
            i += 1;
        }
        SchedulerStatus {
            is_running: self.is_running,
            job_count: self.scheduled_jobs.len(),
            scheduled_jobs: infos,
        }
    }

    /// One tick at the time `now`: hands out the jobs that are due, each
    /// once, and moves each of them to its first fire time behind `now`.
    ///
    /// No fire time moves back, and a due job whose schedule fires again is
    /// no longer due at `now`.
    pub fn check_and_run_jobs(&mut self, now: i64) -> (due: Vec<Job>)
        requires
            now < LAST_SECOND,
        ensures
            final(self)@.running == old(self)@.running,
            final(self)@.entries == old(self)@.entries.map_values(
                |entry: ScheduledJobView| ticked(entry, now as int),
            ),
            job_views(due@) == due_jobs(old(self)@.entries, now as int),
            forall|i: int|
                0 <= i < old(self)@.entries.len() ==> (#[trigger] old(self)@.entries[i]).next_run
                    <= final(self)@.entries[i].next_run,
            forall|i: int|
                0 <= i < old(self)@.entries.len() && is_due(
                    #[trigger] old(self)@.entries[i],
                    now as int,
                ) && cron_next_fire(old(self)@.entries[i].source, now as int) is Some
                    ==> old(self)@.entries[i].next_run <= now < final(self)@.entries[i].next_run,
    {
        proof {
            use_type_invariant(&*self);
        }
        let ghost before = entry_views(self.scheduled_jobs@);
        let mut entries: Vec<ScheduledJob> = Vec::new();
        std::mem::swap(&mut entries, &mut self.scheduled_jobs);
        let ghost wanted = |entry: ScheduledJobView| is_due(entry, now as int);
        let mut due: Vec<Job> = Vec::new();
        let count: usize = entries.len();
        let mut i: usize = 0;
        proof {
            reveal(Seq::filter);
        }
        while i < count
            invariant
                i <= count,
                count == before.len(),
                now < LAST_SECOND,
                entries.len() == count,
                valid_registry(before),
                wanted == |entry: ScheduledJobView| is_due(entry, now as int),
                forall|k: int|
                    0 <= k < i ==> (#[trigger] entries@[k])@ == ticked(
                        before[k],
                        now as int,
                    ) && before[k].next_run <= entries@[k].next_run && (is_due(
                        before[k],
                        now as int,
                    ) && cron_next_fire(before[k].source, now as int) is Some ==> now
                        < entries@[k].next_run),
                forall|k: int| i <= k < count ==> (#[trigger] entries@[k])@ == before[k],
                job_views(due@) == before.take(i as int).filter(wanted).map_values(
                    |entry: ScheduledJobView| entry.job,
                ),
                valid_registry(entry_views(entries@)),
            decreases count - i,
        {
            let ghost sofar = job_views(due@);
            let ghost current = entry_views(entries@);
            proof {
                reveal(Seq::filter);
                let upto = before.take(i + 1);
                assert(upto.drop_last() =~= before.take(i as int));
            }
            if entries[i].next_run <= now {
                let job = entries[i].job.duplicate();
                due.push(job);
                proof {
                    assert(job_views(due@) =~= sofar.push(job@));
                }
                match next_fire_after(&entries[i].schedule, now) {
                    Some(next) => {
                        let ghost moved = ScheduledJobView {
                            next_run: next as int,
                            ..before[i as int]
                        };
                        entries[i].next_run = next;
                        proof {
                            assert(entry_views(entries@) =~= current.update(i as int, moved));
                        }
                    },
                    None => {},
                }
            }
            i += 1;
        }
        proof {
            assert(before.take(count as int) =~= before);
        }
        self.scheduled_jobs = entries;
        due
    }
}

} // verus!
