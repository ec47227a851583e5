//! Scheduled jobs: which are due, what they fire and when they fire next.

use dashmap::DashMap;
use std::hash::RandomState;
use std::time::SystemTime;
use vstd::prelude::*;
use crate::cron::Cron;
use crate::ids::fresh_id;
use crate::text::{cat, dup_opt, same_opt};

verus! {

/// A scheduled job.
#[derive(Debug, Clone)]
pub struct ScheduledJob {
    /// Stable id, assigned on insertion when empty.
    pub id: String,
    /// Human-readable name.
    pub name: String,
    /// Cron expression in UTC, of five fields or of six with leading seconds.
    pub cron: String,
    /// Prompt handed to the agent session when the job fires.
    pub prompt: String,
    /// Session that the prompt runs under.
    pub session_id: String,
    /// Tenant that the job belongs to; none for an unscoped job.
    pub tenant_id: Option<String>,
    /// Where the reply of a fired job goes; none for the channel.
    pub reply_to: Option<String>,
}

impl Default for ScheduledJob {
    fn default() -> (r: Self)
        ensures
            r.id@.len() == 0,
            r.name@.len() == 0,
            r.cron@.len() == 0,
            r.prompt@.len() == 0,
            r.session_id@.len() == 0,
            r.tenant_id is None,
            r.reply_to is None,
    {
        ScheduledJob {
            id: String::new(),
            name: String::new(),
            cron: String::new(),
            prompt: String::new(),
            session_id: String::new(),
            tenant_id: None,
            reply_to: None,
        }
    }
}

/// A job with its compiled expression and the instant at which it fires next.
#[derive(Debug)]
pub struct Entry {
    pub job: ScheduledJob,
    pub cron: Cron,
    pub next_fire: i64,
}

impl ScheduledJob {
    /// A copy.
    pub fn dup(&self) -> (r: Self)
        ensures
            r == *self,
    {
        ScheduledJob {
            id: self.id.clone(),
            name: self.name.clone(),
            cron: self.cron.clone(),
            prompt: self.prompt.clone(),
            session_id: self.session_id.clone(),
            tenant_id: dup_opt(&self.tenant_id),
            reply_to: dup_opt(&self.reply_to),
        }
    }
}

impl Entry {
    /// A copy.
    pub fn dup(&self) -> (r: Self)
        ensures
            r == *self,
    {
        Entry { job: self.job.dup(), cron: self.cron.clone(), next_fire: self.next_fire }
    }
}

/// What a due job emits.
#[derive(Debug, Clone)]
pub struct FiredJob {
    pub id: String,
    pub name: String,
    pub prompt: String,
    pub session_id: String,
    pub tenant_id: Option<String>,
    pub reply_to: Option<String>,
    /// The instant at which the job fired.
    pub fired_at: i64,
}

/// Why a job was not added.
#[derive(Debug)]
pub enum AddError {
    /// The cron expression does not parse.
    InvalidCron { cron: String, cause: String },
    /// The clock is so far in the future that no next instant can be computed.
    ClockOutOfRange,
}

impl AddError {
    /// The text of the error, without its cause.
    pub fn text(&self) -> (r: String)
        ensures
            r@ == (match *self {
                AddError::InvalidCron { cron, .. } => "invalid cron: "@ + cron@,
                AddError::ClockOutOfRange => "clock out of range"@,
            }),
    {
        match self {
            AddError::InvalidCron { cron, .. } => cat("invalid cron: ", cron),
            AddError::ClockOutOfRange => "clock out of range".to_string(),
        }
    }

    /// The text of the error with its cause.
    pub fn chain(&self) -> (r: String)
        ensures
            r@ == (match *self {
                AddError::InvalidCron { cron, cause } => "invalid cron: "@ + cron@ + ": "@ + cause@,
                AddError::ClockOutOfRange => "clock out of range"@,
            }),
    {
        match self {
            AddError::InvalidCron { cause, .. } => cat(&cat(&self.text(), ": "), cause),
            AddError::ClockOutOfRange => self.text(),
        }
    }
}

// ---- the job table -----------------------------------------------------------

/// `dashmap::DashMap`, a hash map behind sharded locks.
#[verifier::external_type_specification]
#[verifier::external_body]
#[verifier::reject_recursive_types(K)]
#[verifier::reject_recursive_types(V)]
#[verifier::reject_recursive_types(S)]
pub struct ExDashMap<K, V, S>(DashMap<K, V, S>);

/// The jobs that a table holds, by id.
pub uninterp spec fn jobs_of(t: DashMap<String, Entry, RandomState>) -> Map<Seq<char>, Entry>;

/// `DashMap::new`: an empty map.
#[verifier::external_body]
fn table_new() -> (r: DashMap<String, Entry, RandomState>)
    ensures
        jobs_of(r).dom() == Set::<Seq<char>>::empty(),
{
    DashMap::new()
}

/// `DashMap::insert`: the key maps to the value, whatever it mapped to before;
/// the other keys keep their values.
#[verifier::external_body]
fn table_insert(t: &mut DashMap<String, Entry, RandomState>, id: String, e: Entry)
    ensures
        jobs_of(*final(t)) == jobs_of(*old(t)).insert(id@, e),
{
    t.insert(id, e);
}

/// `DashMap::remove`: takes the key out of the map and hands back its value, or
/// nothing when the key was not there; the other keys keep their values.
#[verifier::external_body]
fn table_remove(t: &mut DashMap<String, Entry, RandomState>, id: &str) -> (r: Option<Entry>)
    ensures
        jobs_of(*final(t)) == jobs_of(*old(t)).remove(id@),
        r is Some == jobs_of(*old(t)).dom().contains(id@),
        r matches Some(e) ==> e == jobs_of(*old(t))[id@],
{
    t.remove(id).map(|p| p.1)
}

/// `DashMap::get`: a copy of the value of the key, or nothing when the key is
/// not there.
#[verifier::external_body]
fn table_get(t: &DashMap<String, Entry, RandomState>, id: &str) -> (r: Option<Entry>)
    ensures
        r is Some == jobs_of(*t).dom().contains(id@),
        r matches Some(e) ==> e == jobs_of(*t)[id@],
{
    t.get(id).map(|e| e.value().dup())
}

/// `DashMap::iter`: every key of the map once. The order is that of the hasher,
/// so only the set of the keys is stated.
#[verifier::external_body]
fn table_ids(t: &DashMap<String, Entry, RandomState>) -> (r: Vec<String>)
    ensures
        enumerates(crate::text::views(r@), jobs_of(*t).dom()),
{
    t.iter().map(|e| e.key().clone()).collect()
}

/// `ids` lists the members of a set, each once.
pub open spec fn enumerates(ids: Seq<Seq<char>>, set: Set<Seq<char>>) -> bool {
    &&& ids.no_duplicates()
    &&& forall|k: Seq<char>| #[trigger] set.contains(k) <==> ids.contains(k)
}

// ---- firing ------------------------------------------------------------------

/// How many times one job fires in one evaluation at most.
pub const CATCH_UP: u64 = 60;

/// The instants at which an expression fires up to `now`, at most `left`, when
/// it fires next at `next`.
pub open spec fn due(m: crate::cron::CronModel, next: int, now: int, left: nat) -> Seq<int>
    decreases left,
{
    if next <= now && left > 0 {
        seq![next] + due(m, crate::cron::next_of(m, next), now, (left - 1) as nat)
    } else {
        Seq::empty()
    }
}

/// When the expression fires next after these.
pub open spec fn due_next(m: crate::cron::CronModel, next: int, now: int, left: nat) -> int
    decreases left,
{
    if next <= now && left > 0 {
        due_next(m, crate::cron::next_of(m, next), now, (left - 1) as nat)
    } else {
        next
    }
}

/// What a job emits when it fires at the instant `t`.
pub open spec fn fired(e: Entry, t: int) -> FiredJob {
    FiredJob {
        id: e.job.id,
        name: e.job.name,
        prompt: e.job.prompt,
        session_id: e.job.session_id,
        tenant_id: e.job.tenant_id,
        reply_to: e.job.reply_to,
        fired_at: t as i64,
    }
}

/// What a job emits in an evaluation at `now`.
pub open spec fn emitted(e: Entry, now: int) -> Seq<FiredJob> {
    due(e.cron@, e.next_fire as int, now, CATCH_UP as nat).map_values(|t: int| fired(e, t))
}

/// A job after an evaluation at `now`.
pub open spec fn advanced(e: Entry, now: int) -> Entry {
    Entry {
        job: e.job,
        cron: e.cron,
        next_fire: due_next(e.cron@, e.next_fire as int, now, CATCH_UP as nat) as i64,
    }
}

/// What the jobs `ids` emit, one after the other.
pub open spec fn emitted_all(
    jobs: Map<Seq<char>, Entry>,
    ids: Seq<Seq<char>>,
    now: int,
) -> Seq<FiredJob>
    decreases ids.len(),
{
    if ids.len() == 0 {
        Seq::empty()
    } else {
        emitted_all(jobs, ids.drop_last(), now) + emitted(jobs[ids.last()], now)
    }
}

/// All jobs after an evaluation at `now`.
pub open spec fn advanced_all(jobs: Map<Seq<char>, Entry>, now: int) -> Map<Seq<char>, Entry> {
    Map::new(|k: Seq<char>| jobs.dom().contains(k), |k: Seq<char>| advanced(jobs[k], now))
}

/// The latest instant from which a next instant can be computed.
pub const LATEST: i64 = 9_223_372_036_823_153_347;

/// Fires one job as often as it is due, and moves its next instant on.
fn fire(e: &mut Entry, now: i64, out: &mut Vec<FiredJob>)
    requires
        now <= LATEST,
    ensures
        final(out)@ == old(out)@ + emitted(*old(e), now as int),
        *final(e) == advanced(*old(e), now as int),
{
    let ghost m = e.cron@;
    let ghost start = e.next_fire as int;
    let ghost before = *e;
    let ghost had = out@;
    let ghost mut done = Seq::<int>::empty();
    let mut left: u64 = CATCH_UP;
    assert(done + due(m, start, now as int, CATCH_UP as nat) =~= due(
        m,
        start,
        now as int,
        CATCH_UP as nat,
    ));
    while e.next_fire <= now && left > 0
        invariant
            now <= LATEST,
            left <= CATCH_UP,
            m == e.cron@,
            e.job == before.job,
            e.cron == before.cron,
            start == before.next_fire,
            done + due(m, e.next_fire as int, now as int, left as nat) == due(
                m,
                start,
                now as int,
                CATCH_UP as nat,
            ),
            due_next(m, e.next_fire as int, now as int, left as nat) == due_next(
                m,
                start,
                now as int,
                CATCH_UP as nat,
            ),
            out@ == had + done.map_values(|t: int| fired(before, t)),
        decreases left,
    {
        let ghost t = e.next_fire as int;
        let ghost prev = done;
        let ghost rest = due(m, crate::cron::next_of(m, t), now as int, (left - 1) as nat);
        let job: FiredJob = FiredJob {
            id: e.job.id.clone(),
            name: e.job.name.clone(),
            prompt: e.job.prompt.clone(),
            session_id: e.job.session_id.clone(),
            tenant_id: dup_opt(&e.job.tenant_id),
            reply_to: dup_opt(&e.job.reply_to),
            fired_at: e.next_fire,
        };
        assert(job == fired(before, t));
        out.push(job);
        proof {
            done = done.push(t);
            assert(done.map_values(|t: int| fired(before, t)) =~= prev.map_values(
                |t: int| fired(before, t),
            ).push(fired(before, t)));
            assert(prev + (seq![t] + rest) =~= done + rest);
        }
        let next: i64 = e.cron.next_after(e.next_fire);
        e.next_fire = next;
        left = left - 1;
    }
    assert(done =~= due(m, start, now as int, CATCH_UP as nat));
}

// ---- the scheduler -------------------------------------------------------------

/// The scheduler.
pub struct Scheduler {
    jobs: DashMap<String, Entry, RandomState>,
}

impl View for Scheduler {
    type V = Map<Seq<char>, Entry>;

    closed spec fn view(&self) -> Map<Seq<char>, Entry> {
        jobs_of(self.jobs)
    }
}

/// A job stored under `id` has that id, and its compiled expression is the
/// meaning of its text.
pub open spec fn entry_wf(id: Seq<char>, e: Entry) -> bool {
    &&& e.job.id@ == id
    &&& crate::cron::cron_of(e.job.cron@) == Ok::<crate::cron::CronModel, Seq<char>>(e.cron@)
}

/// Whether a job belongs to a tenant.
pub open spec fn of_tenant(e: Entry, tenant: Option<Seq<char>>) -> bool {
    crate::text::opt_view(e.job.tenant_id) == tenant
}

/// The jobs `ids`.
pub open spec fn jobs_at(jobs: Map<Seq<char>, Entry>, ids: Seq<Seq<char>>) -> Seq<ScheduledJob> {
    ids.map_values(|k: Seq<char>| jobs[k].job)
}

/// The ids among `ids` whose jobs belong to a tenant.
pub open spec fn ids_for(
    jobs: Map<Seq<char>, Entry>,
    ids: Seq<Seq<char>>,
    tenant: Option<Seq<char>>,
) -> Seq<Seq<char>> {
    ids.filter(|k: Seq<char>| of_tenant(jobs[k], tenant))
}

/// The job as it is stored: with `id` in place of an empty id.
pub open spec fn stored_as(job: ScheduledJob, id: String) -> ScheduledJob {
    ScheduledJob { id, ..job }
}

/// What adding a job at an instant does to the jobs, and what it returns. An expression
/// that does not parse is refused at any instant; one that does only after the latest
/// instant from which a next one can be computed.
pub open spec fn added_at(
    pre: Map<Seq<char>, Entry>,
    post: Map<Seq<char>, Entry>,
    job: ScheduledJob,
    now: i64,
    r: Result<String, AddError>,
) -> bool {
    match crate::cron::cron_of(job.cron@) {
        Err(e) => {
            &&& r matches Err(AddError::InvalidCron { cron, cause })
            &&& cron@ == job.cron@
            &&& cause@ == e
            &&& post == pre
        },
        Ok(m) => if now > LATEST {
            &&& r matches Err(AddError::ClockOutOfRange)
            &&& post == pre
        } else {
            &&& r matches Ok(id)
            &&& if job.id@.len() == 0 {
                crate::ids::is_fresh_id(id@, "job-"@)
            } else {
                id@ == job.id@
            }
            &&& post.dom() == pre.dom().insert(id@)
            &&& post == pre.insert(id@, post[id@])
            &&& post[id@].job == stored_as(job, post[id@].job.id)
            &&& post[id@].job.id@ == id@
            &&& post[id@].cron@ == m
            &&& post[id@].next_fire == crate::cron::next_of(m, now as int)
        },
    }
}

impl Scheduler {
    /// Every stored job is well formed.
    pub open spec fn wf(&self) -> bool {
        forall|k: Seq<char>| #[trigger] self@.dom().contains(k) ==> entry_wf(k, self@[k])
    }

    /// A scheduler without jobs.
    pub fn new() -> (r: Self)
        ensures
            r.wf(),
            r@ == Map::<Seq<char>, Entry>::empty(),
    {
        let r: Scheduler = Scheduler { jobs: table_new() };
        assert(r@ =~= Map::<Seq<char>, Entry>::empty());
        r
    }

    /// Adds a job that fires next after `now`, in place of one with the same id.
    /// A job without an id gets a fresh one. It fails on an expression that does not
    /// parse, and past the last instant that a next one can be computed from.
    pub fn add_at(&mut self, job: ScheduledJob, now: i64) -> (r: Result<String, AddError>)
        requires
            old(self).wf(),
        ensures
            final(self).wf(),
            added_at(old(self)@, final(self)@, job, now, r),
    {
        let mut job: ScheduledJob = job;
        let ghost given = job;
        if job.id.as_str().is_empty() {
            job.id = fresh_id("job-");
        }
        let cron: Cron = match Cron::parse(&job.cron) {
            Err(cause) => {
                return Err(AddError::InvalidCron { cron: job.cron, cause });
            },
            Ok(c) => c,
        };
        if now > LATEST {
            return Err(AddError::ClockOutOfRange);
        }
        let next_fire: i64 = cron.next_after(now);
        let id: String = job.id.clone();
        let ghost e = Entry { job, cron, next_fire };
        table_insert(&mut self.jobs, id.clone(), Entry { job, cron, next_fire });
        assert(self@ == old(self)@.insert(id@, e));
        assert(self@.dom() =~= old(self)@.dom().insert(id@));
        assert(self@[id@].job == stored_as(given, self@[id@].job.id));
        Ok(id)
    }

    /// Adds a job that fires next after the present, as `add_at` does at the instant
    /// that the clock gives.
    pub fn add(&mut self, job: ScheduledJob) -> (r: Result<String, AddError>)
        requires
            old(self).wf(),
        ensures
            final(self).wf(),
            exists|now: i64| #[trigger] added_at(old(self)@, final(self)@, job, now, r),
    {
        self.add_at(job, wall_secs())
    }

    /// Removes a job. Whether it was there.
    pub fn remove(&mut self, id: &str) -> (r: bool)
        requires
            old(self).wf(),
        ensures
            final(self).wf(),
            r == old(self)@.dom().contains(id@),
            final(self)@ == old(self)@.remove(id@),
    {
        let found: bool = table_remove(&mut self.jobs, id).is_some();
        assert forall|k: Seq<char>| #[trigger] self@.dom().contains(k) implies entry_wf(
            k,
            self@[k],
        ) by {
            assert(old(self)@.dom().contains(k));
        }
        found
    }

    /// Removes a job if it belongs to `tenant`. Whether it was removed.
    pub fn remove_for(&mut self, id: &str, tenant: Option<&str>) -> (r: bool)
        requires
            old(self).wf(),
        ensures
            final(self).wf(),
            r == (old(self)@.dom().contains(id@) && of_tenant(
                old(self)@[id@],
                crate::text::opt_str_view(tenant),
            )),
            final(self)@ == (if r { old(self)@.remove(id@) } else { old(self)@ }),
    {
        match table_get(&self.jobs, id) {
            None => false,
            Some(e) => {
                if same_opt(&e.job.tenant_id, tenant) {
                    self.remove(id)
                } else {
                    false
                }
            },
        }
    }

    /// All jobs, in no particular order.
    pub fn list(&self) -> (r: Vec<ScheduledJob>)
        ensures
            exists|ids: Seq<Seq<char>>| #[trigger]
                enumerates(ids, self@.dom()) && r@ == jobs_at(self@, ids),
    {
        let ids: Vec<String> = table_ids(&self.jobs);
        let ghost keys = crate::text::views(ids@);
        let mut out: Vec<ScheduledJob> = Vec::new();
        let mut i: usize = 0;
        while i < ids.len()
            invariant
                keys == crate::text::views(ids@),
                enumerates(keys, self@.dom()),
                i <= ids@.len(),
                out@ == jobs_at(self@, keys.take(i as int)),
            decreases ids@.len() - i,
        {
            let ghost before = out@;
            assert(keys[i as int] == ids@[i as int]@);
            assert(keys.contains(keys[i as int]));
            if let Some(e) = table_get(&self.jobs, &ids[i]) {
                out.push(e.job);
            }
            assert(jobs_at(self@, keys.take(i + 1)) =~= before.push(self@[keys[i as int]].job));
            i = i + 1;
        }
        assert(keys.take(ids@.len() as int) =~= keys);
        out
    }

    /// The jobs of `tenant`, in no particular order.
    pub fn list_for(&self, tenant: Option<&str>) -> (r: Vec<ScheduledJob>)
        ensures
            exists|ids: Seq<Seq<char>>| #[trigger]
                enumerates(ids, self@.dom()) && r@ == jobs_at(
                    self@,
                    ids_for(self@, ids, crate::text::opt_str_view(tenant)),
                ),
    {
        let ids: Vec<String> = table_ids(&self.jobs);
        let ghost keys = crate::text::views(ids@);
        let ghost t = crate::text::opt_str_view(tenant);
        let mut out: Vec<ScheduledJob> = Vec::new();
        let mut i: usize = 0;
        assert(ids_for(self@, keys.take(0), t) =~= Seq::<Seq<char>>::empty()) by {
            reveal(Seq::filter);
        }
        while i < ids.len()
            invariant
                keys == crate::text::views(ids@),
                enumerates(keys, self@.dom()),
                t == crate::text::opt_str_view(tenant),
                i <= ids@.len(),
                out@ == jobs_at(self@, ids_for(self@, keys.take(i as int), t)),
            decreases ids@.len() - i,
        {
            let ghost before = out@;
            let ghost key = keys[i as int];
            assert(key == ids@[i as int]@);
            assert(keys.contains(key));
            proof {
                crate::seqs::lemma_filter_step(
                    keys,
                    |k: Seq<char>| of_tenant(self@[k], t),
                    i as int,
                );
            }
            if let Some(e) = table_get(&self.jobs, &ids[i]) {
                if same_opt(&e.job.tenant_id, tenant) {
                    out.push(e.job);
                    assert(ids_for(self@, keys.take(i + 1), t) =~= ids_for(
                        self@,
                        keys.take(i as int),
                        t,
                    ).push(key));
                    assert(jobs_at(self@, ids_for(self@, keys.take(i + 1), t)) =~= before.push(
                        self@[key].job,
                    ));
                } else {
                    assert(ids_for(self@, keys.take(i + 1), t) =~= ids_for(
                        self@,
                        keys.take(i as int),
                        t,
                    ));
                }
            }
            i = i + 1;
        }
        assert(keys.take(ids@.len() as int) =~= keys);
        out
    }

    /// A job.
    pub fn get(&self, id: &str) -> (r: Option<ScheduledJob>)
        ensures
            r is Some == self@.dom().contains(id@),
            r matches Some(j) ==> j == self@[id@].job,
    {
        match table_get(&self.jobs, id) {
            None => None,
            Some(e) => Some(e.job),
        }
    }

    /// Fires the jobs that are due at `now` and moves their next instants on. A
    /// job that missed several instants fires for each, at most sixty times. The
    /// jobs come in no particular order.
    pub fn evaluate(&mut self, now: i64) -> (r: Vec<FiredJob>)
        requires
            old(self).wf(),
            now <= LATEST,
        ensures
            final(self).wf(),
            final(self)@ == advanced_all(old(self)@, now as int),
            exists|ids: Seq<Seq<char>>| #[trigger]
                enumerates(ids, old(self)@.dom()) && r@ == emitted_all(
                    old(self)@,
                    ids,
                    now as int,
                ),
    {
        let ids: Vec<String> = table_ids(&self.jobs);
        let ghost keys = crate::text::views(ids@);
        let ghost start = self@;
        let mut out: Vec<FiredJob> = Vec::new();
        let mut i: usize = 0;
        while i < ids.len()
            invariant
                now <= LATEST,
                keys == crate::text::views(ids@),
                enumerates(keys, start.dom()),
                i <= ids@.len(),
                self@.dom() =~= start.dom(),
                forall|j: int| 0 <= j < i ==> self@[keys[j]] == advanced(
                    start[#[trigger] keys[j]],
                    now as int,
                ),
                forall|j: int| i <= j < keys.len() ==> self@[#[trigger] keys[j]] == start[keys[j]],
                out@ == emitted_all(start, keys.take(i as int), now as int),
            decreases ids@.len() - i,
        {
            let ghost key = keys[i as int];
            assert(key == ids@[i as int]@);
            assert(keys.contains(key));
            assert(keys.take(i + 1).drop_last() =~= keys.take(i as int));
            if let Some(e) = table_remove(&mut self.jobs, &ids[i]) {
                let mut e: Entry = e;
                fire(&mut e, now, &mut out);
                table_insert(&mut self.jobs, ids[i].clone(), e);
            }
            i = i + 1;
        }
        assert(keys.take(ids@.len() as int) =~= keys);
        assert(self@ =~= advanced_all(start, now as int)) by {
            assert forall|k: Seq<char>| start.dom().contains(k) implies self@[k] == advanced(
                start[k],
                now as int,
            ) by {
                assert(keys.contains(k));
                let j = choose|j: int| 0 <= j < keys.len() && keys[j] == k;
                assert(self@[keys[j]] == advanced(start[keys[j]], now as int));
            }
        }
        out
    }
}

impl Default for Scheduler {
    fn default() -> (r: Self)
        ensures
            r.wf(),
            r@ == Map::<Seq<char>, Entry>::empty(),
    {
        Scheduler::new()
    }
}

// ---- the clock -------------------------------------------------------------------

/// `std::time::SystemTime`, an instant of the system clock.
#[verifier::external_type_specification]
#[verifier::external_body]
pub struct ExSystemTime(SystemTime);

/// `SystemTime::now`: the system clock. It decides the result, so none is stated.
#[verifier::external_body]
fn clock() -> SystemTime {
    SystemTime::now()
}

/// `SystemTime::duration_since` the UNIX epoch in whole seconds, or nothing for an
/// instant before it. An instant of the clock has no other form here, so nothing is
/// stated of the number.
#[verifier::external_body]
fn secs_since_epoch(t: &SystemTime) -> Option<u64> {
    t.duration_since(std::time::UNIX_EPOCH).ok().map(|d| d.as_secs())
}

/// The seconds of a clock as a signed number; 0 for a clock before the epoch.
pub open spec fn secs_of(clock: Option<u64>) -> i64 {
    match clock {
        Some(s) => s as i64,
        None => 0i64,
    }
}

/// The seconds of a clock as a signed number; 0 for a clock before the epoch.
pub fn secs_of_clock(clock: Option<u64>) -> (r: i64)
    ensures
        r == secs_of(clock),
{
    match clock {
        Some(s) => s as i64,
        None => 0,
    }
}

/// The wall clock as seconds since the UNIX epoch, in UTC. The clock decides which reading
/// it is; `secs_of_clock` states how a reading becomes a number.
pub fn wall_secs() -> (r: i64)
    ensures
        exists|reading: Option<u64>| r == #[trigger] secs_of(reading),
{
    secs_of_clock(secs_since_epoch(&clock()))
}

// ---- laws --------------------------------------------------------------------

/// A job that is added at an instant is due only later.
pub proof fn added_jobs_fire_later(m: crate::cron::CronModel, now: int)
    ensures
        crate::cron::next_of(m, now) > now,
{
    crate::cron::next_exists(m, now);
}

/// A job that fires next in the future emits nothing and stays as it is.
pub proof fn future_jobs_stay(e: Entry, now: int)
    requires
        e.next_fire > now,
    ensures
        emitted(e, now).len() == 0,
        advanced(e, now) == e,
{
}

/// A due job emits at least one event, and at most sixty.
pub proof fn due_jobs_fire(e: Entry, now: int)
    requires
        e.next_fire <= now,
    ensures
        1 <= emitted(e, now).len() <= CATCH_UP,
        emitted(e, now)[0] == fired(e, e.next_fire as int),
{
    lemma_due_len(e.cron@, e.next_fire as int, now, CATCH_UP as nat);
}

proof fn lemma_due_len(m: crate::cron::CronModel, next: int, now: int, left: nat)
    ensures
        due(m, next, now, left).len() <= left,
    decreases left,
{
    if next <= now && left > 0 {
        lemma_due_len(m, crate::cron::next_of(m, next), now, (left - 1) as nat);
    }
}

/// Unless the cap was reached, the next instant lies in the future.
pub proof fn caught_up(m: crate::cron::CronModel, next: int, now: int, left: nat)
    ensures
        due(m, next, now, left).len() < left ==> due_next(m, next, now, left) > now,
    decreases left,
{
    if next <= now && left > 0 {
        caught_up(m, crate::cron::next_of(m, next), now, (left - 1) as nat);
    }
}

/// A second evaluation at the same instant emits nothing for a job that did not
/// reach the cap in the first.
pub proof fn evaluation_is_idempotent(e: Entry, now: int)
    requires
        now <= LATEST,
        emitted(e, now).len() < CATCH_UP,
    ensures
        emitted(advanced(e, now), now).len() == 0,
        advanced(advanced(e, now), now) == advanced(e, now),
{
    let m = e.cron@;
    caught_up(m, e.next_fire as int, now, CATCH_UP as nat);
    lemma_next_bounded(m, e.next_fire as int, now, CATCH_UP as nat);
}

proof fn lemma_next_bounded(m: crate::cron::CronModel, next: int, now: int, left: nat)
    requires
        now <= LATEST,
        i64::MIN <= next <= i64::MAX,
    ensures
        i64::MIN <= due_next(m, next, now, left) <= i64::MAX,
    decreases left,
{
    if next <= now && left > 0 {
        crate::cron::next_exists(m, next);
        lemma_next_bounded(m, crate::cron::next_of(m, next), now, (left - 1) as nat);
    }
}

/// The instants at which a job fires are strictly increasing, none lies after
/// `now`, and its next instant comes after them all.
pub proof fn due_is_increasing(m: crate::cron::CronModel, next: int, now: int, left: nat)
    ensures
        forall|i: int|
            0 <= i < due(m, next, now, left).len() ==> next <= #[trigger] due(
                m,
                next,
                now,
                left,
            )[i] <= now,
        forall|i: int, j: int|
            0 <= i < j < due(m, next, now, left).len() ==> #[trigger] due(m, next, now, left)[i]
                < #[trigger] due(m, next, now, left)[j],
        forall|i: int|
            0 <= i < due(m, next, now, left).len() ==> #[trigger] due(m, next, now, left)[i]
                < due_next(m, next, now, left),
        next <= due_next(m, next, now, left),
    decreases left,
{
    if next <= now && left > 0 {
        crate::cron::next_exists(m, next);
        let n = crate::cron::next_of(m, next);
        let l = (left - 1) as nat;
        due_is_increasing(m, n, now, l);
        let d = due(m, next, now, left);
        let t = due(m, n, now, l);
        assert forall|i: int| 0 < i < d.len() implies d[i] == t[i - 1] by {}
        assert forall|i: int, j: int| 0 <= i < j < d.len() implies d[i] < d[j] by {
            assert(d[j] == t[j - 1]);
            if i > 0 {
                assert(d[i] == t[i - 1]);
            }
        }
        assert forall|i: int| 0 <= i < d.len() implies next <= d[i] <= now && d[i] < due_next(
            m,
            next,
            now,
            left,
        ) by {
            if i > 0 {
                assert(d[i] == t[i - 1]);
            }
        }
    }
}

/// Whether an expression fires at least once in every search: the instant that a search
/// finds is one at which it fires.
pub open spec fn fires_yearly(m: crate::cron::CronModel) -> bool {
    forall|epoch: int| crate::cron::fires(m, #[trigger] crate::cron::next_of(m, epoch))
}

/// The instants that a job emits are exactly the first ones, as many as the cap allows,
/// at which its expression fires from its next instant up to `now`: it fires at each of
/// them, and an instant at which it fires is one of them, or comes after all of them when
/// the cap was reached.
pub proof fn due_is_what_fires(
    m: crate::cron::CronModel,
    next: int,
    now: int,
    left: nat,
    i: int,
    t: int,
)
    requires
        fires_yearly(m),
        crate::cron::fires(m, next),
    ensures
        0 <= i < due(m, next, now, left).len() ==> crate::cron::fires(
            m,
            due(m, next, now, left)[i],
        ) && next <= due(m, next, now, left)[i] <= now,
        next <= t <= now && crate::cron::fires(m, t) ==> due(m, next, now, left).contains(t) || (
        due(m, next, now, left).len() == left && forall|j: int|
            0 <= j < left ==> #[trigger] due(m, next, now, left)[j] < t),
        due(m, next, now, left).len() <= left,
    decreases left,
{
    let d = due(m, next, now, left);
    due_is_increasing(m, next, now, left);
    if next <= now && left > 0 {
        let n = crate::cron::next_of(m, next);
        let l = (left - 1) as nat;
        let rest = due(m, n, now, l);
        crate::cron::next_exists(m, next);
        due_is_what_fires(m, n, now, l, i - 1, t);
        if 0 < i < d.len() {
            assert(d[i] == rest[i - 1]);
        }
        if next <= t <= now && crate::cron::fires(m, t) {
            if t == next {
                assert(d[0] == t);
            } else {
                if t < n {
                    assert(!crate::cron::fires(m, t));
                }
                if rest.contains(t) {
                    let k = choose|k: int| 0 <= k < rest.len() && rest[k] == t;
                    assert(d[k + 1] == t);
                } else {
                    assert forall|j: int| 0 <= j < left implies #[trigger] d[j] < t by {
                        if j > 0 {
                            assert(d[j] == rest[j - 1]);
                        }
                    }
                }
            }
        }
    }
}

/// A job that is added at `now` and evaluated up to `until` emits an event at each of the
/// first instants after `now` at which its expression fires, with what the job says.
pub proof fn added_jobs_fire_on_time(
    pre: Map<Seq<char>, Entry>,
    post: Map<Seq<char>, Entry>,
    job: ScheduledJob,
    now: i64,
    r: Result<String, AddError>,
    until: int,
    t: int,
)
    requires
        added_at(pre, post, job, now, r),
        r is Ok,
        fires_yearly(post[r->Ok_0@].cron@),
        now < t <= until <= LATEST,
        crate::cron::fires(post[r->Ok_0@].cron@, t),
        emitted(post[r->Ok_0@], until).len() < CATCH_UP,
    ensures
        emitted(post[r->Ok_0@], until).contains(fired(post[r->Ok_0@], t)),
        fired(post[r->Ok_0@], t).prompt == job.prompt,
        fired(post[r->Ok_0@], t).fired_at == t,
{
    let e = post[r->Ok_0@];
    let next = e.next_fire as int;
    crate::cron::next_exists(e.cron@, now as int);
    if t < next {
        assert(!crate::cron::fires(e.cron@, t));
    }
    due_is_what_fires(e.cron@, next, until, CATCH_UP as nat, 0, t);
    let d = due(e.cron@, next, until, CATCH_UP as nat);
    let k = choose|k: int| 0 <= k < d.len() && d[k] == t;
    assert(emitted(e, until)[k] == fired(e, t));
}

/// An evaluation keeps every job, and changes nothing but its next instant.
pub proof fn evaluation_keeps_jobs(jobs: Map<Seq<char>, Entry>, now: int, id: Seq<char>)
    requires
        jobs.dom().contains(id),
    ensures
        advanced_all(jobs, now).dom() == jobs.dom(),
        advanced_all(jobs, now)[id].job == jobs[id].job,
        advanced_all(jobs, now)[id].cron == jobs[id].cron,
{
    assert(advanced_all(jobs, now).dom() =~= jobs.dom());
}

/// A listing for a tenant shows that tenant's jobs and no others.
pub proof fn listing_is_scoped(
    jobs: Map<Seq<char>, Entry>,
    ids: Seq<Seq<char>>,
    tenant: Option<Seq<char>>,
    id: Seq<char>,
)
    requires
        enumerates(ids, jobs.dom()),
    ensures
        ids_for(jobs, ids, tenant).contains(id) <==> (jobs.dom().contains(id) && of_tenant(
            jobs[id],
            tenant,
        )),
{
    crate::seqs::lemma_filter_members(ids, |k: Seq<char>| of_tenant(jobs[k], tenant), id);
}

/// An event says what its job says: the job's id, name and prompt, where it runs, whose it is
/// and where the reply goes, and the instant.
pub proof fn events_say_what_the_job_says(e: Entry, t: int)
    requires
        i64::MIN <= t <= i64::MAX,
    ensures
        fired(e, t).id == e.job.id,
        fired(e, t).name == e.job.name,
        fired(e, t).prompt == e.job.prompt,
        fired(e, t).session_id == e.job.session_id,
        fired(e, t).tenant_id == e.job.tenant_id,
        fired(e, t).reply_to == e.job.reply_to,
        fired(e, t).fired_at == t,
{
}

proof fn lemma_emitted_of(jobs: Map<Seq<char>, Entry>, ids: Seq<Seq<char>>, now: int, i: int, j: int)
    requires
        0 <= i < ids.len(),
        0 <= j < emitted(jobs[ids[i]], now).len(),
    ensures
        emitted_all(jobs, ids, now).contains(emitted(jobs[ids[i]], now)[j]),
    decreases ids.len(),
{
    let rest = ids.drop_last();
    let a = emitted_all(jobs, rest, now);
    let b = emitted(jobs[ids.last()], now);
    if i == ids.len() - 1 {
        assert((a + b)[a.len() + j] == b[j]);
    } else {
        assert(rest[i] == ids[i]);
        lemma_emitted_of(jobs, rest, now, i, j);
        let k = choose|k: int| 0 <= k < a.len() && a[k] == emitted(jobs[ids[i]], now)[j];
        assert((a + b)[k] == a[k]);
    }
}

proof fn lemma_emitted_by(jobs: Map<Seq<char>, Entry>, ids: Seq<Seq<char>>, now: int, n: int)
    requires
        0 <= n < emitted_all(jobs, ids, now).len(),
    ensures
        exists|i: int, j: int|
            0 <= i < ids.len() && 0 <= j < emitted(#[trigger] jobs[ids[i]], now).len()
                && emitted_all(jobs, ids, now)[n] == #[trigger] emitted(jobs[ids[i]], now)[j],
    decreases ids.len(),
{
    let rest = ids.drop_last();
    let a = emitted_all(jobs, rest, now);
    let b = emitted(jobs[ids.last()], now);
    if n < a.len() {
        lemma_emitted_by(jobs, rest, now, n);
        let (i, j) = choose|i: int, j: int|
            0 <= i < rest.len() && 0 <= j < emitted(#[trigger] jobs[rest[i]], now).len() && a[n]
                == #[trigger] emitted(jobs[rest[i]], now)[j];
        assert(rest[i] == ids[i]);
        assert(emitted_all(jobs, ids, now)[n] == emitted(jobs[ids[i]], now)[j]);
    } else {
        let i = ids.len() - 1;
        assert(emitted_all(jobs, ids, now)[n] == emitted(jobs[ids[i]], now)[n - a.len()]);
    }
}

/// An evaluation fires every job at each instant that is due: at which the job's expression
/// fires, from the job's next instant up to `now`. A job that missed more than sixty fires for
/// the first sixty.
pub proof fn evaluations_fire_what_is_due(
    jobs: Map<Seq<char>, Entry>,
    ids: Seq<Seq<char>>,
    now: int,
    id: Seq<char>,
    t: int,
)
    requires
        enumerates(ids, jobs.dom()),
        jobs.dom().contains(id),
        fires_yearly(jobs[id].cron@),
        crate::cron::fires(jobs[id].cron@, jobs[id].next_fire as int),
        jobs[id].next_fire <= t <= now <= LATEST,
        crate::cron::fires(jobs[id].cron@, t),
    ensures
        (exists|n: int|
            0 <= n < emitted_all(jobs, ids, now).len() && (#[trigger] emitted_all(
                jobs,
                ids,
                now,
            )[n]).fired_at == t && emitted_all(jobs, ids, now)[n].id == jobs[id].job.id
                && emitted_all(jobs, ids, now)[n].prompt == jobs[id].job.prompt) || (emitted(
            jobs[id],
            now,
        ).len() == 60 && forall|j: int|
            0 <= j < 60 ==> (#[trigger] emitted(jobs[id], now)[j]).fired_at < t),
{
    let e = jobs[id];
    let d = due(e.cron@, e.next_fire as int, now, CATCH_UP as nat);
    due_is_what_fires(e.cron@, e.next_fire as int, now, CATCH_UP as nat, 0, t);
    due_is_increasing(e.cron@, e.next_fire as int, now, CATCH_UP as nat);
    assert(ids.contains(id));
    let i = choose|i: int| 0 <= i < ids.len() && ids[i] == id;
    if d.contains(t) {
        let j = choose|j: int| 0 <= j < d.len() && d[j] == t;
        assert(emitted(e, now)[j] == fired(e, t));
        lemma_emitted_of(jobs, ids, now, i, j);
        let n = choose|n: int|
            0 <= n < emitted_all(jobs, ids, now).len() && emitted_all(jobs, ids, now)[n] == fired(
                e,
                t,
            );
        assert(emitted_all(jobs, ids, now)[n].fired_at == t);
    } else {
        assert forall|j: int| 0 <= j < 60 implies (#[trigger] emitted(e, now)[j]).fired_at < t by {
            assert(emitted(e, now)[j] == fired(e, d[j]));
            assert(e.next_fire <= d[j] <= now);
        }
    }
}

/// An evaluation fires nothing else: each event is of a job that is stored, at an instant up to
/// `now`, not before the job's next one, and at most sixty are of one job.
pub proof fn evaluations_fire_nothing_else(
    jobs: Map<Seq<char>, Entry>,
    ids: Seq<Seq<char>>,
    now: int,
    n: int,
)
    requires
        enumerates(ids, jobs.dom()),
        0 <= n < emitted_all(jobs, ids, now).len(),
        now <= LATEST,
    ensures
        exists|id: Seq<char>|
            {
                let f = emitted_all(jobs, ids, now)[n];
                let e = #[trigger] jobs[id];
                &&& jobs.dom().contains(id)
                &&& emitted(e, now).len() <= 60
                &&& f.id == e.job.id
                &&& f.name == e.job.name
                &&& f.prompt == e.job.prompt
                &&& f.session_id == e.job.session_id
                &&& f.tenant_id == e.job.tenant_id
                &&& f.reply_to == e.job.reply_to
                &&& e.next_fire <= f.fired_at <= now
            },
{
    lemma_emitted_by(jobs, ids, now, n);
    let (i, j) = choose|i: int, j: int|
        0 <= i < ids.len() && 0 <= j < emitted(#[trigger] jobs[ids[i]], now).len() && emitted_all(
            jobs,
            ids,
            now,
        )[n] == #[trigger] emitted(jobs[ids[i]], now)[j];
    let e = jobs[ids[i]];
    let d = due(e.cron@, e.next_fire as int, now, CATCH_UP as nat);
    due_is_increasing(e.cron@, e.next_fire as int, now, CATCH_UP as nat);
    lemma_due_len(e.cron@, e.next_fire as int, now, CATCH_UP as nat);
    assert(ids.contains(ids[i]));
    assert(jobs.dom().contains(ids[i]));
    assert(emitted(e, now)[j] == fired(e, d[j]));
    assert(e.next_fire <= d[j] <= now);
}

/// After an evaluation a job is due at its first instant past `now`: none at which it fires
/// lies between, unless it had sixty to catch up on.
pub proof fn evaluations_move_on(e: Entry, now: int)
    requires
        now <= LATEST,
        emitted(e, now).len() < 60,
    ensures
        advanced(e, now).next_fire > now,
        e.next_fire > now ==> advanced(e, now).next_fire == e.next_fire,
        advanced(e, now).job == e.job,
        advanced(e, now).cron == e.cron,
        forall|t: int|
            now < t < advanced(e, now).next_fire && e.next_fire <= now ==> !#[trigger]
                crate::cron::fires(e.cron@, t),
{
    caught_up(e.cron@, e.next_fire as int, now, CATCH_UP as nat);
    lemma_next_bounded(e.cron@, e.next_fire as int, now, CATCH_UP as nat);
    if e.next_fire <= now {
        lemma_next_is_first(e.cron@, e.next_fire as int, now, CATCH_UP as nat);
    }
}

proof fn lemma_next_is_first(m: crate::cron::CronModel, next: int, now: int, left: nat)
    requires
        next <= now,
        due_next(m, next, now, left) > now,
    ensures
        forall|t: int|
            now < t < due_next(m, next, now, left) ==> !#[trigger] crate::cron::fires(m, t),
    decreases left,
{
    if left > 0 {
        let n = crate::cron::next_of(m, next);
        crate::cron::next_exists(m, next);
        if n <= now {
            lemma_next_is_first(m, n, now, (left - 1) as nat);
        } else {
            assert(due_next(m, n, now, (left - 1) as nat) == n);
        }
    }
}

/// A job that is added is stored as it is given, under its id or under a fresh one, is due at
/// the first instant after `now` at which its expression fires, and changes no other job. One
/// whose expression does not parse is not added, nor is any past the last instant.
pub proof fn added_jobs_are_stored(
    pre: Map<Seq<char>, Entry>,
    post: Map<Seq<char>, Entry>,
    job: ScheduledJob,
    now: i64,
    r: Result<String, AddError>,
    other: Seq<char>,
)
    requires
        added_at(pre, post, job, now, r),
    ensures
        r is Ok <==> crate::cron::cron_of(job.cron@) is Ok && now <= LATEST,
        r is Err ==> post == pre,
        r matches Ok(id) ==> {
            let e = post[id@];
            &&& post.dom().contains(id@)
            &&& job.id@.len() > 0 ==> id@ == job.id@
            &&& e.job.id@ == id@
            &&& e.job.name == job.name
            &&& e.job.cron == job.cron
            &&& e.job.prompt == job.prompt
            &&& e.job.session_id == job.session_id
            &&& e.job.tenant_id == job.tenant_id
            &&& e.job.reply_to == job.reply_to
            &&& e.next_fire > now
            &&& forall|t: int| now < t < e.next_fire ==> !#[trigger] crate::cron::fires(e.cron@, t)
            &&& crate::cron::cron_of(job.cron@) == Ok::<crate::cron::CronModel, Seq<char>>(e.cron@)
            &&& other != id@ ==> post.dom().contains(other) == pre.dom().contains(other)
                && post[other] == pre[other]
        },
{
    if let Ok(m) = crate::cron::cron_of(job.cron@) {
        crate::cron::next_exists(m, now as int);
    }
}

/// A tenant sees its own jobs, each once, and no others: those that carry its id, or none where
/// none is asked for.
pub proof fn tenants_see_their_jobs(
    s: &Scheduler,
    tenant: Option<&str>,
    r: Vec<ScheduledJob>,
    id: Seq<char>,
)
    requires
        s.wf(),
        call_ensures(Scheduler::list_for, (s, tenant), r),
        s@.dom().contains(id),
    ensures
        (exists|i: int| 0 <= i < r@.len() && #[trigger] r@[i] == s@[id].job) <==> (match (
            s@[id].job.tenant_id,
            tenant,
        ) {
            (Some(a), Some(b)) => a@ == b@,
            (None, None) => true,
            _ => false,
        }),
        forall|i: int|
            0 <= i < r@.len() ==> s@.dom().contains((#[trigger] r@[i]).id@) && s@[r@[i].id@].job
                == r@[i],
        forall|i: int, j: int|
            0 <= i < j < r@.len() ==> (#[trigger] r@[i]).id@ != (#[trigger] r@[j]).id@,
{
    let t = crate::text::opt_str_view(tenant);
    let ids = choose|ids: Seq<Seq<char>>| #[trigger]
        enumerates(ids, s@.dom()) && r@ == jobs_at(s@, ids_for(s@, ids, t));
    let mine = ids_for(s@, ids, t);
    listing_is_scoped(s@, ids, t, id);
    assert forall|i: int| 0 <= i < r@.len() implies s@.dom().contains(mine[i]) && #[trigger] r@[i]
        == s@[mine[i]].job && r@[i].id@ == mine[i] by {
        listing_is_scoped(s@, ids, t, mine[i]);
        assert(mine.contains(mine[i]));
        assert(entry_wf(mine[i], s@[mine[i]]));
    }
    if mine.contains(id) {
        let i = choose|i: int| 0 <= i < mine.len() && mine[i] == id;
        assert(r@[i] == s@[id].job);
    }
    assert(entry_wf(id, s@[id]));
    if exists|i: int| 0 <= i < r@.len() && #[trigger] r@[i] == s@[id].job {
        let i = choose|i: int| 0 <= i < r@.len() && #[trigger] r@[i] == s@[id].job;
        assert(mine[i] == id);
        assert(mine.contains(id));
    }
    crate::seqs::lemma_filter_no_duplicates(ids, |k: Seq<char>| of_tenant(s@[k], t));
    assert forall|i: int, j: int| 0 <= i < j < r@.len() implies (#[trigger] r@[i]).id@ != (
    #[trigger] r@[j]).id@ by {
        assert(mine[i] != mine[j]);
    }
}

/// A job is removed by its id, and for a tenant only if it is the tenant's.
pub proof fn removals_take_one_job(
    s: &mut Scheduler,
    id: &str,
    tenant: Option<&str>,
    r: bool,
    other: Seq<char>,
)
    requires
        old(s).wf(),
        call_ensures(Scheduler::remove_for, (s, id, tenant), r),
    ensures
        r <==> old(s)@.dom().contains(id@) && (match (old(s)@[id@].job.tenant_id, tenant) {
            (Some(a), Some(b)) => a@ == b@,
            (None, None) => true,
            _ => false,
        }),
        r ==> !final(s)@.dom().contains(id@),
        !r ==> final(s)@ == old(s)@,
        other != id@ ==> final(s)@.dom().contains(other) == old(s)@.dom().contains(other) && final(s)@[other] == old(s)@[other],
{
}

/// A job is removed by its id, whosever it is, and no other job goes.
pub proof fn removed_jobs_are_gone(s: &mut Scheduler, id: &str, r: bool, other: Seq<char>)
    requires
        old(s).wf(),
        call_ensures(Scheduler::remove, (s, id), r),
    ensures
        r <==> old(s)@.dom().contains(id@),
        !final(s)@.dom().contains(id@),
        other != id@ ==> final(s)@.dom().contains(other) == old(s)@.dom().contains(other) && final(s)@[other] == old(s)@[other],
{
}

/// A job that is added is stored as it was given, and fires at the first instant after it was
/// added that its expression selects.
pub proof fn additions_store_the_job(
    s: &mut Scheduler,
    job: ScheduledJob,
    now: i64,
    r: Result<String, AddError>,
    other: Seq<char>,
)
    requires
        old(s).wf(),
        call_ensures(Scheduler::add_at, (s, job, now), r),
    ensures
        r is Ok <==> crate::cron::cron_of(job.cron@) is Ok && now <= LATEST,
        r is Err ==> final(s)@ == old(s)@,
        r matches Ok(id) ==> {
            let e = final(s)@[id@];
            &&& final(s)@.dom().contains(id@)
            &&& job.id@.len() > 0 ==> id@ == job.id@
            &&& job.id@.len() == 0 ==> id@.len() == 36 && crate::text::begins(id@, "job-"@)
            &&& e.job.id@ == id@ && e.job.name == job.name && e.job.cron == job.cron && e.job.prompt
                == job.prompt && e.job.session_id == job.session_id && e.job.tenant_id
                == job.tenant_id && e.job.reply_to == job.reply_to
            &&& e.next_fire > now
            &&& forall|t: int| now < t < e.next_fire ==> !#[trigger] crate::cron::fires(e.cron@, t)
            &&& other != id@ ==> final(s)@.dom().contains(other) == old(s)@.dom().contains(other)
                && final(s)@[other] == old(s)@[other]
        },
{
    reveal_strlit("job-");
    added_jobs_are_stored(old(s)@, final(s)@, job, now, r, other);
}

/// What an evaluation hands out: events of stored jobs alone, each due and no later than now; and
/// for a job, every instant since its last that its expression selects, as long as these are fewer
/// than the cap. Afterwards no job is due, and nothing else of the jobs has changed.
pub proof fn evaluations_hand_out_what_is_due(
    s: &mut Scheduler,
    now: i64,
    r: Vec<FiredJob>,
    n: int,
    id: Seq<char>,
    t: int,
)
    requires
        old(s).wf(),
        now <= LATEST,
        call_ensures(Scheduler::evaluate, (s, now), r),
    ensures
        0 <= n < r@.len() ==> exists|k: Seq<char>|
            {
                let e = #[trigger] old(s)@[k];
                let f = r@[n];
                &&& old(s)@.dom().contains(k)
                &&& f.id == e.job.id && f.name == e.job.name && f.prompt == e.job.prompt
                    && f.session_id == e.job.session_id && f.tenant_id == e.job.tenant_id
                    && f.reply_to == e.job.reply_to
                &&& e.next_fire <= f.fired_at <= now
            },
        old(s)@.dom().contains(id) && fires_yearly(old(s)@[id].cron@) && crate::cron::fires(
            old(s)@[id].cron@,
            old(s)@[id].next_fire as int,
        ) && old(s)@[id].next_fire <= t <= now && crate::cron::fires(old(s)@[id].cron@, t)
            && emitted(old(s)@[id], now as int).len() < 60 ==> exists|k: int|
            0 <= k < r@.len() && (#[trigger] r@[k]).fired_at == t && r@[k].id == old(s)@[id].job.id
                && r@[k].prompt == old(s)@[id].job.prompt,
        final(s)@.dom() == old(s)@.dom(),
        old(s)@.dom().contains(id) ==> final(s)@[id].job == old(s)@[id].job && final(s)@[id].cron
            == old(s)@[id].cron,
        old(s)@.dom().contains(id) && emitted(old(s)@[id], now as int).len() < 60 ==> final(s)@[id].next_fire > now,
        old(s)@.dom().contains(id) && old(s)@[id].next_fire > now ==> final(s)@[id].next_fire == old(s)@[id].next_fire,
{
    let jobs = old(s)@;
    let ids = choose|ids: Seq<Seq<char>>| #[trigger]
        enumerates(ids, jobs.dom()) && r@ == emitted_all(jobs, ids, now as int);
    if 0 <= n < r@.len() {
        evaluations_fire_nothing_else(jobs, ids, now as int, n);
    }
    if jobs.dom().contains(id) {
        evaluation_keeps_jobs(jobs, now as int, id);
        if emitted(jobs[id], now as int).len() < 60 {
            evaluations_move_on(jobs[id], now as int);
            if fires_yearly(jobs[id].cron@) && crate::cron::fires(
                jobs[id].cron@,
                jobs[id].next_fire as int,
            ) && jobs[id].next_fire <= t <= now && crate::cron::fires(jobs[id].cron@, t) {
                evaluations_fire_what_is_due(jobs, ids, now as int, id, t);
            }
        }
        if jobs[id].next_fire > now {
            future_jobs_stay(jobs[id], now as int);
        }
    }
    assert(final(s)@.dom() =~= jobs.dom());
}

/// A reading of the clock is its seconds; a clock before the epoch reads nothing and counts as
/// its start.
pub proof fn clocks_read_seconds(clock: Option<u64>, r: i64)
    requires
        call_ensures(secs_of_clock, (clock,), r),
    ensures
        clock matches Some(s) ==> s <= i64::MAX ==> r == s,
        clock is None ==> r == 0,
{
}

} // verus!
