//! The scheduling engine: live timers, consumers of fire events, and what
//! each step of a job's task is to do.
use crate::memory::{CronJob, JobView};
use crate::schedule::{
    check_schedule, delay_of, delay_until, next_fire, next_fire_time, schedule_verdict,
    valid_schedule, verdict_view, ScheduleError,
};
use crate::text::space::words;
use std::collections::HashMap;
use vstd::prelude::*;

verus! {

broadcast use vstd::std_specs::hash::group_hash_axioms;

/// The consumers of fire events, in the order in which they registered. A
/// consumer is known by the number that its owner chose for it.
pub struct CallbackRegistry {
    consumers: Vec<u64>,
}

impl View for CallbackRegistry {
    type V = Seq<u64>;

    closed spec fn view(&self) -> Seq<u64> {
        self.consumers@
    }
}

/// What becomes of a list of consumers when `consumer` registers additively:
/// it goes to the end, unless it is there already.
pub open spec fn with_consumer(consumers: Seq<u64>, consumer: u64) -> Seq<u64> {
    if consumers.contains(consumer) {
        consumers
    } else {
        consumers.push(consumer)
    }
}

impl CallbackRegistry {
    #[verifier::type_invariant]
    spec fn inv(&self) -> bool {
        self.consumers@.no_duplicates()
    }

    /// A registry without consumers.
    pub fn new() -> (r: CallbackRegistry)
        ensures
            r@ == Seq::<u64>::empty(),
    {
        CallbackRegistry { consumers: Vec::new() }
    }

    /// Makes `consumer` the only consumer.
    pub fn set_exclusive(&mut self, consumer: u64)
        ensures
            final(self)@ == seq![consumer],
    {
        let mut only: Vec<u64> = Vec::new();
        only.push(consumer);
        self.consumers = only;
    }

    /// Whether `consumer` is registered.
    pub fn contains(&self, consumer: u64) -> (r: bool)
        ensures
            r == self@.contains(consumer),
    {
        let n = self.consumers.len();
        let mut i: usize = 0;
        while i < n
            invariant
                n == self.consumers.len(),
                i <= n,
                forall|k: int| 0 <= k < i ==> self.consumers@[k] != consumer,
            decreases n - i,
        {
            if self.consumers[i] == consumer {
                return true;
            }
            i += 1;
        }
        false
    }

    /// Registers `consumer` after those that are registered, unless it is
    /// registered already.
    pub fn add(&mut self, consumer: u64)
        ensures
            final(self)@ == with_consumer(old(self)@, consumer),
    {
        proof {
            use_type_invariant(&*self);
        }
        if !self.contains(consumer) {
            let mut grown = self.consumers.clone();
            grown.push(consumer);
            assert(grown@ =~= self.consumers@.push(consumer));
            self.consumers = grown;
        }
    }

    /// The consumers in registration order, none of them twice.
    pub fn consumers(&self) -> (r: Vec<u64>)
        ensures
            r@ == self@,
            r@.no_duplicates(),
    {
        proof {
            use_type_invariant(self);
        }
        self.consumers.clone()
    }
}

/// What a live timer keeps of its job.
pub struct Timer {
    schedule: String,
    message: String,
}

/// What a `Timer` holds.
pub ghost struct TimerView {
    pub schedule: Seq<char>,
    pub message: Seq<char>,
}

impl View for Timer {
    type V = TimerView;

    closed spec fn view(&self) -> TimerView {
        TimerView { schedule: self.schedule@, message: self.message@ }
    }
}

/// What a job's task is to do next.
#[derive(Debug, Clone)]
pub enum Wake {
    /// The job has no live timer: it was cancelled, or never armed.
    Gone,
    /// The schedule has no further fire time; the timer is no more. The
    /// store still lists the job as enabled: whoever runs the engine decides
    /// whether to disable it there.
    Exhausted,
    /// Wait `delay` seconds, which brings the clock to `time`, then fire.
    At { time: i64, delay: u64 },
}

/// What is to be done with a fire event.
#[derive(Debug, Clone)]
pub enum Dispatch {
    /// The job has no live timer: nobody is to be called.
    Gone,
    /// No consumer is registered: the message is dropped, which is to be
    /// logged.
    Dropped { message: String },
    /// Each of `consumers` is to be handed `message` once, in this order.
    Deliver { message: String, consumers: Vec<u64> },
}

/// What a `Dispatch` holds.
pub ghost enum DispatchView {
    Gone,
    Dropped { message: Seq<char> },
    Deliver { message: Seq<char>, consumers: Seq<u64> },
}

impl View for Dispatch {
    type V = DispatchView;

    open spec fn view(&self) -> DispatchView {
        match self {
            Dispatch::Gone => DispatchView::Gone,
            Dispatch::Dropped { message } => DispatchView::Dropped { message: message@ },
            Dispatch::Deliver { message, consumers } => DispatchView::Deliver {
                message: message@,
                consumers: consumers@,
            },
        }
    }
}

impl DispatchView {
    /// The consumers that are called, in order.
    pub open spec fn calls(self) -> Seq<u64> {
        match self {
            DispatchView::Deliver { message, consumers } => consumers,
            _ => Seq::empty(),
        }
    }
}

/// The state of the scheduling engine: the live timers by job id, and the
/// consumers.
pub ghost struct SchedulerState {
    pub timers: Map<i64, TimerView>,
    pub consumers: Seq<u64>,
}

impl SchedulerState {
    /// Every live timer has a valid schedule, and no consumer is registered
    /// twice.
    pub open spec fn wf(self) -> bool {
        &&& forall|id: i64| #[trigger]
            self.timers.contains_key(id) ==> valid_schedule(self.timers[id].schedule)
        &&& self.consumers.no_duplicates()
    }

    /// The state after arming a timer for a job: a job with a valid schedule
    /// gets a live timer, which takes the place of an earlier one for the
    /// same id; any other job changes nothing.
    pub open spec fn armed(self, job: JobView) -> SchedulerState {
        if valid_schedule(job.schedule) {
            SchedulerState {
                timers: self.timers.insert(
                    job.id,
                    TimerView { schedule: job.schedule, message: job.message },
                ),
                consumers: self.consumers,
            }
        } else {
            self
        }
    }

    /// The state after arming the enabled ones among `jobs`, in order.
    pub open spec fn loaded(self, jobs: Seq<JobView>) -> SchedulerState
        decreases jobs.len(),
    {
        if jobs.len() == 0 {
            self
        } else if jobs.last().enabled {
            self.loaded(jobs.drop_last()).armed(jobs.last())
        } else {
            self.loaded(jobs.drop_last())
        }
    }

    /// The state after cancelling job `id`: the job has no timer any more,
    /// whatever the store said of it, and every other timer is as it was.
    pub open spec fn cancelled(self, id: i64) -> SchedulerState {
        SchedulerState { timers: self.timers.remove(id), consumers: self.consumers }
    }

    /// What the task of job `id` is to do at `now`.
    pub open spec fn wake(self, id: i64, now: i64) -> Wake {
        if !self.timers.contains_key(id) {
            Wake::Gone
        } else {
            match next_fire_time(self.timers[id].schedule, now) {
                None => Wake::Exhausted,
                Some(time) => Wake::At { time, delay: delay_of(time, now) },
            }
        }
    }

    /// The state after the task of job `id` asked what to do at `now`: an
    /// exhausted timer is dropped.
    pub open spec fn woken(self, id: i64, now: i64) -> SchedulerState {
        if self.wake(id, now) is Exhausted {
            SchedulerState { timers: self.timers.remove(id), consumers: self.consumers }
        } else {
            self
        }
    }

    /// What is to be done when job `id` fires.
    pub open spec fn dispatch(self, id: i64) -> DispatchView {
        if !self.timers.contains_key(id) {
            DispatchView::Gone
        } else if self.consumers.len() == 0 {
            DispatchView::Dropped { message: self.timers[id].message }
        } else {
            DispatchView::Deliver { message: self.timers[id].message, consumers: self.consumers }
        }
    }
}

/// The ids of the enabled jobs among `jobs` whose schedule is not valid, in
/// order.
pub open spec fn refused(jobs: Seq<JobView>) -> Seq<i64>
    decreases jobs.len(),
{
    if jobs.len() == 0 {
        Seq::empty()
    } else if jobs.last().enabled && !valid_schedule(jobs.last().schedule) {
        refused(jobs.drop_last()).push(jobs.last().id)
    } else {
        refused(jobs.drop_last())
    }
}

/// The scheduling engine: one live timer for each armed job, and the
/// consumers that every fire event goes to.
pub struct Scheduler {
    jobs: HashMap<i64, Timer>,
    callbacks: CallbackRegistry,
}

impl View for Scheduler {
    type V = SchedulerState;

    closed spec fn view(&self) -> SchedulerState {
        SchedulerState {
            timers: Map::new(|id: i64| self.jobs@.contains_key(id), |id: i64| self.jobs@[id]@),
            consumers: self.callbacks@,
        }
    }
}

impl Scheduler {
    /// An engine without timers and without consumers.
    pub fn new() -> (r: Scheduler)
        ensures
            r@.timers == Map::<i64, TimerView>::empty(),
            r@.consumers == Seq::<u64>::empty(),
            r@.wf(),
    {
        let r = Scheduler { jobs: HashMap::new(), callbacks: CallbackRegistry::new() };
        assert(r@.timers =~= Map::<i64, TimerView>::empty());
        r
    }

    /// Makes `consumer` the only consumer of fire events.
    pub fn set_send_callback(&mut self, consumer: u64)
        ensures
            final(self)@.consumers == seq![consumer],
            final(self)@.timers == old(self)@.timers,
            old(self)@.wf() ==> final(self)@.wf(),
    {
        self.callbacks.set_exclusive(consumer);
    }

    /// Adds `consumer` to the consumers of fire events, unless it is one.
    pub fn add_send_callback(&mut self, consumer: u64)
        ensures
            final(self)@.consumers == with_consumer(old(self)@.consumers, consumer),
            final(self)@.timers == old(self)@.timers,
            old(self)@.wf() ==> final(self)@.wf(),
    {
        proof {
            use_type_invariant(&self.callbacks);
            lemma_with_consumer(self@.consumers, consumer);
        }
        self.callbacks.add(consumer);
        assert(self@.timers == old(self)@.timers);
        assert(self@.consumers.no_duplicates());
    }

    /// Whether `schedule` has five fields that the evaluator accepts.
    pub fn validate_cron(schedule: &str) -> (r: Result<(), ScheduleError>)
        ensures
            verdict_view(r) == schedule_verdict(schedule@),
            r is Ok <==> valid_schedule(schedule@),
            r matches Err(ScheduleError::FieldCount) <==> words(schedule@).len() != 5,
    {
        check_schedule(schedule)
    }

    /// Arms a timer for `job`. A job whose schedule is not valid is refused
    /// and changes nothing.
    pub fn schedule_job(&mut self, job: CronJob) -> (r: Result<(), ScheduleError>)
        ensures
            final(self)@ == old(self)@.armed(job@),
            old(self)@.wf() ==> final(self)@.wf(),
            verdict_view(r) == schedule_verdict(job.schedule@),
            r is Ok <==> valid_schedule(job.schedule@),
            r matches Err(ScheduleError::FieldCount) <==> words(job.schedule@).len() != 5,
    {
        proof {
            use_type_invariant(&self.callbacks);
        }
        match check_schedule(job.schedule.as_str()) {
            Err(e) => Err(e),
            Ok(_) => {
                let timer = Timer { schedule: job.schedule, message: job.message };
                self.jobs.insert(job.id, timer);
                assert(self@.timers =~= old(self)@.armed(job@).timers);
                Ok(())
            },
        }
    }

    /// Arms a timer for the job that the store has filed under `job_id`.
    /// A schedule that is not valid is refused and changes nothing.
    pub fn add_job(&mut self, job_id: i64, schedule: &str, task: &str, message: &str) -> (r: Result<
        i64,
        ScheduleError,
    >)
        ensures
            final(self)@ == old(self)@.armed(
                JobView {
                    id: job_id,
                    schedule: schedule@,
                    task: task@,
                    message: message@,
                    enabled: true,
                },
            ),
            old(self)@.wf() ==> final(self)@.wf(),
            r is Ok <==> valid_schedule(schedule@),
            r matches Ok(id) ==> id == job_id,
            r matches Err(e) ==> schedule_verdict(schedule@) == Err::<(), _>(e@),
            r matches Err(ScheduleError::FieldCount) <==> words(schedule@).len() != 5,
    {
        let job = CronJob {
            id: job_id,
            schedule: schedule.to_owned(),
            task: task.to_owned(),
            message: message.to_owned(),
            enabled: true,
        };
        match self.schedule_job(job) {
            Ok(_) => Ok(job_id),
            Err(e) => Err(e),
        }
    }

    /// Arms a timer for each enabled job of `jobs`, in order. A job whose
    /// schedule is not valid is passed over; the ids of those come back.
    pub fn load_jobs(&mut self, jobs: Vec<CronJob>) -> (r: Vec<i64>)
        ensures
            final(self)@ == old(self)@.loaded(jobs.deep_view()),
            old(self)@.wf() ==> final(self)@.wf(),
            r@ == refused(jobs.deep_view()),
    {
        let ghost all = jobs.deep_view();
        let mut skipped: Vec<i64> = Vec::new();
        let n = jobs.len();
        let mut i: usize = 0;
        proof {
            use_type_invariant(&self.callbacks);
            assert(all.take(0) =~= Seq::<JobView>::empty());
        }
        while i < n
            invariant
                n == jobs.len(),
                i <= n,
                all == jobs.deep_view(),
                self@ == old(self)@.loaded(all.take(i as int)),
                old(self)@.wf() ==> self@.wf(),
                skipped@ == refused(all.take(i as int)),
            decreases n - i,
        {
            proof {
                assert(all.take(i + 1).drop_last() =~= all.take(i as int));
                assert(all.take(i + 1).last() == jobs@[i as int]@);
            }
            if jobs[i].enabled {
                let job = CronJob {
                    id: jobs[i].id,
                    schedule: jobs[i].schedule.clone(),
                    task: jobs[i].task.clone(),
                    message: jobs[i].message.clone(),
                    enabled: true,
                };
                match self.schedule_job(job) {
                    Ok(_) => {},
                    Err(_) => {
                        skipped.push(jobs[i].id);
                    },
                }
            }
            i += 1;
        }
        assert(all.take(n as int) =~= all);
        skipped
    }

    /// Cancels job `job_id`: its timer is dropped, whether or not the store
    /// had the job to disable. The result says whether there was a live
    /// timer, whose task is to be aborted.
    pub fn cancel_job(&mut self, job_id: i64) -> (r: bool)
        ensures
            final(self)@ == old(self)@.cancelled(job_id),
            !final(self)@.timers.contains_key(job_id),
            forall|id: i64|
                id != job_id ==> (#[trigger] final(self)@.timers.contains_key(id)
                    == old(self)@.timers.contains_key(id)) && (old(self)@.timers.contains_key(id)
                    ==> final(self)@.timers[id] == old(self)@.timers[id]),
            final(self)@.consumers == old(self)@.consumers,
            old(self)@.wf() ==> final(self)@.wf(),
            r == old(self)@.timers.contains_key(job_id),
    {
        proof {
            use_type_invariant(&self.callbacks);
        }
        let gone = self.jobs.remove(&job_id);
        assert(self@.timers =~= old(self)@.timers.remove(job_id));
        gone.is_some()
    }

    /// Whether job `job_id` has a live timer.
    pub fn is_running(&self, job_id: i64) -> (r: bool)
        ensures
            r == self@.timers.contains_key(job_id),
    {
        self.jobs.contains_key(&job_id)
    }

    /// How many timers are live.
    pub fn running(&self) -> (r: usize)
        ensures
            r == self@.timers.dom().len(),
            self@.timers.dom().finite(),
    {
        assert(self@.timers.dom() =~= self.jobs@.dom());
        self.jobs.len()
    }

    /// The consumers of fire events, in registration order.
    pub fn consumers(&self) -> (r: Vec<u64>)
        ensures
            r@ == self@.consumers,
            r@.no_duplicates(),
    {
        self.callbacks.consumers()
    }

    /// What the task of job `job_id` is to do at `now`, in seconds since the
    /// Unix epoch: end, because the job has no timer or because its schedule
    /// has no further fire time, or wait for the next one, which is later
    /// than `now`: asked again at the instant of one fire time, the task is
    /// sent on to the next. A timer whose schedule is exhausted is dropped.
    pub fn next_wake(&mut self, job_id: i64, now: i64) -> (r: Wake)
        ensures
            r == old(self)@.wake(job_id, now),
            final(self)@ == old(self)@.woken(job_id, now),
            old(self)@.wf() ==> final(self)@.wf(),
            r matches Wake::At { time, delay } ==> time > now && delay == time - now,
    {
        proof {
            use_type_invariant(&self.callbacks);
        }
        let next = match self.jobs.get(&job_id) {
            None => {
                return Wake::Gone;
            },
            Some(timer) => next_fire(timer.schedule.as_str(), now),
        };
        match next {
            None => {
                self.jobs.remove(&job_id);
                assert(self@.timers =~= old(self)@.timers.remove(job_id));
                Wake::Exhausted
            },
            Some(time) => Wake::At { time, delay: delay_until(time, now) },
        }
    }

    /// What is to be done now that job `job_id` fires: nothing where it has
    /// no live timer, else its message goes to every consumer, in
    /// registration order, or is dropped where there is none.
    pub fn fire(&self, job_id: i64) -> (r: Dispatch)
        ensures
            r@ == self@.dispatch(job_id),
    {
        match self.jobs.get(&job_id) {
            None => Dispatch::Gone,
            Some(timer) => {
                let consumers = self.callbacks.consumers();
                if consumers.len() == 0 {
                    Dispatch::Dropped { message: timer.message.clone() }
                } else {
                    Dispatch::Deliver { message: timer.message.clone(), consumers }
                }
            },
        }
    }

    /// Drops every timer. The consumers stay.
    pub fn stop(&mut self)
        ensures
            final(self)@.timers == Map::<i64, TimerView>::empty(),
            final(self)@.consumers == old(self)@.consumers,
            old(self)@.wf() ==> final(self)@.wf(),
    {
        proof {
            use_type_invariant(&self.callbacks);
        }
        self.jobs.clear();
        assert(self@.timers =~= Map::<i64, TimerView>::empty());
    }
}

/// Registering additively keeps a list of consumers free of duplicates,
/// keeps those that were registered where they were, and leaves the new
/// consumer registered.
pub proof fn lemma_with_consumer(consumers: Seq<u64>, consumer: u64)
    requires
        consumers.no_duplicates(),
    ensures
        with_consumer(consumers, consumer).no_duplicates(),
        with_consumer(consumers, consumer).contains(consumer),
        consumers.len() <= with_consumer(consumers, consumer).len(),
        forall|i: int|
            0 <= i < consumers.len() ==> with_consumer(consumers, consumer)[i] == consumers[i],
{
    let grown = with_consumer(consumers, consumer);
    if !consumers.contains(consumer) {
        assert(grown[consumers.len() as int] == consumer);
        assert forall|i: int, j: int|
            0 <= i < grown.len() && 0 <= j < grown.len() && i != j implies grown[i] != grown[j] by {
            if i < consumers.len() {
                assert(consumers.contains(grown[i]));
            }
            if j < consumers.len() {
                assert(consumers.contains(grown[j]));
            }
        }
    }
}

/// A job that is cancelled before its first fire time calls no consumer:
/// its task is told to end, and a fire event for it would call nobody.
pub proof fn law_cancelled_job_calls_nobody(s: SchedulerState, job: JobView, now: i64)
    ensures
        !s.armed(job).cancelled(job.id).timers.contains_key(job.id),
        s.armed(job).cancelled(job.id).wake(job.id, now) == Wake::Gone,
        s.armed(job).cancelled(job.id).dispatch(job.id) == DispatchView::Gone,
        s.armed(job).cancelled(job.id).dispatch(job.id).calls().len() == 0,
{
}

/// Cancelling leaves the job without a timer and every other job as it was,
/// and cancelling a second time changes nothing.
pub proof fn law_cancel_is_idempotent(s: SchedulerState, id: i64)
    ensures
        !s.cancelled(id).timers.contains_key(id),
        s.cancelled(id).cancelled(id) == s.cancelled(id),
        s.cancelled(id).consumers == s.consumers,
        forall|other: i64|
            other != id && #[trigger] s.timers.contains_key(other) ==> s.cancelled(
                id,
            ).timers.contains_key(other) && s.cancelled(id).timers[other] == s.timers[other],
        s.wf() ==> s.cancelled(id).wf(),
{
    assert(s.timers.remove(id).remove(id) =~= s.timers.remove(id));
}

/// A fire event of a live job with no consumer registered drops the job's
/// message and calls nobody.
pub proof fn law_empty_registry_drops_the_message(s: SchedulerState, id: i64)
    requires
        s.timers.contains_key(id),
        s.consumers.len() == 0,
    ensures
        s.dispatch(id) == (DispatchView::Dropped { message: s.timers[id].message }),
        s.dispatch(id).calls().len() == 0,
{
}

/// Two consumers that register additively, `a` before `b`, are both called
/// when a live job fires: each once, `a` before `b`, with the job's message,
/// and after the consumers that were registered before them.
pub proof fn law_additive_consumers_called_in_order(s: SchedulerState, a: u64, b: u64, id: i64)
    requires
        s.wf(),
        a != b,
        !s.consumers.contains(b),
        s.timers.contains_key(id),
    ensures
        ({
            let consumers = with_consumer(with_consumer(s.consumers, a), b);
            let after = SchedulerState { timers: s.timers, consumers };
            &&& after.dispatch(id) == DispatchView::Deliver {
                message: s.timers[id].message,
                consumers,
            }
            &&& consumers.no_duplicates()
            &&& exists|i: int, j: int|
                0 <= i < j < consumers.len() && consumers[i] == a && consumers[j] == b
            &&& forall|k: int| 0 <= k < s.consumers.len() ==> consumers[k] == s.consumers[k]
        }),
{
    let first = with_consumer(s.consumers, a);
    let consumers = with_consumer(first, b);
    lemma_with_consumer(s.consumers, a);
    lemma_with_consumer(first, b);
    assert(!first.contains(b)) by {
        if first.contains(b) {
            let k = choose|k: int| 0 <= k < first.len() && first[k] == b;
            if k < s.consumers.len() {
                assert(s.consumers.contains(b));
            }
        }
    }
    let i = choose|i: int| 0 <= i < first.len() && first[i] == a;
    assert(consumers[i] == a);
    assert(consumers[first.len() as int] == b);
}

/// Loading a list of jobs arms every enabled job of the list that has a valid
/// schedule, whatever else the list holds, and arms nothing else: an id has
/// a timer afterwards only if it had one before or such a job has it.
pub proof fn law_load_arms_the_valid_jobs(s: SchedulerState, jobs: Seq<JobView>)
    ensures
        s.loaded(jobs).consumers == s.consumers,
        s.wf() ==> s.loaded(jobs).wf(),
        forall|i: int|
            0 <= i < jobs.len() && jobs[i].enabled && valid_schedule(#[trigger] jobs[i].schedule)
                ==> s.loaded(jobs).timers.contains_key(jobs[i].id),
        forall|id: i64| #[trigger]
            s.loaded(jobs).timers.contains_key(id) ==> s.timers.contains_key(id) || exists|i: int|
                0 <= i < jobs.len() && jobs[i].id == id && jobs[i].enabled && valid_schedule(
                    #[trigger] jobs[i].schedule,
                ),
    decreases jobs.len(),
{
    if jobs.len() > 0 {
        let front = jobs.drop_last();
        law_load_arms_the_valid_jobs(s, front);
        let mid = s.loaded(front);
        let end = s.loaded(jobs);
        let n = jobs.len() - 1;
        assert forall|i: int|
            0 <= i < jobs.len() && jobs[i].enabled && valid_schedule(
                #[trigger] jobs[i].schedule,
            ) implies end.timers.contains_key(jobs[i].id) by {
            if i < n {
                assert(front[i] == jobs[i]);
                assert(valid_schedule(front[i].schedule));
            }
        }
        assert forall|id: i64| #[trigger] end.timers.contains_key(id) implies s.timers.contains_key(
            id,
        ) || exists|i: int|
            0 <= i < jobs.len() && jobs[i].id == id && jobs[i].enabled && valid_schedule(
                #[trigger] jobs[i].schedule,
            ) by {
            if mid.timers.contains_key(id) {
                if !s.timers.contains_key(id) {
                    let i = choose|i: int|
                        0 <= i < front.len() && front[i].id == id && front[i].enabled
                            && valid_schedule(#[trigger] front[i].schedule);
                    assert(jobs[i] == front[i]);
                    assert(valid_schedule(jobs[i].schedule));
                }
            } else {
                assert(jobs[n].id == id);
                assert(valid_schedule(jobs[n].schedule));
            }
        }
    }
}

/// Of one job with a valid schedule and one without, in either order,
/// loading arms the first and passes over the second.
pub proof fn law_load_passes_over_the_invalid_job(s: SchedulerState, good: JobView, bad: JobView)
    requires
        good.enabled,
        bad.enabled,
        valid_schedule(good.schedule),
        !valid_schedule(bad.schedule),
    ensures
        s.loaded(seq![good, bad]) == s.armed(good),
        s.loaded(seq![bad, good]) == s.armed(good),
        refused(seq![good, bad]) == seq![bad.id],
        refused(seq![bad, good]) == seq![bad.id],
{
    let gb = seq![good, bad];
    let bg = seq![bad, good];
    assert(gb.drop_last() =~= seq![good]);
    assert(bg.drop_last() =~= seq![bad]);
    assert(seq![good].drop_last() =~= Seq::<JobView>::empty());
    assert(seq![bad].drop_last() =~= Seq::<JobView>::empty());
    let none = Seq::<JobView>::empty();
    assert(s.loaded(none) == s);
    assert(refused(none) =~= Seq::<i64>::empty());
    assert(s.loaded(seq![good]) == s.armed(good));
    assert(s.loaded(seq![bad]) == s);
    assert(refused(seq![good]) =~= Seq::<i64>::empty());
    assert(refused(seq![bad]) =~= seq![bad.id]);
    assert(refused(gb) =~= seq![bad.id]);
    assert(refused(bg) =~= seq![bad.id]);
}

} // verus!
