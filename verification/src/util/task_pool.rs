//! Which thread of a pool does which task, and how many threads there are.
use std::collections::VecDeque;
use vstd::prelude::*;

verus! {

/// How long an idle thread above the minimum waits for a task, in milliseconds.
pub const IDLE_TIMEOUT_MS: u64 = 5000;

/// Manages a collection of threads.
///
/// A new thread is created every time all the existing threads are full,
/// up to `max_threads`; beyond that, tasks are queued until a thread frees up.
/// Any idle thread above `min_threads` will automatically die after a few seconds.
///
/// The pool only decides. Whoever owns it keeps it behind a lock, starts the
/// threads, lets them run tasks and wait, and tells the pool what happened.
#[derive(Debug)]
pub struct TaskPool<T> {
    // list of the tasks to be done by worker threads
    todo: VecDeque<T>,
    // number of total worker threads, from the decision to start one until its end
    active_tasks: usize,
    // number of idle worker threads
    waiting_tasks: usize,
    // set to make idle threads exit promptly instead of waiting out their timeout
    shutdown: bool,
    // minimum number of active threads kept alive even when idle
    min_threads: usize,
    // maximum number of active threads
    max_threads: usize,
    // maximum number of tasks waiting in the queue for a thread to become free
    max_queue: usize,
}

/// What becomes of a task that was handed to the pool.
#[derive(Debug)]
pub enum SpawnAction<T> {
    /// A new thread is to be started, with the task as its first.
    StartThread(T),
    /// The task was queued; one waiting thread is to be woken.
    Queued,
    /// No thread is free to come and the queue is full: the task comes back.
    Rejected(T),
}

/// What a worker thread has to do.
#[derive(Debug)]
pub enum WorkerAction<T> {
    /// Run the task, then ask again.
    Run(T),
    /// Wait until woken.
    Wait,
    /// Wait until woken, but no longer than so many milliseconds.
    WaitTimeout(u64),
    /// Come to an end.
    Exit,
}

/// The state of a pool.
pub ghost struct PoolState<T> {
    /// the tasks in the queue, the oldest first
    pub todo: Seq<T>,
    /// the threads of the pool
    pub active: nat,
    /// those of them that wait for a task
    pub waiting: nat,
    pub shutdown: bool,
    pub min_threads: nat,
    pub max_threads: nat,
    pub max_queue: nat,
}

/// `n`, moved into the range from `low` to `high`.
pub open spec fn clamp(n: nat, low: nat, high: nat) -> nat {
    if n > high {
        high
    } else if n < low {
        low
    } else {
        n
    }
}

/// A pool as it starts: both limits on its threads are at least 1, and the
/// minimum number of threads is there.
pub open spec fn opened<T>(min_threads: nat, max_threads: nat, max_queue: nat) -> PoolState<T> {
    let most = if max_threads < 1 {
        1
    } else {
        max_threads
    };
    let least = clamp(min_threads, 1, most);
    PoolState {
        todo: Seq::empty(),
        active: least,
        waiting: 0,
        shutdown: false,
        min_threads: least,
        max_threads: most,
        max_queue,
    }
}

impl<T> PoolState<T> {
    /// What holds of every pool.
    pub open spec fn wf(self) -> bool {
        &&& 1 <= self.min_threads <= self.max_threads
        &&& self.waiting <= self.active <= self.max_threads
        &&& self.todo.len() <= self.max_queue
    }

    /// No thread is idle, and there may be one more.
    pub open spec fn wants_thread(self) -> bool {
        self.waiting == 0 && self.active < self.max_threads
    }

    /// What becomes of a task handed to the pool.
    pub open spec fn spawn_action(self, code: T) -> SpawnAction<T> {
        if self.wants_thread() {
            SpawnAction::StartThread(code)
        } else if self.todo.len() < self.max_queue {
            SpawnAction::Queued
        } else {
            SpawnAction::Rejected(code)
        }
    }

    /// The pool after a task was handed to it.
    pub open spec fn after_spawn(self, code: T) -> PoolState<T> {
        match self.spawn_action(code) {
            SpawnAction::StartThread(_) => PoolState { active: self.active + 1, ..self },
            SpawnAction::Queued => PoolState { todo: self.todo.push(code), ..self },
            SpawnAction::Rejected(_) => self,
        }
    }

    /// What a thread that has nothing to do does next: it takes the oldest task
    /// of the queue; with none there, it ends if the pool is shut down, and
    /// waits otherwise, for ever only where no thread can be spared.
    pub open spec fn next_action(self) -> WorkerAction<T> {
        if self.todo.len() > 0 {
            WorkerAction::Run(self.todo.first())
        } else if self.shutdown {
            WorkerAction::Exit
        } else if self.active <= self.min_threads {
            WorkerAction::Wait
        } else {
            WorkerAction::WaitTimeout(IDLE_TIMEOUT_MS)
        }
    }

    /// The pool after a thread that had nothing to do was told what to do.
    pub open spec fn after_next(self) -> PoolState<T> {
        match self.next_action() {
            WorkerAction::Run(_) => PoolState { todo: self.todo.drop_first(), ..self },
            WorkerAction::Exit => PoolState { active: (self.active - 1) as nat, ..self },
            _ => PoolState { waiting: self.waiting + 1, ..self },
        }
    }

    /// What a thread that was just started does first.
    pub open spec fn started_action(self, initial_fn: Option<T>) -> WorkerAction<T> {
        match initial_fn {
            Some(f) => WorkerAction::Run(f),
            None => self.next_action(),
        }
    }

    /// The pool after a thread that was just started was told what to do.
    pub open spec fn after_started(self, initial_fn: Option<T>) -> PoolState<T> {
        match initial_fn {
            Some(_) => self,
            None => self.after_next(),
        }
    }

    /// The pool with one thread less that waits.
    pub open spec fn roused(self) -> PoolState<T> {
        PoolState { waiting: (self.waiting - 1) as nat, ..self }
    }

    /// A thread whose wait ended in a timeout is one too many.
    pub open spec fn can_spare(self, timed_out: bool) -> bool {
        timed_out && self.todo.len() == 0 && self.active > self.min_threads
    }

    /// What a thread does whose wait is over: it ends where it waited in vain
    /// and can be spared, and otherwise looks for a task.
    pub open spec fn woken_action(self, timed_out: bool) -> WorkerAction<T> {
        if self.can_spare(timed_out) {
            WorkerAction::Exit
        } else {
            self.roused().next_action()
        }
    }

    /// The pool after a thread whose wait was over was told what to do.
    pub open spec fn after_woken(self, timed_out: bool) -> PoolState<T> {
        if self.can_spare(timed_out) {
            PoolState { active: (self.active - 1) as nat, ..self.roused() }
        } else {
            self.roused().after_next()
        }
    }

    /// The pool after a thread was lost to a task that panicked.
    pub open spec fn after_panic(self) -> PoolState<T> {
        PoolState { active: (self.active - 1) as nat, ..self }
    }

    /// The pool after it was shut down.
    pub open spec fn after_shutdown(self) -> PoolState<T> {
        PoolState { shutdown: true, ..self }
    }
}

impl<T> View for TaskPool<T> {
    type V = PoolState<T>;

    closed spec fn view(&self) -> PoolState<T> {
        PoolState {
            todo: self.todo@,
            active: self.active_tasks as nat,
            waiting: self.waiting_tasks as nat,
            shutdown: self.shutdown,
            min_threads: self.min_threads as nat,
            max_threads: self.max_threads as nat,
            max_queue: self.max_queue as nat,
        }
    }
}

impl<T> TaskPool<T> {
    /// Creates a new pool. `max_threads` and `min_threads` are clamped to at least 1 to
    /// avoid a misconfigured pool that can never spawn a thread to drain its queue.
    ///
    /// As many threads as the pool has from the start, see
    /// [`TaskPool::active_threads`], are then to be started without a task.
    pub fn new(min_threads: usize, max_threads: usize, max_queue: usize) -> (pool: TaskPool<T>)
        ensures
            pool@ == opened::<T>(min_threads as nat, max_threads as nat, max_queue as nat),
            pool@.wf(),
    {
        let most: usize = if max_threads < 1 {
            1
        } else {
            max_threads
        };
        let least: usize = if min_threads > most {
            most
        } else if min_threads < 1 {
            1
        } else {
            min_threads
        };
        TaskPool {
            todo: VecDeque::new(),
            active_tasks: least,
            waiting_tasks: 0,
            shutdown: false,
            min_threads: least,
            max_threads: most,
            max_queue,
        }
    }

    /// How many threads the pool has.
    pub fn active_threads(&self) -> (r: usize)
        ensures
            r == self@.active,
    {
        self.active_tasks
    }

    /// Hands a task to the pool.
    ///
    /// If no thread is idle and the pool hasn't reached `max_threads`, a new one is to be
    /// started. Otherwise the task is queued and picked up by the next thread that frees up,
    /// unless the queue is already at `max_queue`, in which case the task comes back so the
    /// caller can react (e.g. by closing the connection it came from).
    pub fn spawn(&mut self, code: T) -> (action: SpawnAction<T>)
        requires
            old(self)@.wf(),
        ensures
            action == old(self)@.spawn_action(code),
            final(self)@ == old(self)@.after_spawn(code),
            final(self)@.wf(),
    {
        let no_thread_idle = self.waiting_tasks == 0;
        let below_max = self.active_tasks < self.max_threads;
        if no_thread_idle && below_max {
            self.active_tasks = self.active_tasks + 1;
            return SpawnAction::StartThread(code);
        }
        if self.todo.len() >= self.max_queue {
            return SpawnAction::Rejected(code);
        }
        self.todo.push_back(code);
        SpawnAction::Queued
    }

    /// What a thread of the pool that has just been started does first: the
    /// task it was started with, if there is one.
    pub fn started(&mut self, initial_fn: Option<T>) -> (action: WorkerAction<T>)
        requires
            old(self)@.wf(),
            old(self)@.waiting < old(self)@.active,
        ensures
            action == old(self)@.started_action(initial_fn),
            final(self)@ == old(self)@.after_started(initial_fn),
            match initial_fn {
                Some(f) => action == WorkerAction::Run(f) && final(self)@ == old(self)@,
                None => action == old(self)@.next_action() && final(self)@
                    == old(self)@.after_next(),
            },
            final(self)@.wf(),
    {
        match initial_fn {
            Some(f) => WorkerAction::Run(f),
            None => self.next_task(),
        }
    }

    /// What a thread of the pool that has nothing to do does next.
    pub fn next_task(&mut self) -> (action: WorkerAction<T>)
        requires
            old(self)@.wf(),
            old(self)@.waiting < old(self)@.active,
        ensures
            action == old(self)@.next_action(),
            final(self)@ == old(self)@.after_next(),
            final(self)@.wf(),
    {
        if let Some(task) = self.todo.pop_front() {
            assert(self.todo@ =~= old(self).todo@.drop_first());
            return WorkerAction::Run(task);
        }
        if self.shutdown {
            self.active_tasks = self.active_tasks - 1;
            return WorkerAction::Exit;
        }
        self.waiting_tasks = self.waiting_tasks + 1;
        if self.active_tasks <= self.min_threads {
            WorkerAction::Wait
        } else {
            WorkerAction::WaitTimeout(IDLE_TIMEOUT_MS)
        }
    }

    /// What a thread of the pool does whose wait is over. `timed_out` tells
    /// that nothing woke it before its time was up.
    pub fn woken(&mut self, timed_out: bool) -> (action: WorkerAction<T>)
        requires
            old(self)@.wf(),
            old(self)@.waiting > 0,
        ensures
            action == old(self)@.woken_action(timed_out),
            final(self)@ == old(self)@.after_woken(timed_out),
            final(self)@.wf(),
    {
        self.waiting_tasks = self.waiting_tasks - 1;
        if timed_out && self.todo.len() == 0 && self.active_tasks > self.min_threads {
            self.active_tasks = self.active_tasks - 1;
            return WorkerAction::Exit;
        }
        self.next_task()
    }

    /// Takes note that a thread ended because its task panicked.
    pub fn panicked(&mut self)
        requires
            old(self)@.wf(),
            old(self)@.waiting < old(self)@.active,
        ensures
            final(self)@ == old(self)@.after_panic(),
            final(self)@.wf(),
    {
        self.active_tasks = self.active_tasks - 1;
    }

    /// Shuts the pool down: every thread ends as soon as the queue is empty.
    /// All waiting threads are to be woken.
    pub fn shut_down(&mut self)
        requires
            old(self)@.wf(),
        ensures
            final(self)@ == old(self)@.after_shutdown(),
            final(self)@.wf(),
    {
        self.shutdown = true;
    }
}

/// Something that happens to a pool.
pub ghost enum PoolEvent<T> {
    /// A task is handed in.
    Spawn(T),
    /// A thread that has nothing to do asks for a task.
    Next,
    /// The wait of a thread is over, by a timeout or not.
    Woken(bool),
    /// The task of a thread panics.
    Panic,
    /// The pool is shut down.
    Shutdown,
}

impl<T> PoolState<T> {
    /// The event can happen: there is a thread that it can happen to.
    pub open spec fn admits(self, event: PoolEvent<T>) -> bool {
        match event {
            PoolEvent::Spawn(_) => true,
            PoolEvent::Next => self.waiting < self.active,
            PoolEvent::Woken(_) => self.waiting > 0,
            PoolEvent::Panic => self.waiting < self.active,
            PoolEvent::Shutdown => true,
        }
    }

    /// The pool after the event.
    pub open spec fn after(self, event: PoolEvent<T>) -> PoolState<T> {
        match event {
            PoolEvent::Spawn(code) => self.after_spawn(code),
            PoolEvent::Next => self.after_next(),
            PoolEvent::Woken(timed_out) => self.after_woken(timed_out),
            PoolEvent::Panic => self.after_panic(),
            PoolEvent::Shutdown => self.after_shutdown(),
        }
    }

    /// The pool after a run of events.
    pub open spec fn after_all(self, events: Seq<PoolEvent<T>>) -> PoolState<T>
        decreases events.len(),
    {
        if events.len() == 0 {
            self
        } else {
            self.after_all(events.drop_last()).after(events.last())
        }
    }

    /// The events can happen one after the other.
    pub open spec fn admits_all(self, events: Seq<PoolEvent<T>>) -> bool
        decreases events.len(),
    {
        events.len() == 0 || {
            &&& self.admits_all(events.drop_last())
            &&& self.after_all(events.drop_last()).admits(events.last())
        }
    }

    /// The tasks that a run of events puts into the queue, in this order.
    pub open spec fn queued(self, events: Seq<PoolEvent<T>>) -> Seq<T>
        decreases events.len(),
    {
        if events.len() == 0 {
            Seq::empty()
        } else {
            let before = self.queued(events.drop_last());
            match events.last() {
                PoolEvent::Spawn(code) => match self.after_all(events.drop_last()).spawn_action(
                    code,
                ) {
                    SpawnAction::Queued => before.push(code),
                    _ => before,
                },
                _ => before,
            }
        }
    }

    /// The tasks that a run of events gives to threads out of the queue, in
    /// this order.
    pub open spec fn taken(self, events: Seq<PoolEvent<T>>) -> Seq<T>
        decreases events.len(),
    {
        if events.len() == 0 {
            Seq::empty()
        } else {
            let before = self.taken(events.drop_last());
            let pool = self.after_all(events.drop_last());
            let action = match events.last() {
                PoolEvent::Next => pool.next_action(),
                PoolEvent::Woken(timed_out) => pool.woken_action(timed_out),
                _ => WorkerAction::Wait,
            };
            match action {
                WorkerAction::Run(code) => before.push(code),
                _ => before,
            }
        }
    }
}

/// There is no panic among the events.
pub open spec fn no_panic<T>(events: Seq<PoolEvent<T>>) -> bool {
    forall|i: int| 0 <= i < events.len() ==> !(#[trigger] events[i] is Panic)
}

/// There is no shutdown among the events.
pub open spec fn no_shutdown<T>(events: Seq<PoolEvent<T>>) -> bool {
    forall|i: int| 0 <= i < events.len() ==> !(#[trigger] events[i] is Shutdown)
}

/// Whatever happens to a pool, it has never more threads than its maximum, nor
/// more waiting threads than threads, nor more queued tasks than its queue may
/// hold; and its limits stay as they were set.
pub proof fn law_limits_are_kept<T>(
    min_threads: nat,
    max_threads: nat,
    max_queue: nat,
    events: Seq<PoolEvent<T>>,
)
    requires
        opened::<T>(min_threads, max_threads, max_queue).admits_all(events),
    ensures
        ({
            let start = opened::<T>(min_threads, max_threads, max_queue);
            let pool = start.after_all(events);
            &&& pool.wf()
            &&& pool.min_threads == start.min_threads
            &&& pool.max_threads == start.max_threads
            &&& pool.max_queue == start.max_queue
        }),
{
    lemma_run_keeps_limits(opened::<T>(min_threads, max_threads, max_queue), events);
}

/// As long as the pool is not shut down and no task panics, its minimum number
/// of threads, which is at least 1, stays alive, however long they are idle.
pub proof fn law_minimum_stays_alive<T>(
    min_threads: nat,
    max_threads: nat,
    max_queue: nat,
    events: Seq<PoolEvent<T>>,
)
    requires
        opened::<T>(min_threads, max_threads, max_queue).admits_all(events),
        no_panic(events),
        no_shutdown(events),
    ensures
        ({
            let pool = opened::<T>(min_threads, max_threads, max_queue).after_all(events);
            1 <= pool.min_threads <= pool.active && !pool.shutdown
        }),
    decreases events.len(),
{
    if events.len() > 0 {
        let before = events.drop_last();
        assert(forall|i: int| 0 <= i < before.len() ==> before[i] == events[i]);
        assert(events[events.len() - 1] == events.last());
        law_minimum_stays_alive(min_threads, max_threads, max_queue, before);
        law_limits_are_kept(min_threads, max_threads, max_queue, before);
    }
}

/// As long as no task panics, a pool with tasks in its queue has at least one
/// thread, even when the pool is shut down.
pub proof fn law_queue_has_a_thread<T>(
    min_threads: nat,
    max_threads: nat,
    max_queue: nat,
    events: Seq<PoolEvent<T>>,
)
    requires
        opened::<T>(min_threads, max_threads, max_queue).admits_all(events),
        no_panic(events),
    ensures
        ({
            let pool = opened::<T>(min_threads, max_threads, max_queue).after_all(events);
            pool.todo.len() > 0 ==> pool.active >= 1
        }),
    decreases events.len(),
{
    if events.len() > 0 {
        let before = events.drop_last();
        assert(forall|i: int| 0 <= i < before.len() ==> before[i] == events[i]);
        assert(events[events.len() - 1] == events.last());
        law_queue_has_a_thread(min_threads, max_threads, max_queue, before);
        law_limits_are_kept(min_threads, max_threads, max_queue, before);
    }
}

/// Queued tasks leave the queue in the order in which they came, each once:
/// what was queued is what was taken, followed by what is still in the queue.
pub proof fn law_queue_is_first_in_first_out<T>(
    min_threads: nat,
    max_threads: nat,
    max_queue: nat,
    events: Seq<PoolEvent<T>>,
)
    requires
        opened::<T>(min_threads, max_threads, max_queue).admits_all(events),
    ensures
        ({
            let start = opened::<T>(min_threads, max_threads, max_queue);
            start.queued(events) == start.taken(events) + start.after_all(events).todo
        }),
    decreases events.len(),
{
    let start = opened::<T>(min_threads, max_threads, max_queue);
    if events.len() > 0 {
        let before = events.drop_last();
        law_queue_is_first_in_first_out(min_threads, max_threads, max_queue, before);
        let pool = start.after_all(before);
        assert(pool.roused().todo == pool.todo);
        assert(start.queued(events) =~= start.taken(events) + start.after_all(events).todo);
    } else {
        assert(start.queued(events) =~= start.taken(events) + start.after_all(events).todo);
    }
}

/// While a thread is idle, the pool does not grow: a thread that was told to
/// wait for ever, because it could not be spared, still cannot be spared.
pub proof fn law_no_growth_while_idle<T>(pool: PoolState<T>, event: PoolEvent<T>)
    requires
        pool.wf(),
        pool.admits(event),
        pool.waiting > 0,
    ensures
        pool.after(event).active <= pool.active,
        pool.active <= pool.min_threads ==> pool.after(event).active <= pool.after(
            event,
        ).min_threads,
{
}

/// Whatever happens to a pool, its invariant holds and its limits stay.
proof fn lemma_run_keeps_limits<T>(pool: PoolState<T>, events: Seq<PoolEvent<T>>)
    requires
        pool.wf(),
        pool.admits_all(events),
    ensures
        pool.after_all(events).wf(),
        pool.after_all(events).min_threads == pool.min_threads,
        pool.after_all(events).max_threads == pool.max_threads,
        pool.after_all(events).max_queue == pool.max_queue,
    decreases events.len(),
{
    if events.len() > 0 {
        lemma_run_keeps_limits(pool, events.drop_last());
    }
}

/// The pool has a waiting thread before each of the events.
pub open spec fn idle_throughout<T>(pool: PoolState<T>, events: Seq<PoolEvent<T>>) -> bool {
    forall|k: int|
        0 <= k < events.len() ==> pool.after_all(#[trigger] events.take(k)).waiting > 0
}

/// As long as a pool has a waiting thread all along, it has no more threads than
/// its minimum if it had no more at the start. So a thread that waits for ever
/// is never one above the minimum: above it, threads wait for a limited time,
/// and end when that is over and there is nothing to do.
pub proof fn law_only_timed_waits_above_the_minimum<T>(
    pool: PoolState<T>,
    events: Seq<PoolEvent<T>>,
)
    requires
        pool.wf(),
        pool.admits_all(events),
        pool.active <= pool.min_threads,
        idle_throughout(pool, events),
    ensures
        pool.after_all(events).active <= pool.after_all(events).min_threads,
        pool.after_all(events).min_threads == pool.min_threads,
    decreases events.len(),
{
    if events.len() > 0 {
        let before = events.drop_last();
        assert(idle_throughout(pool, before)) by {
            assert forall|k: int| 0 <= k < before.len() implies pool.after_all(
                #[trigger] before.take(k),
            ).waiting > 0 by {
                assert(before.take(k) =~= events.take(k));
            }
        }
        law_only_timed_waits_above_the_minimum(pool, before);
        lemma_run_keeps_limits(pool, before);
        assert(events.take(events.len() - 1) =~= before);
        law_no_growth_while_idle(pool.after_all(before), events.last());
    }
}

/// Above the minimum, a thread with nothing to do waits for a limited time, and
/// one whose time is over while there is still nothing to do ends.
pub proof fn law_idle_threads_above_the_minimum_die<T>(pool: PoolState<T>)
    requires
        pool.wf(),
        pool.active > pool.min_threads,
        pool.todo.len() == 0,
    ensures
        pool.admits(PoolEvent::Next) && !pool.shutdown ==> pool.next_action()
            == WorkerAction::<T>::WaitTimeout(IDLE_TIMEOUT_MS),
        pool.admits(PoolEvent::Woken(true)) ==> pool.woken_action(true)
            == WorkerAction::<T>::Exit && pool.after_woken(true).active == pool.active - 1,
{
}

/// A thread that ends by itself leaves an empty queue behind, and, as long as
/// the pool is not shut down, no fewer threads than the minimum.
pub proof fn law_threads_end_only_when_idle<T>(pool: PoolState<T>, timed_out: bool)
    requires
        pool.wf(),
    ensures
        pool.admits(PoolEvent::Next) && pool.next_action() is Exit ==> pool.todo.len() == 0
            && pool.shutdown,
        pool.admits(PoolEvent::Woken(timed_out)) && pool.woken_action(timed_out) is Exit
            ==> pool.todo.len() == 0 && (pool.shutdown || pool.after_woken(timed_out).active
            >= pool.min_threads),
{
}

/// A pool starts with its minimum of threads, none of them idle, an empty queue
/// of the given size and not shut down. Its maximum is the one asked for, but at
/// least 1; its minimum is the one asked for, but at least 1 and at most the
/// maximum.
pub proof fn law_how_a_pool_starts<T>(min_threads: nat, max_threads: nat, max_queue: nat)
    ensures
        ({
            let pool = opened::<T>(min_threads, max_threads, max_queue);
            &&& max_threads >= 1 ==> pool.max_threads == max_threads
            &&& max_threads == 0 ==> pool.max_threads == 1
            &&& min_threads == 0 ==> pool.min_threads == 1
            &&& 1 <= min_threads <= pool.max_threads ==> pool.min_threads == min_threads
            &&& min_threads > pool.max_threads ==> pool.min_threads == pool.max_threads
            &&& pool.active == pool.min_threads
            &&& pool.waiting == 0
            &&& pool.todo.len() == 0
            &&& pool.max_queue == max_queue
            &&& !pool.shutdown
        }),
{
}

/// A task that is handed to a pool gets a new thread exactly where no thread is
/// idle and there are fewer threads than the maximum. Otherwise it goes to the
/// end of the queue exactly where the queue has room, and comes back exactly
/// where it has none. Nothing else of the pool changes.
pub proof fn law_what_becomes_of_a_task<T>(pool: PoolState<T>, code: T)
    ensures
        pool.spawn_action(code) == SpawnAction::StartThread(code) <==> pool.waiting == 0
            && pool.active < pool.max_threads,
        pool.spawn_action(code) == SpawnAction::<T>::Queued <==> !(pool.waiting == 0
            && pool.active < pool.max_threads) && pool.todo.len() < pool.max_queue,
        pool.spawn_action(code) == SpawnAction::Rejected(code) <==> !(pool.waiting == 0
            && pool.active < pool.max_threads) && pool.todo.len() >= pool.max_queue,
        pool.waiting == 0 && pool.active < pool.max_threads ==> pool.after_spawn(code).active
            == pool.active + 1 && pool.after_spawn(code).todo == pool.todo,
        pool.spawn_action(code) is Queued ==> pool.after_spawn(code).active == pool.active
            && pool.after_spawn(code).todo == pool.todo.push(code),
        pool.spawn_action(code) is Rejected ==> pool.after_spawn(code) == pool,
        pool.after_spawn(code).waiting == pool.waiting,
        pool.after_spawn(code).shutdown == pool.shutdown,
        pool.after_spawn(code).min_threads == pool.min_threads,
        pool.after_spawn(code).max_threads == pool.max_threads,
        pool.after_spawn(code).max_queue == pool.max_queue,
{
}

/// A thread that has nothing to do while there are tasks in the queue always
/// gets the oldest of them, whatever the other threads do, even where the pool
/// is shut down. So does one whose wait is over, by a timeout or not.
pub proof fn law_queued_tasks_are_always_taken<T>(pool: PoolState<T>, timed_out: bool)
    requires
        pool.todo.len() > 0,
    ensures
        pool.next_action() == WorkerAction::Run(pool.todo[0]),
        pool.after_next() == (PoolState { todo: pool.todo.skip(1), ..pool }),
        pool.waiting > 0 ==> {
            &&& pool.woken_action(timed_out) == WorkerAction::Run(pool.todo[0])
            &&& pool.after_woken(timed_out) == (PoolState {
                todo: pool.todo.skip(1),
                waiting: (pool.waiting - 1) as nat,
                ..pool
            })
        },
{
    assert(pool.todo.drop_first() =~= pool.todo.skip(1));
}

/// A thread that finds the queue empty waits, and counts as idle, as long as the
/// pool is not shut down: for ever where there are no more threads than the
/// minimum, and otherwise for five seconds. Where the pool is shut down it ends,
/// and is one thread less.
pub proof fn law_what_a_thread_without_a_task_does<T>(pool: PoolState<T>)
    requires
        pool.todo.len() == 0,
        pool.waiting < pool.active,
    ensures
        pool.next_action() is Wait <==> !pool.shutdown && pool.active <= pool.min_threads,
        pool.next_action() == WorkerAction::<T>::WaitTimeout(5000) <==> !pool.shutdown
            && pool.active > pool.min_threads,
        pool.next_action() is Exit <==> pool.shutdown,
        !pool.shutdown ==> pool.after_next() == (PoolState { waiting: pool.waiting + 1, ..pool }),
        pool.shutdown ==> pool.after_next() == (PoolState {
            active: (pool.active - 1) as nat,
            ..pool
        }),
{
}

/// A thread whose wait is over and who finds the queue empty ends exactly where
/// the pool is shut down, or where it waited its full time and there are more
/// threads than the minimum; it is then one thread less, and one idle thread
/// less. In all other cases it waits on, and nothing changes.
pub proof fn law_what_a_woken_thread_without_a_task_does<T>(pool: PoolState<T>, timed_out: bool)
    requires
        pool.todo.len() == 0,
        0 < pool.waiting <= pool.active,
    ensures
        pool.woken_action(timed_out) is Exit <==> pool.shutdown || timed_out && pool.active
            > pool.min_threads,
        pool.woken_action(timed_out) is Exit ==> pool.after_woken(timed_out) == (PoolState {
            active: (pool.active - 1) as nat,
            waiting: (pool.waiting - 1) as nat,
            ..pool
        }),
        !(pool.woken_action(timed_out) is Exit) ==> pool.after_woken(timed_out) == pool,
        pool.woken_action(timed_out) is Wait <==> !pool.shutdown && pool.active
            <= pool.min_threads,
        pool.woken_action(timed_out) == WorkerAction::<T>::WaitTimeout(5000) <==> !pool.shutdown
            && pool.active > pool.min_threads && !timed_out,
{
}

/// A task that panics costs the pool one thread, and nothing else. Shutting the
/// pool down changes nothing but that.
pub proof fn law_panic_and_shutdown<T>(pool: PoolState<T>)
    requires
        pool.active > 0,
    ensures
        pool.after_panic().active + 1 == pool.active,
        pool.after_panic() == (PoolState { active: pool.after_panic().active, ..pool }),
        pool.after_shutdown().shutdown,
        pool.after_shutdown() == (PoolState { shutdown: true, ..pool }),
{
}

/// What holds of every pool, and when an event can happen to it.
pub proof fn law_bounds_of_a_pool<T>(pool: PoolState<T>, timed_out: bool)
    ensures
        pool.wf() <==> {
            &&& pool.min_threads >= 1
            &&& pool.max_threads >= pool.min_threads
            &&& pool.active <= pool.max_threads
            &&& pool.waiting <= pool.active
            &&& pool.todo.len() <= pool.max_queue
        },
        pool.admits(PoolEvent::Next) <==> pool.waiting < pool.active,
        pool.admits(PoolEvent::Panic) <==> pool.waiting < pool.active,
        pool.admits(PoolEvent::Woken(timed_out)) <==> pool.waiting > 0,
{
}

/// As many tasks as may run or wait are taken in: a pool whose threads are all
/// busy takes a task for each thread that it may still start, and then one for
/// each free place in its queue, before it hands one back.
pub proof fn law_room_of_a_busy_pool<T>(pool: PoolState<T>, codes: Seq<T>)
    requires
        pool.wf(),
        pool.waiting == 0,
        codes.len() <= (pool.max_threads - pool.active) + (pool.max_queue - pool.todo.len()),
    ensures
        ({
            let events = Seq::new(codes.len(), |i: int| PoolEvent::Spawn(codes[i]));
            let later = pool.after_all(events);
            &&& later.waiting == 0
            &&& later.active <= pool.max_threads
            &&& (later.active - pool.active) + (later.todo.len() - pool.todo.len()) == codes.len()
            &&& codes.len() <= pool.max_threads - pool.active ==> later.todo == pool.todo
            &&& later.max_threads == pool.max_threads
            &&& later.max_queue == pool.max_queue
        }),
    decreases codes.len(),
{
    let events = Seq::new(codes.len(), |i: int| PoolEvent::Spawn(codes[i]));
    if codes.len() > 0 {
        let before = codes.drop_last();
        law_room_of_a_busy_pool(pool, before);
        let earlier = Seq::new(before.len(), |i: int| PoolEvent::Spawn(before[i]));
        assert(events.drop_last() =~= earlier);
        assert(events.last() == PoolEvent::Spawn(codes.last()));
        law_what_becomes_of_a_task(pool.after_all(earlier), codes.last());
    }
}

/// A thread that was started with a task runs that task first, whatever is in
/// the queue, which stays as it is. One that was started without a task takes
/// the oldest of the queue, if there is one.
pub proof fn law_what_a_new_thread_does<T>(pool: PoolState<T>, f: T)
    ensures
        pool.started_action(Some(f)) == WorkerAction::Run(f),
        pool.after_started(Some(f)) == pool,
        pool.todo.len() > 0 ==> pool.started_action(None) == WorkerAction::Run(pool.todo[0])
            && pool.after_started(None).todo == pool.todo.skip(1),
        pool.todo.len() == 0 ==> pool.started_action(None) == pool.next_action()
            && pool.after_started(None) == pool.after_next(),
{
    if pool.todo.len() > 0 {
        law_queued_tasks_are_always_taken(pool, false);
    }
}

} // verus!
