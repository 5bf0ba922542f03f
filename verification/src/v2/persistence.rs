//! Clocks, bounds and counters of durable persistence.
use crate::arith;
use crate::arith::count;
use crate::time::Span;
use vstd::prelude::*;

verus! {

/// Hard cap for any persistence queue. Larger capacities fail closed at
/// construction.
pub const PERSISTENCE_QUEUE_HARD_CAP: usize = 64;

/// Default bounded queue depth for durable lease and replay I/O.
pub const PERSISTENCE_QUEUE_CAPACITY: usize = 32;

/// Milliseconds within which one durable operation must complete.
pub const PERSISTENCE_IO_TIMEOUT_MS: u64 = 500;

/// Milliseconds within which a stop must join the worker.
pub const PERSISTENCE_SHUTDOWN_TIMEOUT_MS: u64 = 1_000;

/// Longest timeout that a configuration may name, in milliseconds.
pub const PERSISTENCE_TIMEOUT_CAP_MS: u64 = 30_000;

/// Dual clock for lease persistence: monotonic drives in-memory TTLs, wall
/// drives the durable journal.
#[derive(Debug, Clone, Copy, PartialEq, Eq, Structural)]
pub struct PoolTime {
    /// Process-relative monotonic milliseconds (TTL, backoff, sweep).
    pub monotonic_ms: u64,
    /// Wall-clock Unix milliseconds (durable expiry only).
    pub wall_ms: u64,
}

impl PoolTime {
    pub fn new(monotonic_ms: u64, wall_ms: u64) -> (time: Self)
        ensures
            time.monotonic_ms == monotonic_ms,
            time.wall_ms == wall_ms,
    {
        PoolTime { monotonic_ms, wall_ms }
    }

    /// One value for both domains.
    pub fn from_monotonic(now_ms: u64) -> (time: Self)
        ensures
            time.monotonic_ms == now_ms,
            time.wall_ms == now_ms,
    {
        PoolTime { monotonic_ms: now_ms, wall_ms: now_ms }
    }

    /// Derives wall millis from wall seconds, saturating.
    pub fn from_monotonic_and_wall_seconds(monotonic_ms: u64, wall_unix_seconds: u64) -> (time: Self)
        ensures
            time.monotonic_ms == monotonic_ms,
            time.wall_ms == saturated(wall_unix_seconds * 1_000),
    {
        PoolTime { monotonic_ms, wall_ms: seconds_to_millis(wall_unix_seconds) }
    }
}

/// Seconds as milliseconds, saturating.
pub fn seconds_to_millis(seconds: u64) -> (millis: u64)
    ensures
        millis == saturated(seconds * 1_000),
{
    if seconds > u64::MAX / 1_000 {
        u64::MAX
    } else {
        seconds * 1_000
    }
}

/// A number held to the range of `u64`.
pub open spec fn saturated(value: int) -> u64 {
    if value > u64::MAX {
        u64::MAX
    } else if value < 0 {
        0
    } else {
        value as u64
    }
}

/// Wall-clock Unix milliseconds, given how long ago the epoch was. Saturates;
/// `None` stands for a clock before the epoch and reads as zero, which
/// fail-closed paths treat as expired.
pub fn wall_ms_now(since_epoch: Option<Span>) -> (now: u64)
    requires
        since_epoch matches Some(span) ==> span.wf(),
    ensures
        now == match since_epoch {
            Some(span) => saturated(span.millis() as int),
            None => 0u64,
        },
{
    match since_epoch {
        Some(span) => {
            let millis: u128 = span.as_millis();
            if millis > u64::MAX as u128 {
                u64::MAX
            } else {
                millis as u64
            }
        },
        None => 0,
    }
}

/// A wall-clock deadline: `wall_now + ttl`, saturating.
pub fn wall_expiry_from_ttl(wall_now_ms: u64, ttl_ms: u64) -> (deadline: u64)
    ensures
        deadline == saturated(wall_now_ms + ttl_ms),
{
    wall_now_ms.saturating_add(ttl_ms)
}

/// A persisted wall deadline as a monotonic deadline: what is left of it,
/// counted from the monotonic clock. At or past the deadline that is now.
pub fn monotonic_expiry_from_wall(
    wall_expiry_ms: u64,
    wall_now_ms: u64,
    mono_now_ms: u64,
) -> (deadline: u64)
    ensures
        deadline == monotonic_deadline(wall_expiry_ms, wall_now_ms, mono_now_ms),
{
    mono_now_ms.saturating_add(wall_expiry_ms.saturating_sub(wall_now_ms))
}

/// See [`monotonic_expiry_from_wall`].
pub open spec fn monotonic_deadline(wall_expiry_ms: u64, wall_now_ms: u64, mono_now_ms: u64) -> u64 {
    if wall_expiry_ms <= wall_now_ms {
        mono_now_ms
    } else {
        saturated(mono_now_ms + wall_expiry_ms - wall_now_ms)
    }
}

#[derive(Debug, Clone, Copy, PartialEq, Eq, Structural)]
pub enum PersistenceError {
    /// The queue is at capacity.
    Full,
    /// The operation timed out.
    Timeout,
    /// The owner is closed.
    Closed,
    /// The store is unavailable.
    Unavailable,
}

/// Validated configuration for one [`PersistenceOwner`].
#[derive(Debug, Clone, Copy, PartialEq, Eq, Structural)]
pub struct PersistenceConfig {
    queue_capacity: usize,
    io_timeout: Span,
    shutdown_timeout: Span,
}

/// A timeout that a configuration may name: a millisecond to half a minute.
pub open spec fn bounded_timeout(timeout: Span) -> bool {
    1_000_000 <= timeout.total_nanos() <= PERSISTENCE_TIMEOUT_CAP_MS * 1_000_000
}

/// See [`bounded_timeout`].
fn is_bounded(timeout: Span) -> (bounded: bool)
    requires
        timeout.wf(),
    ensures
        bounded == bounded_timeout(timeout),
{
    let nanos: u128 = timeout.as_nanos();
    1_000_000 <= nanos && nanos <= PERSISTENCE_TIMEOUT_CAP_MS as u128 * 1_000_000
}

impl PersistenceConfig {
    /// The queue capacity and the two timeouts.
    pub closed spec fn parts(self) -> (usize, Span, Span) {
        (self.queue_capacity, self.io_timeout, self.shutdown_timeout)
    }

    pub open spec fn valid(self) -> bool {
        let (capacity, io, shutdown) = self.parts();
        &&& 1 <= capacity <= PERSISTENCE_QUEUE_HARD_CAP
        &&& io.wf() && bounded_timeout(io)
        &&& shutdown.wf() && bounded_timeout(shutdown)
    }

    /// `None` when the capacity is out of `1..=PERSISTENCE_QUEUE_HARD_CAP` or
    /// a timeout out of one millisecond to thirty seconds.
    pub fn new(queue_capacity: usize, io_timeout: Span, shutdown_timeout: Span) -> (config: Option<
        Self,
    >)
        requires
            io_timeout.wf(),
            shutdown_timeout.wf(),
        ensures
            (config is Some) == (1 <= queue_capacity <= PERSISTENCE_QUEUE_HARD_CAP
                && bounded_timeout(io_timeout) && bounded_timeout(shutdown_timeout)),
            config matches Some(config) ==> config.valid() && config.parts() == (
                queue_capacity,
                io_timeout,
                shutdown_timeout,
            ),
    {
        if queue_capacity == 0 || queue_capacity > PERSISTENCE_QUEUE_HARD_CAP {
            return None;
        }
        if !is_bounded(io_timeout) || !is_bounded(shutdown_timeout) {
            return None;
        }
        Some(PersistenceConfig { queue_capacity, io_timeout, shutdown_timeout })
    }

    pub fn default_config() -> (config: Self)
        ensures
            config.valid(),
            config.parts().0 == PERSISTENCE_QUEUE_CAPACITY,
            config.parts().1.total_nanos() == PERSISTENCE_IO_TIMEOUT_MS * 1_000_000,
            config.parts().2.total_nanos() == PERSISTENCE_SHUTDOWN_TIMEOUT_MS * 1_000_000,
    {
        PersistenceConfig {
            queue_capacity: PERSISTENCE_QUEUE_CAPACITY,
            io_timeout: Span::from_millis(PERSISTENCE_IO_TIMEOUT_MS),
            shutdown_timeout: Span::from_millis(PERSISTENCE_SHUTDOWN_TIMEOUT_MS),
        }
    }

    pub fn queue_capacity(self) -> (capacity: usize)
        ensures
            capacity == self.parts().0,
    {
        self.queue_capacity
    }

    pub fn io_timeout(self) -> (timeout: Span)
        ensures
            timeout == self.parts().1,
    {
        self.io_timeout
    }

    pub fn shutdown_timeout(self) -> (timeout: Span)
        ensures
            timeout == self.parts().2,
    {
        self.shutdown_timeout
    }
}

impl Default for PersistenceConfig {
    fn default() -> (config: Self)
        ensures
            config.valid(),
            config.parts().0 == PERSISTENCE_QUEUE_CAPACITY,
            config.parts().1.total_nanos() == PERSISTENCE_IO_TIMEOUT_MS * 1_000_000,
            config.parts().2.total_nanos() == PERSISTENCE_SHUTDOWN_TIMEOUT_MS * 1_000_000,
    {
        Self::default_config()
    }
}

/// Count-only metrics for one owner (no paths, tickets, or contents).
#[derive(Debug, Clone, Copy, PartialEq, Eq, Structural)]
pub struct PersistenceMetrics {
    pub submitted: u64,
    pub completed: u64,
    pub full_dropped: u64,
    pub timed_out: u64,
    pub closed: u64,
    pub shutdown_timed_out: u64,
}

impl PersistenceMetrics {
    pub open spec fn zero() -> Self {
        PersistenceMetrics {
            submitted: 0,
            completed: 0,
            full_dropped: 0,
            timed_out: 0,
            closed: 0,
            shutdown_timed_out: 0,
        }
    }

    /// After work was refused or its outcome lost to a closed queue.
    pub open spec fn shut(self) -> Self {
        PersistenceMetrics { closed: arith::counted(self.closed, 1), ..self }
    }

    /// After work was offered to the queue.
    pub open spec fn offered(self, submission: Submission) -> Self {
        match submission {
            Submission::Queued => PersistenceMetrics {
                submitted: arith::counted(self.submitted, 1),
                ..self
            },
            Submission::Full => PersistenceMetrics {
                full_dropped: arith::counted(self.full_dropped, 1),
                ..self
            },
            Submission::Disconnected => self.shut(),
        }
    }

    /// After queued work was waited for.
    pub open spec fn replied<T>(self, reply: Reply<T>) -> Self {
        match reply {
            Reply::Answered(_) => PersistenceMetrics {
                completed: arith::counted(self.completed, 1),
                ..self
            },
            Reply::Dropped => self.shut(),
            Reply::TimedOut => PersistenceMetrics {
                timed_out: arith::counted(self.timed_out, 1),
                ..self
            },
        }
    }

    /// After one execution, from the first step to the last that it takes.
    pub open spec fn executed<T>(self, execution: Execution<T>) -> Self {
        if !execution.open {
            self.shut()
        } else if execution.submission != Submission::Queued {
            self.offered(execution.submission)
        } else {
            self.offered(Submission::Queued).replied(execution.reply)
        }
    }

    /// After some executions, one after another.
    pub open spec fn executed_all<T>(self, executions: Seq<Execution<T>>) -> Self
        decreases executions.len(),
    {
        if executions.len() == 0 {
            self
        } else {
            self.executed_all(executions.drop_last()).executed(executions.last())
        }
    }

    /// The outcomes that were counted.
    pub open spec fn outcomes(self) -> int {
        self.completed + self.full_dropped + self.timed_out + self.closed
    }

    pub fn submitted(&self) -> (count: u64)
        ensures
            count == self.submitted,
    {
        self.submitted
    }

    pub fn completed(&self) -> (count: u64)
        ensures
            count == self.completed,
    {
        self.completed
    }

    pub fn full_dropped(&self) -> (count: u64)
        ensures
            count == self.full_dropped,
    {
        self.full_dropped
    }

    pub fn timed_out(&self) -> (count: u64)
        ensures
            count == self.timed_out,
    {
        self.timed_out
    }

    pub fn closed(&self) -> (count: u64)
        ensures
            count == self.closed,
    {
        self.closed
    }

    pub fn shutdown_timed_out(&self) -> (count: u64)
        ensures
            count == self.shutdown_timed_out,
    {
        self.shutdown_timed_out
    }
}

/// Snapshot of [`PersistenceMetrics`] (counts only).
#[derive(Debug, Clone, Copy, PartialEq, Eq, Structural)]
pub struct PersistenceSnapshot {
    pub submitted: u64,
    pub completed: u64,
    pub full_dropped: u64,
    pub timed_out: u64,
    pub closed: u64,
    pub shutdown_timed_out: u64,
    pub queue_capacity: usize,
}

/// What came of offering work to the bounded queue.
#[derive(Debug, Clone, Copy, PartialEq, Eq, Structural)]
pub enum Submission {
    Queued,
    Full,
    Disconnected,
}

/// What came of waiting for queued work.
pub enum Reply<T> {
    /// The worker ran it and answered in time.
    Answered(T),
    /// The worker went away without an answer.
    Dropped,
    /// No answer within the I/O timeout. The worker may still run it later,
    /// which callers treat as burnt, never as applied.
    TimedOut,
}

/// One execution: whether the owner was open, what the queue made of the work
/// and what waiting for it came to.
pub struct Execution<T> {
    pub open: bool,
    pub submission: Submission,
    pub reply: Reply<T>,
}

/// What came of joining the worker at shutdown.
#[derive(Debug, Clone, Copy, PartialEq, Eq, Structural)]
pub enum Join {
    Finished,
    Panicked,
    TimedOut,
}

/// Bounded supervised owner for blocking persistence I/O: who may still
/// submit, what each outcome is answered, and the counts. The worker thread
/// and its queue report their outcomes to it.
#[derive(Debug)]
pub struct PersistenceOwner {
    config: PersistenceConfig,
    metrics: PersistenceMetrics,
    open: bool,
    joinable: bool,
}

impl PersistenceOwner {
    pub closed spec fn settings(&self) -> PersistenceConfig {
        self.config
    }

    pub closed spec fn counts(&self) -> PersistenceMetrics {
        self.metrics
    }

    /// Still takes work.
    pub closed spec fn open(&self) -> bool {
        self.open
    }

    /// The worker is yet to be joined.
    pub closed spec fn joinable(&self) -> bool {
        self.joinable
    }

    /// One owner with one worker.
    pub fn start(config: PersistenceConfig) -> (owner: Self)
        ensures
            owner.settings() == config,
            owner.counts() == PersistenceMetrics::zero(),
            owner.open(),
            owner.joinable(),
    {
        let metrics = PersistenceMetrics {
            submitted: 0,
            completed: 0,
            full_dropped: 0,
            timed_out: 0,
            closed: 0,
            shutdown_timed_out: 0,
        };
        PersistenceOwner { config, metrics, open: true, joinable: true }
    }

    /// One owner with the default bounded config.
    pub fn start_default() -> (owner: Self)
        ensures
            owner.settings().valid(),
            owner.settings().parts().0 == PERSISTENCE_QUEUE_CAPACITY,
            owner.settings().parts().1.total_nanos() == PERSISTENCE_IO_TIMEOUT_MS * 1_000_000,
            owner.settings().parts().2.total_nanos() == PERSISTENCE_SHUTDOWN_TIMEOUT_MS * 1_000_000,
            owner.counts() == PersistenceMetrics::zero(),
            owner.open(),
            owner.joinable(),
    {
        Self::start(PersistenceConfig::default_config())
    }

    /// Before work is offered to the queue: a stopped owner takes none.
    pub fn begin_execute(&mut self) -> (result: Result<(), PersistenceError>)
        ensures
            result == if old(self).open() {
                Ok::<(), PersistenceError>(())
            } else {
                Err(PersistenceError::Closed)
            },
            final(self).counts() == if old(self).open() {
                old(self).counts()
            } else {
                old(self).counts().shut()
            },
            final(self).settings() == old(self).settings(),
            final(self).open() == old(self).open(),
            final(self).joinable() == old(self).joinable(),
    {
        if !self.open {
            self.metrics.closed = count(self.metrics.closed, 1);
            return Err(PersistenceError::Closed);
        }
        Ok(())
    }

    /// After work was offered to the queue. `Full` is backpressure: nothing
    /// was queued.
    pub fn submitted(&mut self, submission: Submission) -> (result: Result<(), PersistenceError>)
        ensures
            result == match submission {
                Submission::Queued => Ok::<(), PersistenceError>(()),
                Submission::Full => Err(PersistenceError::Full),
                Submission::Disconnected => Err(PersistenceError::Closed),
            },
            final(self).counts() == old(self).counts().offered(submission),
            final(self).settings() == old(self).settings(),
            final(self).open() == old(self).open(),
            final(self).joinable() == old(self).joinable(),
    {
        match submission {
            Submission::Queued => {
                self.metrics.submitted = count(self.metrics.submitted, 1);
                Ok(())
            },
            Submission::Full => {
                self.metrics.full_dropped = count(self.metrics.full_dropped, 1);
                Err(PersistenceError::Full)
            },
            Submission::Disconnected => {
                self.metrics.closed = count(self.metrics.closed, 1);
                Err(PersistenceError::Closed)
            },
        }
    }

    /// After waiting for queued work with the I/O timeout.
    pub fn end_execute<T>(&mut self, reply: Reply<T>) -> (result: Result<T, PersistenceError>)
        ensures
            result == match reply {
                Reply::Answered(value) => Ok::<T, PersistenceError>(value),
                Reply::Dropped => Err(PersistenceError::Closed),
                Reply::TimedOut => Err(PersistenceError::Timeout),
            },
            final(self).counts() == old(self).counts().replied(reply),
            final(self).settings() == old(self).settings(),
            final(self).open() == old(self).open(),
            final(self).joinable() == old(self).joinable(),
    {
        match reply {
            Reply::Answered(value) => {
                self.metrics.completed = count(self.metrics.completed, 1);
                Ok(value)
            },
            Reply::Dropped => {
                self.metrics.closed = count(self.metrics.closed, 1);
                Err(PersistenceError::Closed)
            },
            Reply::TimedOut => {
                self.metrics.timed_out = count(self.metrics.timed_out, 1);
                Err(PersistenceError::Timeout)
            },
        }
    }

    /// Closes the queue to new work. Says whether the worker is to be joined,
    /// which only the first stop does.
    pub fn begin_stop(&mut self) -> (join: bool)
        ensures
            join == old(self).joinable(),
            !final(self).open(),
            !final(self).joinable(),
            final(self).counts() == old(self).counts(),
            final(self).settings() == old(self).settings(),
    {
        let join = self.joinable;
        self.open = false;
        self.joinable = false;
        join
    }

    /// After joining the worker with the shutdown timeout. A worker that
    /// panicked or stalled is counted and detached.
    pub fn end_stop(&mut self, join: Join)
        ensures
            final(self).counts() == if join == Join::Finished {
                old(self).counts()
            } else {
                PersistenceMetrics {
                    shutdown_timed_out: arith::counted(old(self).counts().shutdown_timed_out, 1),
                    ..old(self).counts()
                }
            },
            final(self).settings() == old(self).settings(),
            final(self).open() == old(self).open(),
            final(self).joinable() == old(self).joinable(),
    {
        if join != Join::Finished {
            self.metrics.shutdown_timed_out = count(self.metrics.shutdown_timed_out, 1);
        }
    }

    pub fn snapshot(&self) -> (snapshot: PersistenceSnapshot)
        ensures
            snapshot == (PersistenceSnapshot {
                submitted: self.counts().submitted,
                completed: self.counts().completed,
                full_dropped: self.counts().full_dropped,
                timed_out: self.counts().timed_out,
                closed: self.counts().closed,
                shutdown_timed_out: self.counts().shutdown_timed_out,
                queue_capacity: self.settings().parts().0,
            }),
    {
        PersistenceSnapshot {
            submitted: self.metrics.submitted,
            completed: self.metrics.completed,
            full_dropped: self.metrics.full_dropped,
            timed_out: self.metrics.timed_out,
            closed: self.metrics.closed,
            shutdown_timed_out: self.metrics.shutdown_timed_out,
            queue_capacity: self.config.queue_capacity,
        }
    }

    pub fn config(&self) -> (config: PersistenceConfig)
        ensures
            config == self.settings(),
    {
        self.config
    }

    pub fn is_closed(&self) -> (closed: bool)
        ensures
            closed == !self.open(),
    {
        !self.open
    }
}

/// Every finished execution is counted in exactly one outcome, which is the
/// one it was answered: it completed, met a full queue, timed out or found the
/// owner closed. The counts wrap.
pub proof fn law_execution_has_one_outcome<T>(before: PersistenceMetrics, execution: Execution<T>)
    ensures
        ({
            let after = before.executed(execution);
            let queued = execution.open && execution.submission == Submission::Queued;
            let completed = queued && execution.reply is Answered;
            let timed_out = queued && execution.reply is TimedOut;
            let full = execution.open && execution.submission == Submission::Full;
            let closed = !completed && !timed_out && !full;
            let step = |counter: u64, taken: bool|
                if taken {
                    arith::counted(counter, 1)
                } else {
                    counter
                };
            &&& after.completed == step(before.completed, completed)
            &&& after.timed_out == step(before.timed_out, timed_out)
            &&& after.full_dropped == step(before.full_dropped, full)
            &&& after.closed == step(before.closed, closed)
            &&& after.submitted == step(before.submitted, queued)
            &&& after.shutdown_timed_out == before.shutdown_timed_out
        }),
{
}

/// The outcomes of a fresh owner add up to the executions that finished, as
/// long as no count has wrapped; work was queued for every one that completed
/// or timed out.
pub proof fn law_outcomes_add_up<T>(executions: Seq<Execution<T>>)
    requires
        executions.len() <= u64::MAX,
    ensures
        ({
            let counts = PersistenceMetrics::zero().executed_all(executions);
            &&& counts.outcomes() == executions.len()
            &&& counts.completed + counts.timed_out <= counts.submitted <= executions.len()
            &&& counts.shutdown_timed_out == 0
        }),
    decreases executions.len(),
{
    if executions.len() > 0 {
        law_outcomes_add_up(executions.drop_last());
    }
}

/// A queue may hold one to 64, and wait a millisecond to half a minute.
pub proof fn law_persistence_bounds(
    queue_capacity: usize,
    io_timeout: Span,
    shutdown_timeout: Span,
    config: Option<PersistenceConfig>,
)
    requires
        io_timeout.wf(),
        shutdown_timeout.wf(),
        call_ensures(
            PersistenceConfig::new,
            (queue_capacity, io_timeout, shutdown_timeout),
            config,
        ),
    ensures
        config is Some <==> {
            &&& 1 <= queue_capacity <= 64
            &&& 1_000_000 <= io_timeout.total_nanos() <= 30_000_000_000
            &&& 1_000_000 <= shutdown_timeout.total_nanos() <= 30_000_000_000
        },
        config matches Some(config) ==> config.parts() == (
            queue_capacity,
            io_timeout,
            shutdown_timeout,
        ),
{
}

/// By default a queue holds 32, an operation may take half a second, and a shutdown a
/// second.
pub proof fn law_persistence_defaults(config: PersistenceConfig)
    requires
        call_ensures(PersistenceConfig::default_config, (), config),
    ensures
        config.parts().0 == 32,
        config.parts().1.total_nanos() == 500_000_000,
        config.parts().2.total_nanos() == 1_000_000_000,
{
}

/// A deadline lies as far ahead of the monotonic clock as it lies ahead of the wall
/// clock; one that is past is now, and one that the clock cannot show is the last
/// instant that it can.
pub proof fn law_deadlines_keep_their_distance(wall_expiry: u64, wall_now: u64, mono_now: u64)
    ensures
        wall_expiry <= wall_now ==> monotonic_deadline(wall_expiry, wall_now, mono_now) == mono_now,
        wall_expiry >= wall_now && mono_now + (wall_expiry - wall_now) <= u64::MAX
            ==> monotonic_deadline(wall_expiry, wall_now, mono_now) - mono_now == wall_expiry
            - wall_now,
        mono_now + (wall_expiry - wall_now) > u64::MAX ==> monotonic_deadline(
            wall_expiry,
            wall_now,
            mono_now,
        ) == u64::MAX,
{
}

/// A number that fits is itself; one that is too large is the largest, and one below
/// zero is zero.
pub proof fn law_saturation(value: int)
    ensures
        0 <= value <= u64::MAX ==> saturated(value) == value,
        value > u64::MAX ==> saturated(value) == u64::MAX,
        value < 0 ==> saturated(value) == 0,
{
}

/// The wall clock of seconds is a thousand times as many milliseconds.
pub proof fn law_seconds_are_milliseconds(
    monotonic_ms: u64,
    wall_unix_seconds: u64,
    time: PoolTime,
)
    requires
        call_ensures(
            PoolTime::from_monotonic_and_wall_seconds,
            (monotonic_ms, wall_unix_seconds),
            time,
        ),
    ensures
        time.monotonic_ms == monotonic_ms,
        wall_unix_seconds * 1_000 <= u64::MAX ==> time.wall_ms == wall_unix_seconds * 1_000,
        wall_unix_seconds * 1_000 > u64::MAX ==> time.wall_ms == u64::MAX,
{
}

/// Before its first work a queue has counted nothing.
pub proof fn law_queues_begin_with_nothing_counted()
    ensures
        ({
            let z = PersistenceMetrics::zero();
            &&& z.submitted == 0
            &&& z.completed == 0
            &&& z.full_dropped == 0
            &&& z.timed_out == 0
            &&& z.closed == 0
            &&& z.shutdown_timed_out == 0
        }),
{
}

/// The wall clock reads whole milliseconds since the epoch, nothing before it, and no
/// more than there is room for.
pub proof fn law_wall_clock_readings(since_epoch: Option<Span>, now: u64)
    requires
        since_epoch matches Some(span) ==> span.wf(),
        call_ensures(wall_ms_now, (since_epoch,), now),
    ensures
        since_epoch is None ==> now == 0,
        since_epoch matches Some(span) ==> {
            &&& now * 1_000_000 <= span.total_nanos()
            &&& now < u64::MAX ==> span.total_nanos() < (now + 1) * 1_000_000
        },
{
}

/// A queue that was just started takes work and can be waited for.
pub proof fn law_queues_start_open(config: PersistenceConfig, owner: PersistenceOwner)
    requires
        call_ensures(PersistenceOwner::start, (config,), owner),
    ensures
        owner.settings() == config,
        owner.open(),
        owner.joinable(),
        owner.counts().submitted == 0,
        owner.counts().completed == 0,
{
}

} // verus!
