//! The supervised autonomous sweep of expired leases and quarantined deletes.
//!
//! Ticks go through a queue that holds one: a tick produced while another is
//! pending is coalesced away, so a slow sweep never builds a backlog.
use crate::arith;
use crate::arith::{count, count_flags};
use crate::ids::SessionId;
use vstd::prelude::*;

verus! {

/// Longest interval that a configuration may name, in milliseconds.
pub const MAX_SWEEP_INTERVAL_MS: u64 = 3_600_000;

/// The interval between sweeps, as a minimum (the tick frequency) and a
/// maximum that guards against accidentally disabled sweeps.
#[derive(Debug, Clone, Copy, PartialEq, Eq, Structural)]
pub struct PoolSweepConfig {
    min_interval_ms: u64,
    max_interval_ms: u64,
}

impl PoolSweepConfig {
    /// The two intervals.
    pub closed spec fn intervals(self) -> (u64, u64) {
        (self.min_interval_ms, self.max_interval_ms)
    }

    pub open spec fn valid(self) -> bool {
        1 <= self.intervals().0 <= self.intervals().1 <= MAX_SWEEP_INTERVAL_MS
    }

    /// `None` unless `1 <= min <= max <= MAX_SWEEP_INTERVAL_MS`.
    pub fn new(min_interval_ms: u64, max_interval_ms: u64) -> (config: Option<Self>)
        ensures
            (config is Some) == (1 <= min_interval_ms <= max_interval_ms <= MAX_SWEEP_INTERVAL_MS),
            config matches Some(config) ==> config.valid() && config.intervals() == (
                min_interval_ms,
                max_interval_ms,
            ),
    {
        if min_interval_ms < 1 || max_interval_ms < min_interval_ms || max_interval_ms
            > MAX_SWEEP_INTERVAL_MS {
            return None;
        }
        Some(PoolSweepConfig { min_interval_ms, max_interval_ms })
    }

    /// A fixed interval.
    pub fn fixed(interval_ms: u64) -> (config: Option<Self>)
        ensures
            (config is Some) == (1 <= interval_ms <= MAX_SWEEP_INTERVAL_MS),
            config matches Some(config) ==> config.valid() && config.intervals() == (
                interval_ms,
                interval_ms,
            ),
    {
        Self::new(interval_ms, interval_ms)
    }

    pub fn min_interval_ms(&self) -> (interval: u64)
        ensures
            interval == self.intervals().0,
    {
        self.min_interval_ms
    }

    pub fn max_interval_ms(&self) -> (interval: u64)
        ensures
            interval == self.intervals().1,
    {
        self.max_interval_ms
    }
}

/// What a queued tick asks for.
#[derive(Debug, Clone, Copy, PartialEq, Eq, Structural)]
pub enum PoolSweepTick {
    Sweep,
    Shutdown,
}

/// Occupancy and outcome counts of the sweep.
#[derive(Debug, Clone, Copy, PartialEq, Eq, Structural)]
pub struct PoolSweepMetrics {
    pub sweeps_completed: u64,
    pub leases_expired: u64,
    pub sessions_closed: u64,
    pub sweeps_empty: u64,
    pub ticks_queued: u64,
    pub ticks_dropped: u64,
    pub queue_depth: u64,
}

impl PoolSweepMetrics {
    pub open spec fn zero() -> Self {
        PoolSweepMetrics {
            sweeps_completed: 0,
            leases_expired: 0,
            sessions_closed: 0,
            sweeps_empty: 0,
            ticks_queued: 0,
            ticks_dropped: 0,
            queue_depth: 0,
        }
    }

    pub fn sweeps_completed(&self) -> (count: u64)
        ensures
            count == self.sweeps_completed,
    {
        self.sweeps_completed
    }

    pub fn leases_expired(&self) -> (count: u64)
        ensures
            count == self.leases_expired,
    {
        self.leases_expired
    }

    pub fn sessions_closed(&self) -> (count: u64)
        ensures
            count == self.sessions_closed,
    {
        self.sessions_closed
    }

    pub fn sweeps_empty(&self) -> (count: u64)
        ensures
            count == self.sweeps_empty,
    {
        self.sweeps_empty
    }

    /// Ticks that were queued.
    pub fn ticks_queued(&self) -> (count: u64)
        ensures
            count == self.ticks_queued,
    {
        self.ticks_queued
    }

    /// Ticks that were coalesced away because another was pending.
    pub fn ticks_dropped(&self) -> (count: u64)
        ensures
            count == self.ticks_dropped,
    {
        self.ticks_dropped
    }

    /// Last observed depth of the tick queue: 0 or 1.
    pub fn queue_depth(&self) -> (depth: u64)
        ensures
            depth == self.queue_depth,
    {
        self.queue_depth
    }
}

impl Default for PoolSweepMetrics {
    fn default() -> (metrics: Self)
        ensures
            metrics == Self::zero(),
    {
        PoolSweepMetrics {
            sweeps_completed: 0,
            leases_expired: 0,
            sessions_closed: 0,
            sweeps_empty: 0,
            ticks_queued: 0,
            ticks_dropped: 0,
            queue_depth: 0,
        }
    }
}

/// The state of the sweep.
pub struct SweepModel {
    /// Expired sessions are closed.
    pub closes_sessions: bool,
    /// The ticker still produces ticks.
    pub ticking: bool,
    /// The sweep task still takes ticks.
    pub running: bool,
    /// The sweep task is yet to be joined.
    pub joinable: bool,
    /// The pending tick.
    pub pending: Option<PoolSweepTick>,
    pub metrics: PoolSweepMetrics,
}

impl SweepModel {
    /// The queue depth is that of the queue, as far as sweep ticks go.
    pub open spec fn wf(self) -> bool {
        self.metrics.queue_depth == if self.pending == Some(PoolSweepTick::Sweep) {
            1
        } else {
            0u64
        }
    }

    /// After the ticker fired.
    pub open spec fn ticked(self) -> Self {
        if !self.running {
            SweepModel { ticking: false, ..self }
        } else if self.pending is Some {
            SweepModel {
                metrics: PoolSweepMetrics {
                    ticks_dropped: arith::counted(self.metrics.ticks_dropped, 1),
                    ..self.metrics
                },
                ..self
            }
        } else {
            SweepModel {
                pending: Some(PoolSweepTick::Sweep),
                metrics: PoolSweepMetrics {
                    ticks_queued: arith::counted(self.metrics.ticks_queued, 1),
                    queue_depth: 1,
                    ..self.metrics
                },
                ..self
            }
        }
    }

    /// After the sweep task took the pending tick.
    pub open spec fn taken(self) -> Self {
        if self.running && self.pending is Some {
            SweepModel {
                running: self.pending != Some(PoolSweepTick::Shutdown),
                pending: None,
                metrics: PoolSweepMetrics { queue_depth: 0, ..self.metrics },
                ..self
            }
        } else {
            self
        }
    }

    /// After a sweep expired `expired` leases.
    pub open spec fn swept(self, expired: nat) -> Self {
        SweepModel {
            metrics: PoolSweepMetrics {
                sweeps_completed: arith::counted(self.metrics.sweeps_completed, 1),
                leases_expired: arith::counted(self.metrics.leases_expired, expired as int),
                sweeps_empty: if expired == 0 {
                    arith::counted(self.metrics.sweeps_empty, 1)
                } else {
                    self.metrics.sweeps_empty
                },
                ..self.metrics
            },
            ..self
        }
    }

    /// After `closed` sessions were closed.
    pub open spec fn with_closed(self, closed: nat) -> Self {
        SweepModel {
            metrics: PoolSweepMetrics {
                sessions_closed: arith::counted(self.metrics.sessions_closed, closed as int),
                ..self.metrics
            },
            ..self
        }
    }

    /// What a stop asks for.
    pub open spec fn stop_step(self) -> SweepStop {
        if !self.joinable {
            SweepStop::Stopped
        } else if self.running && self.pending is None {
            SweepStop::Join
        } else {
            SweepStop::Abort
        }
    }

    /// After a stop.
    pub open spec fn stopped(self) -> Self {
        SweepModel {
            ticking: false,
            joinable: false,
            running: self.running && self.stop_step() != SweepStop::Abort,
            pending: if self.running && self.pending is None {
                Some(PoolSweepTick::Shutdown)
            } else {
                self.pending
            },
            ..self
        }
    }
}

/// How a stop ends the sweep task.
#[derive(Debug, Clone, Copy, PartialEq, Eq, Structural)]
pub enum SweepStop {
    /// A shutdown tick is queued: join the task with a bounded deadline.
    Join,
    /// The queue is full or closed: abort the task.
    Abort,
    /// It was stopped before.
    Stopped,
}

/// The supervised sweep: a ticker, a queue that holds one tick, and a task
/// that sweeps the pool and closes the sessions of expired leases.
#[derive(Debug)]
pub struct SupervisedPoolSweep {
    config: PoolSweepConfig,
    closes_sessions: bool,
    ticking: bool,
    running: bool,
    joinable: bool,
    pending: Option<PoolSweepTick>,
    metrics: PoolSweepMetrics,
}

impl View for SupervisedPoolSweep {
    type V = SweepModel;

    closed spec fn view(&self) -> SweepModel {
        SweepModel {
            closes_sessions: self.closes_sessions,
            ticking: self.ticking,
            running: self.running,
            joinable: self.joinable,
            pending: self.pending,
            metrics: self.metrics,
        }
    }
}

impl SupervisedPoolSweep {
    pub closed spec fn settings(&self) -> PoolSweepConfig {
        self.config
    }

    fn start(config: PoolSweepConfig, closes_sessions: bool) -> (sweep: Self)
        ensures
            sweep.settings() == config,
            sweep@ == (SweepModel {
                closes_sessions,
                ticking: true,
                running: true,
                joinable: true,
                pending: None,
                metrics: PoolSweepMetrics::zero(),
            }),
    {
        SupervisedPoolSweep {
            config,
            closes_sessions,
            ticking: true,
            running: true,
            joinable: true,
            pending: None,
            metrics: PoolSweepMetrics::default(),
        }
    }

    /// A sweep that leaves closing sessions to the caller.
    pub fn spawn(config: PoolSweepConfig) -> (sweep: Self)
        ensures
            sweep.settings() == config,
            sweep@ == (SweepModel {
                closes_sessions: false,
                ticking: true,
                running: true,
                joinable: true,
                pending: None,
                metrics: PoolSweepMetrics::zero(),
            }),
    {
        Self::start(config, false)
    }

    /// A sweep that also closes the sessions of expired leases.
    pub fn spawn_with_sessions(config: PoolSweepConfig) -> (sweep: Self)
        ensures
            sweep.settings() == config,
            sweep@ == (SweepModel {
                closes_sessions: true,
                ticking: true,
                running: true,
                joinable: true,
                pending: None,
                metrics: PoolSweepMetrics::zero(),
            }),
    {
        Self::start(config, true)
    }

    /// The ticker fired. Says whether it is to go on.
    pub fn tick(&mut self) -> (go_on: bool)
        ensures
            final(self)@ == old(self)@.ticked(),
            go_on == old(self)@.running,
            final(self).settings() == old(self).settings(),
    {
        if !self.running {
            self.ticking = false;
            return false;
        }
        if self.pending.is_some() {
            self.metrics.ticks_dropped = count(self.metrics.ticks_dropped, 1);
        } else {
            self.pending = Some(PoolSweepTick::Sweep);
            self.metrics.ticks_queued = count(self.metrics.ticks_queued, 1);
            self.metrics.queue_depth = 1;
        }
        true
    }

    /// The sweep task takes the pending tick. A shutdown ends it.
    pub fn take_tick(&mut self) -> (tick: Option<PoolSweepTick>)
        ensures
            final(self)@ == old(self)@.taken(),
            tick == if old(self)@.running {
                old(self)@.pending
            } else {
                None
            },
            final(self).settings() == old(self).settings(),
    {
        if !self.running {
            return None;
        }
        match self.pending {
            None => None,
            Some(tick) => {
                self.pending = None;
                self.metrics.queue_depth = 0;
                if tick == PoolSweepTick::Shutdown {
                    self.running = false;
                }
                Some(tick)
            },
        }
    }

    /// A sweep expired these leases. Hands back the sessions to close.
    pub fn end_sweep(&mut self, expired: Vec<SessionId>) -> (to_close: Vec<SessionId>)
        ensures
            final(self)@ == old(self)@.swept(expired@.len()),
            to_close@ == if old(self)@.closes_sessions {
                expired@
            } else {
                Seq::empty()
            },
            final(self).settings() == old(self).settings(),
    {
        let expired_count: u64 = expired.len() as u64;
        self.metrics.sweeps_completed = count(self.metrics.sweeps_completed, 1);
        self.metrics.leases_expired = count(self.metrics.leases_expired, expired_count);
        if expired_count == 0 {
            self.metrics.sweeps_empty = count(self.metrics.sweeps_empty, 1);
        }
        if self.closes_sessions {
            expired
        } else {
            Vec::new()
        }
    }

    /// Which of those sessions there were to close.
    pub fn sessions_closed(&mut self, closed: &Vec<bool>)
        ensures
            final(self)@ == old(self)@.with_closed(arith::flagged(closed@)),
            final(self).settings() == old(self).settings(),
    {
        let total: u64 = count_flags(closed);
        self.metrics.sessions_closed = count(self.metrics.sessions_closed, total);
    }

    /// Stops the ticker and asks the task to end: by a shutdown tick where the
    /// queue takes one, and by aborting it otherwise. Idempotent.
    pub fn stop(&mut self) -> (stop: SweepStop)
        ensures
            stop == old(self)@.stop_step(),
            final(self)@ == old(self)@.stopped(),
            final(self).settings() == old(self).settings(),
    {
        self.ticking = false;
        let queued = self.running && self.pending.is_none();
        if queued {
            self.pending = Some(PoolSweepTick::Shutdown);
        }
        if !self.joinable {
            return SweepStop::Stopped;
        }
        self.joinable = false;
        if queued {
            SweepStop::Join
        } else {
            self.running = false;
            SweepStop::Abort
        }
    }

    pub fn metrics_snapshot(&self) -> (metrics: PoolSweepMetrics)
        ensures
            metrics == self@.metrics,
    {
        self.metrics
    }

    pub fn config(&self) -> (config: PoolSweepConfig)
        ensures
            config == self.settings(),
    {
        self.config
    }
}

/// A tick finds room or is counted as dropped, so the queue never holds more
/// than one; the pending tick survives the ones that come after it.
pub proof fn law_ticks_coalesce(sweep: SweepModel)
    requires
        sweep.wf(),
        sweep.running,
    ensures
        sweep.ticked().wf(),
        sweep.ticked().pending is Some,
        sweep.ticked().ticked().pending == sweep.ticked().pending,
        sweep.ticked().ticked().metrics.ticks_queued == sweep.ticked().metrics.ticks_queued,
        sweep.ticked().ticked().metrics.ticks_dropped == arith::counted(
            sweep.ticked().metrics.ticks_dropped,
            1,
        ),
        sweep.ticked().taken().wf(),
        sweep.ticked().taken().pending is None,
{
}

/// Stopping twice is stopping once: the second stop changes no count, finds
/// nothing to join, and no tick is queued after a stop.
pub proof fn law_stop_is_idempotent(sweep: SweepModel)
    ensures
        sweep.stopped().stop_step() == SweepStop::Stopped,
        sweep.stopped().metrics == sweep.metrics,
        sweep.stopped().stopped() == sweep.stopped(),
        sweep.stopped().ticked().metrics.ticks_queued == sweep.metrics.ticks_queued,
{
}

/// Sweeps may be a millisecond to an hour apart, and the shorter interval comes first.
pub proof fn law_sweep_intervals(
    min_interval_ms: u64,
    max_interval_ms: u64,
    config: Option<PoolSweepConfig>,
)
    requires
        call_ensures(PoolSweepConfig::new, (min_interval_ms, max_interval_ms), config),
    ensures
        config is Some <==> 1 <= min_interval_ms && min_interval_ms <= max_interval_ms
            && max_interval_ms <= 3_600_000,
        config matches Some(config) ==> config.intervals().0 == min_interval_ms
            && config.intervals().1 == max_interval_ms,
{
}

/// A tick is queued where the queue is empty, dropped where it is not, and ends the
/// ticker where the task has ended.
pub proof fn law_ticks_are_queued(sweep: SweepModel)
    requires
        sweep.metrics.ticks_queued < u64::MAX,
        sweep.metrics.ticks_dropped < u64::MAX,
    ensures
        !sweep.running ==> sweep.ticked() == (SweepModel { ticking: false, ..sweep }),
        sweep.running && sweep.pending is None ==> sweep.ticked() == (SweepModel {
            pending: Some(PoolSweepTick::Sweep),
            metrics: PoolSweepMetrics {
                ticks_queued: (sweep.metrics.ticks_queued + 1) as u64,
                queue_depth: 1,
                ..sweep.metrics
            },
            ..sweep
        }),
        sweep.running && sweep.pending is Some ==> sweep.ticked() == (SweepModel {
            metrics: PoolSweepMetrics {
                ticks_dropped: (sweep.metrics.ticks_dropped + 1) as u64,
                ..sweep.metrics
            },
            ..sweep
        }),
{
}

/// A pending tick is taken once, and leaves the queue empty; a shutdown ends the task.
pub proof fn law_ticks_are_taken_once(sweep: SweepModel)
    ensures
        sweep.running && sweep.pending is Some ==> {
            &&& sweep.taken().pending is None
            &&& sweep.taken().metrics.queue_depth == 0
            &&& sweep.taken().running <==> sweep.pending->0 is Sweep
            &&& sweep.taken().taken() == sweep.taken()
        },
        !sweep.running || sweep.pending is None ==> sweep.taken() == sweep,
        sweep.taken().closes_sessions == sweep.closes_sessions,
        sweep.taken().ticking == sweep.ticking,
        sweep.taken().joinable == sweep.joinable,
{
}

/// A sweep is counted with the leases that it expired, and as empty where there were
/// none; the sessions that were closed are counted apart.
pub proof fn law_sweeps_are_counted(sweep: SweepModel, expired: nat, closed: nat)
    requires
        sweep.metrics.sweeps_completed < u64::MAX,
        sweep.metrics.sweeps_empty < u64::MAX,
        sweep.metrics.leases_expired + expired <= u64::MAX,
        sweep.metrics.sessions_closed + closed <= u64::MAX,
    ensures
        sweep.swept(expired) == (SweepModel {
            metrics: PoolSweepMetrics {
                sweeps_completed: (sweep.metrics.sweeps_completed + 1) as u64,
                leases_expired: (sweep.metrics.leases_expired + expired) as u64,
                sweeps_empty: (sweep.metrics.sweeps_empty + if expired == 0 {
                    1int
                } else {
                    0
                }) as u64,
                ..sweep.metrics
            },
            ..sweep
        }),
        sweep.with_closed(closed) == (SweepModel {
            metrics: PoolSweepMetrics {
                sessions_closed: (sweep.metrics.sessions_closed + closed) as u64,
                ..sweep.metrics
            },
            ..sweep
        }),
{
}

/// A stop joins the task where a shutdown can be queued for it, and aborts it where
/// none can; a task that was stopped before is left alone.
pub proof fn law_stops_end_the_task(sweep: SweepModel)
    ensures
        !sweep.stopped().ticking,
        !sweep.stopped().joinable,
        !sweep.joinable ==> sweep.stop_step() is Stopped,
        sweep.joinable && sweep.running && sweep.pending is None ==> {
            &&& sweep.stop_step() is Join
            &&& sweep.stopped().running
            &&& sweep.stopped().pending == Some(PoolSweepTick::Shutdown)
            &&& !sweep.stopped().taken().running
        },
        sweep.joinable && !(sweep.running && sweep.pending is None) ==> {
            &&& sweep.stop_step() is Abort
            &&& !sweep.stopped().running
        },
{
}

/// Before its first tick a sweep task has counted nothing and nothing is queued.
pub proof fn law_sweep_tasks_begin_with_nothing_counted()
    ensures
        ({
            let z = PoolSweepMetrics::zero();
            &&& z.sweeps_completed == 0
            &&& z.leases_expired == 0
            &&& z.sessions_closed == 0
            &&& z.sweeps_empty == 0
            &&& z.ticks_queued == 0
            &&& z.ticks_dropped == 0
            &&& z.queue_depth == 0
        }),
{
}

} // verus!
