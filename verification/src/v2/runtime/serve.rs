//! The bounded accept loop.
use super::super::address_pool::AddressPoolSnapshot;
use super::super::listener::V2AdmissionListenerError;
use super::control_task::ControlTaskOutcome;
use super::error::V2GatewayRuntimeError;
use super::start::{StartFlow, StartStep};
use crate::arith;
use crate::arith::count;
use vstd::prelude::*;

verus! {

/// Counts of the runtime, with the occupancy of the state behind it.
#[derive(Debug, Clone, Copy, PartialEq, Eq, Structural)]
pub struct V2GatewayRuntimeSnapshot {
    pub accepted: u64,
    pub refused_full: u64,
    pub control_tasks_completed: u64,
    pub control_tasks_failed: u64,
    pub admission_failures: u64,
    pub control_tasks_running: usize,
    pub maximum_connections: usize,
    pub sessions: usize,
    pub pool_active: usize,
    pub pool_pending: usize,
}

/// Final metrics. `S` is what the supervised sweeps report.
#[derive(Debug)]
pub struct V2GatewayRuntimeStopMetrics<S> {
    pub runtime: V2GatewayRuntimeSnapshot,
    pub setup: S,
    pub sessions_closed: usize,
}

/// What the accept loop does next.
#[derive(Debug, Clone, Copy, PartialEq, Eq, Structural)]
pub enum RunStep {
    /// Leave the loop.
    Leave,
    /// Wait for a control task to end, or for shutdown.
    AwaitTask,
    /// Wait for an admission or for shutdown, and for a control task where
    /// one runs.
    AwaitAdmission { tasks_running: bool },
}

/// What becomes of an admitted connection.
#[derive(Debug, Clone, Copy, PartialEq, Eq, Structural)]
pub enum AdmittedStep {
    /// A control task takes it.
    Spawn,
    /// Its session is closed and its lease released.
    Unwind,
}

/// What joining a control task gave.
#[derive(Debug, Clone, Copy, PartialEq, Eq, Structural)]
pub enum JoinedTask {
    /// There was none to join.
    Nothing,
    /// It panicked or was aborted.
    Crashed,
    Ended(ControlTaskOutcome),
}

/// How often what happened.
#[derive(Debug, Clone, Copy, PartialEq, Eq, Structural)]
pub struct RuntimeMetrics {
    pub accepted: u64,
    pub refused_full: u64,
    pub control_tasks_completed: u64,
    pub control_tasks_failed: u64,
    pub admission_failures: u64,
}

/// The state of the runtime.
pub struct RuntimeModel {
    pub maximum_connections: usize,
    pub maximum_control_messages_per_connection: u64,
    pub running: nat,
    pub shutdown: bool,
    pub metrics: RuntimeMetrics,
}

impl RuntimeModel {
    pub open spec fn fresh(maximum_connections: usize, maximum_messages: u64) -> Self {
        RuntimeModel {
            maximum_connections,
            maximum_control_messages_per_connection: maximum_messages,
            running: 0,
            shutdown: false,
            metrics: RuntimeMetrics {
                accepted: 0,
                refused_full: 0,
                control_tasks_completed: 0,
                control_tasks_failed: 0,
                admission_failures: 0,
            },
        }
    }

    /// No more tasks run than may, and none after shutdown.
    pub open spec fn wf(self) -> bool {
        &&& self.running <= self.maximum_connections
        &&& self.shutdown ==> self.running == 0
    }

    /// Every task that was spawned still runs or was counted as ended.
    pub open spec fn accounted(self) -> bool {
        self.metrics.accepted as int == (self.metrics.control_tasks_completed
            + self.metrics.control_tasks_failed + self.running) % 0x1_0000_0000_0000_0000
    }

    pub open spec fn step(self) -> RunStep {
        if self.shutdown {
            RunStep::Leave
        } else if self.running >= self.maximum_connections {
            RunStep::AwaitTask
        } else {
            RunStep::AwaitAdmission { tasks_running: self.running > 0 }
        }
    }

    pub open spec fn admitted_step(self) -> AdmittedStep {
        if self.running >= self.maximum_connections {
            AdmittedStep::Unwind
        } else {
            AdmittedStep::Spawn
        }
    }

    /// After an admission.
    pub open spec fn admitted(self) -> Self {
        match self.admitted_step() {
            AdmittedStep::Spawn => RuntimeModel {
                running: self.running + 1,
                metrics: RuntimeMetrics {
                    accepted: arith::counted(self.metrics.accepted, 1),
                    ..self.metrics
                },
                ..self
            },
            AdmittedStep::Unwind => RuntimeModel {
                metrics: RuntimeMetrics {
                    refused_full: arith::counted(self.metrics.refused_full, 1),
                    ..self.metrics
                },
                ..self
            },
        }
    }

    /// After an admission that failed.
    pub open spec fn admission_failed(self) -> Self {
        RuntimeModel {
            metrics: RuntimeMetrics {
                admission_failures: arith::counted(self.metrics.admission_failures, 1),
                ..self.metrics
            },
            ..self
        }
    }

    /// After joining.
    pub open spec fn joined(self, joined: JoinedTask) -> Self {
        match joined {
            JoinedTask::Nothing => self,
            JoinedTask::Ended(outcome) if outcome.completed => RuntimeModel {
                running: (self.running - 1) as nat,
                metrics: RuntimeMetrics {
                    control_tasks_completed: arith::counted(
                        self.metrics.control_tasks_completed,
                        1,
                    ),
                    ..self.metrics
                },
                ..self
            },
            _ => RuntimeModel {
                running: (self.running - 1) as nat,
                metrics: RuntimeMetrics {
                    control_tasks_failed: arith::counted(self.metrics.control_tasks_failed, 1),
                    ..self.metrics
                },
                ..self
            },
        }
    }

    /// After shutdown: tasks are aborted and joined uncounted.
    pub open spec fn stopped(self) -> Self {
        RuntimeModel { running: 0, shutdown: true, ..self }
    }
}

/// The runtime: which connections are driven, and how often what happened. It
/// has no text form but its snapshot.
pub struct V2GatewayRuntime {
    maximum_connections: usize,
    maximum_control_messages_per_connection: u64,
    running: usize,
    shutdown: bool,
    metrics: RuntimeMetrics,
}

impl View for V2GatewayRuntime {
    type V = RuntimeModel;

    closed spec fn view(&self) -> RuntimeModel {
        RuntimeModel {
            maximum_connections: self.maximum_connections,
            maximum_control_messages_per_connection: self.maximum_control_messages_per_connection,
            running: self.running as nat,
            shutdown: self.shutdown,
            metrics: self.metrics,
        }
    }
}

impl V2GatewayRuntime {
    pub open spec fn wf(&self) -> bool {
        self@.wf()
    }

    /// The runtime, once its start is decided.
    pub fn start(
        flow: &StartFlow,
        maximum_connections: usize,
        maximum_control_messages_per_connection: u64,
    ) -> (result: Result<Self, V2GatewayRuntimeError>)
        requires
            flow.next() is Finished,
        ensures
            match flow.next() {
                StartStep::Finished(Err(error)) => result matches Err(e) && e == error,
                _ => result matches Ok(runtime) && runtime.wf() && runtime@ == RuntimeModel::fresh(
                    maximum_connections,
                    maximum_control_messages_per_connection,
                ),
            },
    {
        match flow.step() {
            StartStep::Finished(Err(error)) => Err(error),
            _ => Ok(
                V2GatewayRuntime {
                    maximum_connections,
                    maximum_control_messages_per_connection,
                    running: 0,
                    shutdown: false,
                    metrics: RuntimeMetrics {
                        accepted: 0,
                        refused_full: 0,
                        control_tasks_completed: 0,
                        control_tasks_failed: 0,
                        admission_failures: 0,
                    },
                },
            ),
        }
    }

    /// What the accept loop does next.
    pub fn run(&self) -> (step: RunStep)
        ensures
            step == self@.step(),
    {
        if self.shutdown {
            RunStep::Leave
        } else if self.running >= self.maximum_connections {
            RunStep::AwaitTask
        } else {
            RunStep::AwaitAdmission { tasks_running: self.running > 0 }
        }
    }

    /// How many requests a control task may answer.
    pub fn maximum_control_messages_per_connection(&self) -> (maximum: u64)
        ensures
            maximum == self@.maximum_control_messages_per_connection,
    {
        self.maximum_control_messages_per_connection
    }

    /// A connection was admitted.
    pub fn admitted(&mut self) -> (step: AdmittedStep)
        requires
            old(self).wf(),
            !old(self)@.shutdown,
        ensures
            final(self).wf(),
            step == old(self)@.admitted_step(),
            final(self)@ == old(self)@.admitted(),
    {
        if self.running >= self.maximum_connections {
            self.metrics.refused_full = count(self.metrics.refused_full, 1);
            AdmittedStep::Unwind
        } else {
            self.running = self.running + 1;
            self.metrics.accepted = count(self.metrics.accepted, 1);
            AdmittedStep::Spawn
        }
    }

    /// An admission failed. `true` where the loop goes on: it ends at shutdown
    /// and when the endpoint closes.
    pub fn admission_failed(&mut self, error: V2AdmissionListenerError) -> (go_on: bool)
        requires
            old(self).wf(),
        ensures
            final(self).wf(),
            final(self)@ == old(self)@.admission_failed(),
            go_on == (!old(self)@.shutdown && error != V2AdmissionListenerError::EndpointClosed),
    {
        self.metrics.admission_failures = count(self.metrics.admission_failures, 1);
        !self.shutdown && error != V2AdmissionListenerError::EndpointClosed
    }

    /// Counts how a control task ended.
    pub fn record_task_outcome(&mut self, joined: JoinedTask)
        requires
            old(self).wf(),
            joined == JoinedTask::Nothing || old(self)@.running > 0,
        ensures
            final(self).wf(),
            final(self)@ == old(self)@.joined(joined),
    {
        match joined {
            JoinedTask::Nothing => {},
            JoinedTask::Crashed => {
                self.running = self.running - 1;
                self.metrics.control_tasks_failed = count(self.metrics.control_tasks_failed, 1);
            },
            JoinedTask::Ended(outcome) => {
                self.running = self.running - 1;
                if outcome.completed {
                    self.metrics.control_tasks_completed = count(
                        self.metrics.control_tasks_completed,
                        1,
                    );
                } else {
                    self.metrics.control_tasks_failed = count(
                        self.metrics.control_tasks_failed,
                        1,
                    );
                }
            },
        }
    }

    /// How many control tasks run.
    pub fn running(&self) -> (running: usize)
        ensures
            running == self@.running,
    {
        self.running
    }

    /// Signals shutdown. Control tasks are to be aborted and joined.
    pub fn stop(&mut self)
        ensures
            final(self).wf(),
            final(self)@ == old(self)@.stopped(),
    {
        self.shutdown = true;
        self.running = 0;
    }

    /// The counts, with the sessions and leases there are.
    pub fn snapshot(&self, sessions: usize, pool: &AddressPoolSnapshot) -> (snapshot:
        V2GatewayRuntimeSnapshot)
        ensures
            snapshot.accepted == self@.metrics.accepted,
            snapshot.refused_full == self@.metrics.refused_full,
            snapshot.control_tasks_completed == self@.metrics.control_tasks_completed,
            snapshot.control_tasks_failed == self@.metrics.control_tasks_failed,
            snapshot.admission_failures == self@.metrics.admission_failures,
            snapshot.control_tasks_running == self@.running,
            snapshot.maximum_connections == self@.maximum_connections,
            snapshot.sessions == sessions,
            snapshot.pool_active == pool.active,
            snapshot.pool_pending == pool.pending,
    {
        V2GatewayRuntimeSnapshot {
            accepted: self.metrics.accepted,
            refused_full: self.metrics.refused_full,
            control_tasks_completed: self.metrics.control_tasks_completed,
            control_tasks_failed: self.metrics.control_tasks_failed,
            admission_failures: self.metrics.admission_failures,
            control_tasks_running: self.running,
            maximum_connections: self.maximum_connections,
            sessions,
            pool_active: pool.active,
            pool_pending: pool.pending,
        }
    }
}

/// No event of the accept loop lets more control tasks run than may.
pub proof fn law_control_tasks_stay_within_bound(runtime: RuntimeModel, joined: JoinedTask)
    requires
        runtime.wf(),
        joined == JoinedTask::Nothing || runtime.running > 0,
    ensures
        runtime.admitted().running <= runtime.maximum_connections,
        runtime.admission_failed().running <= runtime.maximum_connections,
        runtime.joined(joined).running <= runtime.maximum_connections,
        runtime.stopped().running <= runtime.maximum_connections,
        runtime.admitted().maximum_connections == runtime.maximum_connections,
        runtime.joined(joined).maximum_connections == runtime.maximum_connections,
{
}

/// Until shutdown every control task that was spawned still runs or was
/// counted, once, as completed or as failed.
pub proof fn law_control_tasks_are_accounted_for(runtime: RuntimeModel, joined: JoinedTask)
    requires
        runtime.wf(),
        runtime.accounted(),
        joined == JoinedTask::Nothing || runtime.running > 0,
    ensures
        RuntimeModel::fresh(
            runtime.maximum_connections,
            runtime.maximum_control_messages_per_connection,
        ).accounted(),
        runtime.admitted().accounted(),
        runtime.admission_failed().accounted(),
        runtime.joined(joined).accounted(),
{
}

/// An admission that finds no free slot leaves the running tasks alone and is
/// counted as refused.
pub proof fn law_full_runtime_refuses(runtime: RuntimeModel)
    requires
        runtime.wf(),
        runtime.running == runtime.maximum_connections,
    ensures
        runtime.admitted_step() == AdmittedStep::Unwind,
        runtime.admitted().running == runtime.running,
        runtime.admitted().metrics.accepted == runtime.metrics.accepted,
        runtime.admitted().metrics.refused_full == arith::counted(runtime.metrics.refused_full, 1),
{
}

/// Stopping twice is stopping once, and a stopped runtime only leaves.
pub proof fn law_stop_is_idempotent(runtime: RuntimeModel)
    ensures
        runtime.stopped().stopped() == runtime.stopped(),
        runtime.stopped().step() == RunStep::Leave,
        runtime.stopped().metrics == runtime.metrics,
{
}

/// The accept loop waits for an admission as long as there is a free slot, for a task
/// to end where there is none, and for nothing once it was stopped.
pub proof fn law_free_slots_are_offered(runtime: RuntimeModel)
    ensures
        runtime.shutdown ==> runtime.step() == RunStep::Leave,
        !runtime.shutdown && runtime.running < runtime.maximum_connections ==> runtime.step() == (
        RunStep::AwaitAdmission { tasks_running: runtime.running > 0 }),
        !runtime.shutdown && runtime.running >= runtime.maximum_connections ==> runtime.step()
            == RunStep::AwaitTask,
{
}

/// A connection that is admitted while a slot is free gets a task of its own.
pub proof fn law_admitted_connections_are_driven(runtime: RuntimeModel)
    requires
        runtime.running < runtime.maximum_connections,
        runtime.metrics.accepted < u64::MAX,
    ensures
        runtime.admitted_step() == AdmittedStep::Spawn,
        runtime.admitted() == (RuntimeModel {
            running: runtime.running + 1,
            metrics: RuntimeMetrics {
                accepted: (runtime.metrics.accepted + 1) as u64,
                ..runtime.metrics
            },
            ..runtime
        }),
{
}

/// A task that ended frees its slot and is counted once: as completed where it had
/// answered all it may, and as failed where it had not or crashed. Where none ended
/// nothing changes, and a failed admission is only counted.
pub proof fn law_ended_tasks_free_their_slots(runtime: RuntimeModel, joined: JoinedTask)
    requires
        joined is Nothing || runtime.running > 0,
        runtime.metrics.control_tasks_completed < u64::MAX,
        runtime.metrics.control_tasks_failed < u64::MAX,
        runtime.metrics.admission_failures < u64::MAX,
    ensures
        joined is Nothing ==> runtime.joined(joined) == runtime,
        joined matches JoinedTask::Ended(outcome) ==> runtime.joined(joined) == if outcome.completed
        {
            RuntimeModel {
                running: (runtime.running - 1) as nat,
                metrics: RuntimeMetrics {
                    control_tasks_completed: (runtime.metrics.control_tasks_completed + 1) as u64,
                    ..runtime.metrics
                },
                ..runtime
            }
        } else {
            RuntimeModel {
                running: (runtime.running - 1) as nat,
                metrics: RuntimeMetrics {
                    control_tasks_failed: (runtime.metrics.control_tasks_failed + 1) as u64,
                    ..runtime.metrics
                },
                ..runtime
            }
        },
        joined is Crashed ==> runtime.joined(joined) == (RuntimeModel {
            running: (runtime.running - 1) as nat,
            metrics: RuntimeMetrics {
                control_tasks_failed: (runtime.metrics.control_tasks_failed + 1) as u64,
                ..runtime.metrics
            },
            ..runtime
        }),
        runtime.admission_failed() == (RuntimeModel {
            metrics: RuntimeMetrics {
                admission_failures: (runtime.metrics.admission_failures + 1) as u64,
                ..runtime.metrics
            },
            ..runtime
        }),
{
}

/// A runtime begins with nothing running and nothing counted.
pub proof fn law_runtimes_begin_at_rest(maximum_connections: usize, maximum_messages: u64)
    ensures
        ({
            let m = RuntimeModel::fresh(maximum_connections, maximum_messages);
            &&& m.maximum_connections == maximum_connections
            &&& m.maximum_control_messages_per_connection == maximum_messages
            &&& m.running == 0
            &&& !m.shutdown
            &&& m.metrics.accepted == 0
            &&& m.metrics.refused_full == 0
            &&& m.metrics.control_tasks_completed == 0
            &&& m.metrics.control_tasks_failed == 0
            &&& m.metrics.admission_failures == 0
        }),
{
}

} // verus!
