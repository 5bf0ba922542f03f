//! One admitted control stream, driven to its bounded end.
use vstd::prelude::*;

verus! {

/// How a control task ended.
#[derive(Debug, Clone, Copy, PartialEq, Eq, Structural)]
pub struct ControlTaskOutcome {
    /// How many requests were answered.
    pub messages: u64,
    /// Whether it ended because it had answered as many as it may.
    pub completed: bool,
}

/// A control task: at most so many requests, and none after a failure.
pub struct ControlTask {
    messages: u64,
    max_messages: u64,
    failed: bool,
}

/// The state of a control task.
pub struct ControlTaskModel {
    pub messages: u64,
    pub max_messages: u64,
    pub failed: bool,
}

impl ControlTaskModel {
    /// How it ended, if it did.
    pub open spec fn outcome(self) -> Option<ControlTaskOutcome> {
        if self.failed {
            Some(ControlTaskOutcome { messages: self.messages, completed: false })
        } else if self.messages >= self.max_messages {
            Some(ControlTaskOutcome { messages: self.messages, completed: true })
        } else {
            None
        }
    }

    /// After one more request.
    pub open spec fn handled(self, worked: bool) -> Self {
        if worked {
            ControlTaskModel { messages: (self.messages + 1) as u64, ..self }
        } else {
            ControlTaskModel { failed: true, ..self }
        }
    }

    /// After some requests. Nothing is handled once the task has ended.
    pub open spec fn after(self, worked: Seq<bool>) -> Self
        decreases worked.len(),
    {
        if worked.len() == 0 {
            self
        } else {
            let before = self.after(worked.drop_last());
            if before.outcome() is None {
                before.handled(worked.last())
            } else {
                before
            }
        }
    }
}

impl View for ControlTask {
    type V = ControlTaskModel;

    closed spec fn view(&self) -> ControlTaskModel {
        ControlTaskModel {
            messages: self.messages,
            max_messages: self.max_messages,
            failed: self.failed,
        }
    }
}

impl ControlTask {
    pub fn begin(max_messages: u64) -> (task: Self)
        ensures
            task@ == (ControlTaskModel { messages: 0, max_messages, failed: false }),
    {
        ControlTask { messages: 0, max_messages, failed: false }
    }

    /// How the task ended; `None` while the next request is to be handled.
    pub fn outcome(&self) -> (outcome: Option<ControlTaskOutcome>)
        ensures
            outcome == self@.outcome(),
    {
        if self.failed {
            Some(ControlTaskOutcome { messages: self.messages, completed: false })
        } else if self.messages >= self.max_messages {
            Some(ControlTaskOutcome { messages: self.messages, completed: true })
        } else {
            None
        }
    }

    /// Takes whether the request was answered.
    pub fn handled(&mut self, worked: bool)
        requires
            old(self)@.outcome() is None,
        ensures
            final(self)@ == old(self)@.handled(worked),
    {
        if worked {
            self.messages = self.messages + 1;
        } else {
            self.failed = true;
        }
    }
}

/// However requests turn out, a task answers no more of them than it may, and
/// one that completed answered exactly that many.
pub proof fn law_control_tasks_are_bounded(max_messages: u64, worked: Seq<bool>)
    ensures
        ({
            let task = (ControlTaskModel { messages: 0, max_messages, failed: false }).after(worked);
            &&& task.messages <= max_messages
            &&& task.max_messages == max_messages
            &&& task.messages <= worked.len()
            &&& (task.outcome() matches Some(outcome) ==> outcome.completed ==> outcome.messages
                == max_messages)
        }),
    decreases worked.len(),
{
    if worked.len() > 0 {
        law_control_tasks_are_bounded(max_messages, worked.drop_last());
    }
}

/// A task goes on while its requests are answered and it may answer more. As soon
/// as it has answered as many as it may it has completed, and as soon as one fails it
/// has ended with those that were answered before.
pub proof fn law_control_tasks_go_on(max_messages: u64, answered: Seq<bool>)
    requires
        answered.len() <= max_messages,
        forall|i: int| 0 <= i < answered.len() ==> #[trigger] answered[i],
    ensures
        ({
            let task = (ControlTaskModel { messages: 0, max_messages, failed: false }).after(
                answered,
            );
            &&& task.messages == answered.len()
            &&& answered.len() < max_messages ==> task.outcome() is None
            &&& answered.len() < max_messages ==> task.handled(false).outcome() == Some(
                ControlTaskOutcome { messages: answered.len() as u64, completed: false },
            )
            &&& answered.len() == max_messages ==> task.outcome() == Some(
                ControlTaskOutcome { messages: max_messages, completed: true },
            )
            &&& !task.failed
            &&& task.max_messages == max_messages
        }),
    decreases answered.len(),
{
    if answered.len() > 0 {
        assert forall|i: int| 0 <= i < answered.len() - 1 implies #[trigger] answered.drop_last()[i]
            by {
            assert(answered[i]);
        }
        law_control_tasks_go_on(max_messages, answered.drop_last());
        assert(answered[answered.len() - 1]);
    }
}

} // verus!
