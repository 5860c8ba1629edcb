//! Starting the gateway channel, shutting it down, and whether it is healthy.

use vstd::prelude::*;
use crate::gateway::channel::{health, health_check, outcome_view};
use crate::gateway::types::{ChannelError, ChannelErrorView, CHANNEL_NAME};

verus! {

/// Where a channel stands. Its task is there exactly while it runs.
#[derive(Debug, Clone, Copy)]
pub enum Lifecycle {
    NeverStarted,
    Running,
    ShutDown,
}

/// What is done to a channel.
#[derive(Debug, Clone, Copy)]
pub enum LifecycleStep {
    Start,
    Shutdown,
}

/// Where a channel stands after a step.
pub open spec fn after_step(step: LifecycleStep) -> Lifecycle {
    match step {
        LifecycleStep::Start => Lifecycle::Running,
        LifecycleStep::Shutdown => Lifecycle::ShutDown,
    }
}

/// Where a new channel stands after these steps.
pub open spec fn after_steps(steps: Seq<LifecycleStep>) -> Lifecycle {
    if steps.len() == 0 {
        Lifecycle::NeverStarted
    } else {
        after_step(steps.last())
    }
}

/// The task of a channel: none unless it runs, and otherwise whether it has finished.
pub open spec fn task_of(lifecycle: Lifecycle, task_finished: bool) -> Option<bool> {
    if lifecycle is Running {
        Some(task_finished)
    } else {
        None
    }
}

/// A start came, and no shutdown after it.
pub open spec fn is_started(steps: Seq<LifecycleStep>) -> bool {
    exists|i: int|
        0 <= i < steps.len() && (#[trigger] steps[i]) is Start && forall|j: int|
            i < j < steps.len() ==> !((#[trigger] steps[j]) is Shutdown)
}

impl Lifecycle {
    /// A channel that is made and not started.
    pub fn new() -> (r: Lifecycle)
        ensures
            r == after_steps(Seq::empty()),
    {
        Lifecycle::NeverStarted
    }

    /// The channel is started, anew where it was before.
    pub fn start(&mut self)
        ensures
            *final(self) == after_step(LifecycleStep::Start),
    {
        *self = Lifecycle::Running;
    }

    /// The channel is shut down.
    pub fn shutdown(&mut self)
        ensures
            *final(self) == after_step(LifecycleStep::Shutdown),
    {
        *self = Lifecycle::ShutDown;
    }

    /// Whether the channel is healthy: it runs, and its task has not finished.
    pub fn health_check(&self, task_finished: bool) -> (r: Result<(), ChannelError>)
        ensures
            outcome_view(r) == health(task_of(*self, task_finished)),
    {
        match self {
            Lifecycle::Running => health_check(Some(task_finished)),
            _ => health_check(None),
        }
    }
}

/// A channel whose task has not finished is healthy exactly where it was started and not
/// shut down since; otherwise its health check fails under its name.
pub proof fn healthy_exactly_while_started(steps: Seq<LifecycleStep>)
    ensures
        health(task_of(after_steps(steps), false)) == if is_started(steps) {
            Ok::<(), ChannelErrorView>(())
        } else {
            Err(ChannelErrorView::HealthCheckFailed { name: CHANNEL_NAME@ })
        },
{
    if steps.len() > 0 {
        let last = steps.len() - 1;
        assert(steps[last] == steps.last());
        if steps.last() is Start {
            assert(is_started(steps));
        }
    }
}

/// A channel whose task has finished is not healthy, whatever was done to it.
pub proof fn finished_tasks_are_not_healthy(steps: Seq<LifecycleStep>)
    ensures
        health(task_of(after_steps(steps), true)) is Err,
{
}

} // verus!
