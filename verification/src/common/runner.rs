//! The loop that runs a strategy: on each tick, or on each new context,
//! until shutdown.
use vstd::prelude::*;

verus! {

/// When a strategy runs.
#[derive(Clone, Copy, Debug, PartialEq, Eq, Structural)]
pub enum ExecutionCondition {
    /// Every `interval` seconds, on a freshly built context.
    Interval { interval: u64 },
    /// Whenever the context manager sends a new context.
    EventBased,
}

/// What the runner's loop received.
#[derive(Clone, Copy, Debug, PartialEq, Eq, Structural)]
pub enum RunnerEvent {
    /// The interval elapsed.
    Tick,
    /// A context arrived from the context manager.
    Context,
    /// Receiving from the context manager failed.
    ReceiveError,
    /// The shutdown signal arrived.
    Shutdown,
}

/// What the runner does next.
#[derive(Clone, Copy, Debug, PartialEq, Eq, Structural)]
pub enum RunnerAction {
    /// Build the context (on a tick) and execute the strategy on it, then
    /// wait for the next event.
    Execute,
    /// Report the failure and wait for the next event.
    Skip,
    /// Stop the loop.
    Stop,
}

/// The runner's decision on an event: the shutdown signal stops it; a tick
/// runs an interval strategy and a context runs an event-based one; anything
/// else is passed over.
pub fn runner_step(condition: ExecutionCondition, event: RunnerEvent) -> (r: RunnerAction)
    ensures
        event == RunnerEvent::Shutdown ==> r == RunnerAction::Stop,
        event == RunnerEvent::Tick ==> r == (if condition is Interval { RunnerAction::Execute } else { RunnerAction::Skip }),
        event == RunnerEvent::Context ==> r == (if condition is EventBased { RunnerAction::Execute } else { RunnerAction::Skip }),
        event == RunnerEvent::ReceiveError ==> r == RunnerAction::Skip,
{
    match event {
        RunnerEvent::Shutdown => RunnerAction::Stop,
        RunnerEvent::Tick => match condition {
            ExecutionCondition::Interval { .. } => RunnerAction::Execute,
            ExecutionCondition::EventBased => RunnerAction::Skip,
        },
        RunnerEvent::Context => match condition {
            ExecutionCondition::EventBased => RunnerAction::Execute,
            ExecutionCondition::Interval { .. } => RunnerAction::Skip,
        },
        RunnerEvent::ReceiveError => RunnerAction::Skip,
    }
}

/// What a component's receiving loop got: an update, a failed receive, or
/// the shutdown signal.
#[derive(Clone, Copy, Debug, PartialEq, Eq, Structural)]
pub enum ServiceEvent {
    Update,
    ReceiveError,
    Shutdown,
}

/// What the loop does next.
#[derive(Clone, Copy, Debug, PartialEq, Eq, Structural)]
pub enum ServiceAction {
    /// Handle the update (store it, send what follows from it).
    Handle,
    /// Report the failure and keep receiving.
    Continue,
    /// Stop the loop.
    Stop,
}

/// The decision of the context builders', context managers', oracle
/// providers', hedgers' and makers' receiving loops: handle each update,
/// keep going past a failed receive, stop on shutdown.
pub fn service_step(event: ServiceEvent) -> (r: ServiceAction)
    ensures
        r == (match event {
            ServiceEvent::Update => ServiceAction::Handle,
            ServiceEvent::ReceiveError => ServiceAction::Continue,
            ServiceEvent::Shutdown => ServiceAction::Stop,
        }),
{
    match event {
        ServiceEvent::Update => ServiceAction::Handle,
        ServiceEvent::ReceiveError => ServiceAction::Continue,
        ServiceEvent::Shutdown => ServiceAction::Stop,
    }
}

} // verus!
