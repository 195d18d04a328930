use cypher_cli::common::runner::{runner_step, ExecutionCondition, RunnerAction, RunnerEvent};

#[test]
fn shutdown_stops_either_runner() {
    assert_eq!(runner_step(ExecutionCondition::EventBased, RunnerEvent::Shutdown), RunnerAction::Stop);
    assert_eq!(runner_step(ExecutionCondition::Interval { interval: 5 }, RunnerEvent::Shutdown), RunnerAction::Stop);
}

#[test]
fn each_runner_executes_on_its_own_trigger() {
    assert_eq!(runner_step(ExecutionCondition::Interval { interval: 5 }, RunnerEvent::Tick), RunnerAction::Execute);
    assert_eq!(runner_step(ExecutionCondition::EventBased, RunnerEvent::Context), RunnerAction::Execute);
    assert_eq!(runner_step(ExecutionCondition::EventBased, RunnerEvent::ReceiveError), RunnerAction::Skip);
    assert_eq!(runner_step(ExecutionCondition::Interval { interval: 5 }, RunnerEvent::Context), RunnerAction::Skip);
}

use cypher_cli::common::runner::{service_step, ServiceAction, ServiceEvent};

#[test]
fn service_loops_handle_updates_and_stop_on_shutdown() {
    assert_eq!(service_step(ServiceEvent::Update), ServiceAction::Handle);
    assert_eq!(service_step(ServiceEvent::ReceiveError), ServiceAction::Continue);
    assert_eq!(service_step(ServiceEvent::Shutdown), ServiceAction::Stop);
}
