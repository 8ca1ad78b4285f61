use tedge_core::{Cloud, ExecutionStep, ServiceAction, SystemService, TEdgeReconnectCli};

#[test]
fn build_command_for_c8y() {
    let cmd = TEdgeReconnectCli::C8y.build_command::<u32, String>(Ok(7)).unwrap();
    assert_eq!(cmd.cloud, Cloud::C8y);
    assert_eq!(cmd.service_manager, 7);
}

#[test]
fn build_command_passes_configuration_error() {
    let res = TEdgeReconnectCli::C8y.build_command::<u32, String>(Err("no config".to_string()));
    assert_eq!(res.err(), Some("no config".to_string()));
}

#[test]
fn description_names_the_cloud() {
    let cmd = TEdgeReconnectCli::C8y.build_command::<(), ()>(Ok(())).unwrap();
    assert_eq!(cmd.description(), "reconnect C8y cloud");
    assert_eq!(Cloud::Azure.debug_name(), format!("{:?}", Cloud::Azure));
    assert_eq!(Cloud::C8y.debug_name(), format!("{:?}", Cloud::C8y));
}

#[test]
fn execution_applies_then_restarts() {
    let cmd = TEdgeReconnectCli::C8y.build_command::<(), ()>(Ok(())).unwrap();
    assert_eq!(
        cmd.execution_plan(),
        vec![
            ServiceAction::ApplyMosquittoChanges(Cloud::C8y),
            ServiceAction::RestartIfRunning(SystemService::TEdgeSMAgent),
            ServiceAction::RestartIfRunning(SystemService::TEdgeMapperC8y),
        ]
    );
}

#[test]
fn build_command_for_azure() {
    let cmd = TEdgeReconnectCli::Az.build_command::<u32, String>(Ok(3)).unwrap();
    assert_eq!(cmd.cloud, Cloud::Azure);
    assert_eq!(cmd.description(), "reconnect Azure cloud");
    assert_eq!(cmd.execution_plan()[0], ServiceAction::ApplyMosquittoChanges(Cloud::Azure));
}

#[test]
fn execution_runs_the_plan_in_order() {
    let cmd = TEdgeReconnectCli::C8y.build_command::<(), ()>(Ok(())).unwrap();
    let plan = cmd.execution_plan();
    assert_eq!(cmd.next_step(&[]), ExecutionStep::Call(plan[0]));
    assert_eq!(cmd.next_step(&[true]), ExecutionStep::Call(plan[1]));
    assert_eq!(cmd.next_step(&[true, true]), ExecutionStep::Call(plan[2]));
    assert_eq!(cmd.next_step(&[true, true, true]), ExecutionStep::Finished(true));
}

#[test]
fn execution_stops_at_first_failure() {
    let cmd = TEdgeReconnectCli::C8y.build_command::<(), ()>(Ok(())).unwrap();
    assert_eq!(cmd.next_step(&[false]), ExecutionStep::Finished(false));
    assert_eq!(cmd.next_step(&[true, false]), ExecutionStep::Finished(false));
    assert_eq!(cmd.next_step(&[true, true, false]), ExecutionStep::Finished(false));
}
