//! The `tedge reconnect` command: which cloud it works on, how it describes
//! itself, and the service operations that it runs, in order.
use vstd::prelude::*;

verus! {

/// The clouds that the device can be bridged to.
#[derive(Clone, Copy, Debug, PartialEq, Eq, Structural)]
pub enum Cloud {
    Azure,
    C8y,
}

impl Cloud {
    /// The name that the cloud is printed with in descriptions.
    pub open spec fn spec_debug_name(self) -> Seq<char> {
        match self {
            Cloud::Azure => "Azure"@,
            Cloud::C8y => "C8y"@,
        }
    }

    /// The name that the cloud is printed with in descriptions.
    pub fn debug_name(&self) -> (res: String)
        ensures
            res@ == self.spec_debug_name(),
    {
        match self {
            Cloud::Azure => String::from_str("Azure"),
            Cloud::C8y => String::from_str("C8y"),
        }
    }
}

/// The services that the reconnect command restarts.
#[derive(Clone, Copy, Debug, PartialEq, Eq, Structural)]
pub enum SystemService {
    /// The software-management agent.
    TEdgeSMAgent,
    /// The Cumulocity mapper.
    TEdgeMapperC8y,
}

/// One operation of the service manager.
#[derive(Clone, Copy, Debug, PartialEq, Eq, Structural)]
pub enum ServiceAction {
    /// Apply the bridge configuration changes of this cloud to mosquitto.
    ApplyMosquittoChanges(Cloud),
    /// Restart this service when it is running.
    RestartIfRunning(SystemService),
}

/// The clouds that `tedge reconnect` takes as its subcommand.
#[derive(Clone, Copy, Debug, PartialEq, Eq, Structural)]
pub enum TEdgeReconnectCli {
    /// Re-apply the bridge configuration for Cumulocity and restart the
    /// services that use it.
    C8y,
    /// Re-apply the bridge configuration for Azure and restart the services
    /// that use it.
    Az,
}

/// The reconnect command for one cloud, with the service manager that runs it.
pub struct ReconnectCommand<M> {
    pub cloud: Cloud,
    pub service_manager: M,
}

/// The cloud that a reconnect subcommand works on.
pub open spec fn spec_cloud(cli: TEdgeReconnectCli) -> Cloud {
    match cli {
        TEdgeReconnectCli::C8y => Cloud::C8y,
        TEdgeReconnectCli::Az => Cloud::Azure,
    }
}

impl TEdgeReconnectCli {
    /// Builds the command for the chosen cloud, from the service manager that
    /// the configuration gave, or the error it gave instead.
    pub fn build_command<M, E>(self, service_manager: Result<M, E>) -> (res: Result<ReconnectCommand<M>, E>)
        ensures
            match service_manager {
                Ok(manager) => res matches Ok(cmd) && cmd.cloud == spec_cloud(self) && cmd.service_manager
                    == manager,
                Err(error) => res matches Err(e) && e == error,
            },
    {
        let cloud = match self {
            TEdgeReconnectCli::C8y => Cloud::C8y,
            TEdgeReconnectCli::Az => Cloud::Azure,
        };
        match service_manager {
            Ok(manager) => Ok(ReconnectCommand { cloud, service_manager: manager }),
            Err(error) => Err(error),
        }
    }
}

/// The operations of a reconnect, in the order in which they run: the
/// cloud's bridge configuration is applied, then the agent and the
/// Cumulocity mapper are restarted when they run.
pub open spec fn spec_execution_plan(cloud: Cloud) -> Seq<ServiceAction> {
    seq![
        ServiceAction::ApplyMosquittoChanges(cloud),
        ServiceAction::RestartIfRunning(SystemService::TEdgeSMAgent),
        ServiceAction::RestartIfRunning(SystemService::TEdgeMapperC8y),
    ]
}

/// What the execution of a reconnect does next.
#[derive(Clone, Copy, Debug, PartialEq, Eq, Structural)]
pub enum ExecutionStep {
    /// Run this operation and report whether it succeeded.
    Call(ServiceAction),
    /// Stop: every operation succeeded (`true`), or the last one failed (`false`).
    Finished(bool),
}

/// The next step of an execution, given whether each operation run so far
/// succeeded: stop with failure at the first failed one, stop with success
/// once all operations succeeded, else run the next operation of the plan.
pub open spec fn spec_next_step(cloud: Cloud, results: Seq<bool>) -> ExecutionStep {
    if exists|i: int| 0 <= i < results.len() && !results[i] {
        ExecutionStep::Finished(false)
    } else if results.len() >= spec_execution_plan(cloud).len() {
        ExecutionStep::Finished(true)
    } else {
        ExecutionStep::Call(spec_execution_plan(cloud)[results.len() as int])
    }
}

/// Driving the execution with the outcomes of the plan's operations runs
/// them in order up to and including the first that fails, and then stops:
/// with success exactly when every operation succeeded.
pub proof fn law_execution_stops_at_first_failure(cloud: Cloud, outcomes: Seq<bool>)
    requires
        outcomes.len() == spec_execution_plan(cloud).len(),
    ensures
        forall|i: int|
            0 <= i < outcomes.len() && (forall|j: int| 0 <= j < i ==> outcomes[j])
                ==> #[trigger] spec_next_step(cloud, outcomes.take(i)) == ExecutionStep::Call(
                spec_execution_plan(cloud)[i],
            ),
        forall|i: int|
            0 <= i < outcomes.len() && !outcomes[i] && (forall|j: int| 0 <= j < i ==> outcomes[j])
                ==> #[trigger] spec_next_step(cloud, outcomes.take(i + 1)) == ExecutionStep::Finished(false),
        (forall|j: int| 0 <= j < outcomes.len() ==> outcomes[j]) ==> spec_next_step(cloud, outcomes)
            == ExecutionStep::Finished(true),
{
    assert forall|i: int|
        0 <= i < outcomes.len() && (forall|j: int| 0 <= j < i ==> outcomes[j])
            implies #[trigger] spec_next_step(cloud, outcomes.take(i)) == ExecutionStep::Call(
            spec_execution_plan(cloud)[i],
        ) by {
        assert forall|j: int| 0 <= j < outcomes.take(i).len() implies outcomes.take(i)[j] by {
            assert(outcomes.take(i)[j] == outcomes[j]);
        }
    }
    assert forall|i: int|
        0 <= i < outcomes.len() && !outcomes[i] && (forall|j: int| 0 <= j < i ==> outcomes[j])
            implies #[trigger] spec_next_step(cloud, outcomes.take(i + 1)) == ExecutionStep::Finished(false) by {
        assert(!outcomes.take(i + 1)[i]);
    }
}

/// For every cloud, a reconnect runs three operations: it applies that
/// cloud's bridge changes, then restarts the agent, then the Cumulocity
/// mapper. Plans of two clouds differ in their first operation only, and a
/// run whose operations all succeed makes exactly these three calls, in
/// this order, before it finishes with success.
pub proof fn law_reconnect_plan(cloud: Cloud, other: Cloud)
    ensures
        spec_execution_plan(cloud).len() == 3,
        spec_execution_plan(cloud)[0] == ServiceAction::ApplyMosquittoChanges(cloud),
        spec_execution_plan(cloud)[1] == ServiceAction::RestartIfRunning(SystemService::TEdgeSMAgent),
        spec_execution_plan(cloud)[2] == ServiceAction::RestartIfRunning(SystemService::TEdgeMapperC8y),
        spec_execution_plan(cloud).skip(1) == spec_execution_plan(other).skip(1),
        spec_next_step(cloud, Seq::empty()) == ExecutionStep::Call(ServiceAction::ApplyMosquittoChanges(cloud)),
        spec_next_step(cloud, seq![true]) == ExecutionStep::Call(
            ServiceAction::RestartIfRunning(SystemService::TEdgeSMAgent),
        ),
        spec_next_step(cloud, seq![true, true]) == ExecutionStep::Call(
            ServiceAction::RestartIfRunning(SystemService::TEdgeMapperC8y),
        ),
        spec_next_step(cloud, seq![true, true, true]) == ExecutionStep::Finished(true),
{
    assert(spec_execution_plan(cloud).skip(1) =~= spec_execution_plan(other).skip(1));
    assert(!(exists|i: int| 0 <= i < seq![true].len() && !seq![true][i]));
    assert(!(exists|i: int| 0 <= i < seq![true, true].len() && !seq![true, true][i]));
    assert(!(exists|i: int| 0 <= i < seq![true, true, true].len() && !seq![true, true, true][i]));
}

impl<M> ReconnectCommand<M> {
    /// What the command does, as `tedge` prints it.
    pub fn description(&self) -> (res: String)
        ensures
            res@ == "reconnect "@ + self.cloud.spec_debug_name() + " cloud"@,
    {
        let mut text = String::from_str("reconnect ");
        let name = self.cloud.debug_name();
        text.append(name.as_str());
        text.append(" cloud");
        text
    }

    /// The operations that executing the command runs, in order; running
    /// stops at the first one that fails (see `next_step`).
    pub fn execution_plan(&self) -> (res: Vec<ServiceAction>)
        ensures
            res@ == spec_execution_plan(self.cloud),
    {
        let mut plan = Vec::new();
        plan.push(ServiceAction::ApplyMosquittoChanges(self.cloud));
        plan.push(ServiceAction::RestartIfRunning(SystemService::TEdgeSMAgent));
        plan.push(ServiceAction::RestartIfRunning(SystemService::TEdgeMapperC8y));
        plan
    }

    /// The next step of executing the command, given whether each operation
    /// run so far succeeded, in order.
    pub fn next_step(&self, results: &[bool]) -> (res: ExecutionStep)
        ensures
            res == spec_next_step(self.cloud, results@),
    {
        let mut i: usize = 0;
        while i < results.len()
            invariant
                i <= results@.len(),
                forall|j: int| 0 <= j < i ==> results@[j],
            decreases results@.len() - i,
        {
            if !results[i] {
                return ExecutionStep::Finished(false);
            }
            i = i + 1;
        }
        let plan = self.execution_plan();
        if results.len() >= plan.len() {
            ExecutionStep::Finished(true)
        } else {
            ExecutionStep::Call(plan[results.len()])
        }
    }
}

} // verus!
