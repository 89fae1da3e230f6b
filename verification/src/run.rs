//! The run orchestrator's plan: given a parsed run request, the exact
//! sequence of steps the launcher performs.

use vstd::prelude::*;

verus! {

/// Which runtime the build tool should launch.
#[derive(Clone, Copy, Debug, PartialEq, Eq, Structural)]
pub enum Side {
    /// Run client
    Client,
    /// Run server
    Server,
}

/// A parsed run request: the side to launch, and whether the user asked for a
/// full (non-incremental) sync before running.
#[derive(Clone, Copy, Debug, PartialEq, Eq, Structural)]
pub struct RunCommand {
    /// The side to run
    pub side: Side,
    /// Whether to fully sync before running
    pub sync: bool,
}

/// One sequential step of a run. The caller performs each step in order and
/// aborts the whole run on the first failure.
#[derive(Clone, Copy, Debug, PartialEq, Eq, Structural)]
pub enum RunStep {
    /// Synchronize the workspace; `incremental` is false exactly when the
    /// user asked for a full sync.
    Sync { incremental: bool },
    /// Run the EULA-acceptance gate; only ever scheduled before a server
    /// launch.
    CheckEula,
    /// Invoke the build tool with the client launch task.
    LaunchClient,
    /// Invoke the build tool with the server launch task.
    LaunchServer,
}

impl RunCommand {
    /// The steps a run performs, in order: sync first (incremental unless a
    /// full sync was requested), then for the client a plain launch, and for
    /// the server the EULA gate followed by the launch.
    pub open spec fn spec_plan(self) -> Seq<RunStep> {
        match self.side {
            Side::Client => seq![
                RunStep::Sync { incremental: !self.sync },
                RunStep::LaunchClient,
            ],
            Side::Server => seq![
                RunStep::Sync { incremental: !self.sync },
                RunStep::CheckEula,
                RunStep::LaunchServer,
            ],
        }
    }

    /// Compute the plan for this request.
    pub fn plan(&self) -> (r: Vec<RunStep>)
        ensures
            r@ == self.spec_plan(),
    {
        let mut steps: Vec<RunStep> = Vec::new();
        steps.push(RunStep::Sync { incremental: !self.sync });
        match self.side {
            Side::Client => {
                steps.push(RunStep::LaunchClient);
            }
            Side::Server => {
                steps.push(RunStep::CheckEula);
                steps.push(RunStep::LaunchServer);
            }
        }
        proof {
            assert(steps@ =~= self.spec_plan());
        }
        steps
    }
}

/// A full sync request maps to a non-incremental sync, and vice versa: the
/// plan always starts with a sync whose `incremental` flag is the inversion
/// of the request's `sync` flag.
pub proof fn lemma_sync_flag_inversion(cmd: RunCommand)
    ensures
        cmd.spec_plan().len() >= 1,
        cmd.spec_plan()[0] == (RunStep::Sync { incremental: !cmd.sync }),
{
}

/// Side selection: a client run never schedules the EULA gate, while a
/// server run always schedules it, and does so before the server launch.
pub proof fn lemma_side_selection(cmd: RunCommand)
    ensures
        cmd.side == Side::Client ==> forall|k: int|
            0 <= k < cmd.spec_plan().len() ==> cmd.spec_plan()[k] != RunStep::CheckEula,
        cmd.side == Side::Server ==> exists|k: int, l: int|
            0 <= k < l < cmd.spec_plan().len()
                && cmd.spec_plan()[k] == RunStep::CheckEula
                && cmd.spec_plan()[l] == RunStep::LaunchServer,
{
    if cmd.side == Side::Server {
        assert(0 <= 1int < 2int < cmd.spec_plan().len()
            && cmd.spec_plan()[1] == RunStep::CheckEula
            && cmd.spec_plan()[2] == RunStep::LaunchServer);
    }
}

} // verus!
