use mcmod_run::run::{RunCommand, RunStep, Side};

#[test]
fn client_plan_syncs_then_launches() {
    let cmd = RunCommand { side: Side::Client, sync: false };
    let plan = cmd.plan();
    assert_eq!(
        plan,
        vec![RunStep::Sync { incremental: true }, RunStep::LaunchClient]
    );
}

#[test]
fn server_plan_gates_before_launching() {
    let cmd = RunCommand { side: Side::Server, sync: false };
    let plan = cmd.plan();
    assert_eq!(
        plan,
        vec![
            RunStep::Sync { incremental: true },
            RunStep::CheckEula,
            RunStep::LaunchServer,
        ]
    );
}

#[test]
fn client_plan_never_checks_eula() {
    for sync in [false, true] {
        let cmd = RunCommand { side: Side::Client, sync };
        assert!(cmd.plan().iter().all(|s| *s != RunStep::CheckEula));
    }
}

#[test]
fn server_plan_checks_eula_before_launch() {
    for sync in [false, true] {
        let cmd = RunCommand { side: Side::Server, sync };
        let plan = cmd.plan();
        let gate = plan.iter().position(|s| *s == RunStep::CheckEula);
        let launch = plan.iter().position(|s| *s == RunStep::LaunchServer);
        assert!(gate.is_some() && launch.is_some());
        assert!(gate.unwrap() < launch.unwrap());
    }
}

#[test]
fn sync_flag_is_inverted() {
    let full = RunCommand { side: Side::Server, sync: true };
    assert_eq!(full.plan()[0], RunStep::Sync { incremental: false });
    let quick = RunCommand { side: Side::Client, sync: false };
    assert_eq!(quick.plan()[0], RunStep::Sync { incremental: true });
}
