use mpv_ipc::process::{
    existing_client, socket_path_for_epoch, u64_string, ExistingProcess, MpvInitializer,
    Supervisor, TeardownAction,
};
use mpv_ipc::shell::{initialize_plan, InitPlan, InitializerSettings};

#[test]
fn the_endpoint_path_carries_the_epoch() {
    assert_eq!(socket_path_for_epoch(1700000000), "/tmp/mpv-1700000000");
    assert_eq!(socket_path_for_epoch(0), "/tmp/mpv-0");
    assert_eq!(u64_string(905), "905");
    assert_eq!(u64_string(u64::MAX), "18446744073709551615");
}

#[test]
fn spawn_arguments_carry_the_baseline_then_the_extras() {
    let init = MpvInitializer::new().with_args(vec!["--no-video".to_string()]);
    let args = init.spawn_args("/tmp/mpv-7");
    assert_eq!(
        args,
        vec![
            "--input-ipc-server=/tmp/mpv-7".to_string(),
            "--idle".to_string(),
            "--really-quiet".to_string(),
            "--no-video".to_string(),
        ]
    );
    let bare = MpvInitializer::new().spawn_args("/tmp/mpv-7");
    assert_eq!(bare.len(), 3);
}

#[test]
fn an_existing_process_only_remembers_its_endpoint() {
    let p = ExistingProcess::new("/tmp/mpv-sock");
    assert_eq!(p.socket_path(), "/tmp/mpv-sock");
    let q = existing_client("/run/mpv");
    assert_eq!(q.socket_path(), "/run/mpv");
}

#[test]
fn tearing_down_an_owned_process_kills_it_and_removes_the_endpoint() {
    let mut sup = Supervisor::adopt("/tmp/mpv-42".to_string(), 4242);
    assert_eq!(sup.pid(), Some(4242));
    let action = sup.teardown();
    assert_eq!(
        action,
        TeardownAction::KillAndRemove { pid: 4242, socket_path: "/tmp/mpv-42".to_string() }
    );
    // Teardown runs exactly once.
    assert_eq!(sup.teardown(), TeardownAction::Nothing);
}

#[test]
fn tearing_down_an_external_process_does_nothing() {
    let mut sup = Supervisor::attach("/tmp/mpv-sock".to_string());
    assert_eq!(sup.pid(), None);
    assert_eq!(sup.teardown(), TeardownAction::Nothing);
    assert_eq!(sup.teardown(), TeardownAction::Nothing);
}

#[test]
fn settings_pick_between_attaching_and_spawning() {
    let plan = initialize_plan(InitializerSettings::new(), 1700000001);
    assert_eq!(
        plan,
        InitPlan::SpawnOwned { socket_path: "/tmp/mpv-1700000001".to_string() }
    );
    let settings = InitializerSettings::new().set_existing_socket("/tmp/mpv-sock");
    let plan = initialize_plan(settings, 1700000001);
    assert_eq!(
        plan,
        InitPlan::ConnectExisting { socket_path: "/tmp/mpv-sock".to_string() }
    );
}
