use et::detach::{command, CLOSE_AND_EXEC};
use et::htm::{
    conclude_start, daemon_args, is_ready, no_daemon, ready_marker, ClientStep, ConnectFault,
    DaemonStep, HtmClient, HtmDaemon, StartEvent, StepFault,
};
use et::roles::{dispatch, Role};
use et::server::{
    cfgfile_was_explicit, load_config, ready_line, ConfigRead, ServerRun, ServerStep,
};
use et::server_daemon::{
    daemon_child_args, pid_file_error, pid_file_path, pid_file_text, read_status, root_directory,
    spawn_detached, status_frame, wants_status, DaemonEvent, STATUS_TOKEN,
    detach_child, stops_child,
};

fn texts(values: &[&str]) -> Vec<String> {
    values.iter().map(|value| value.to_string()).collect()
}

#[test]
fn pid_file_defaults_to_the_upstream_location() {
    assert_eq!(pid_file_path(None), "/var/run/etserver.pid");
    assert_eq!(pid_file_path(Some("/tmp/custom.pid")), "/tmp/custom.pid");
}

#[test]
fn pid_file_errors_are_reported_with_the_path() {
    let error = pid_file_error(false, "/nonexistent-dir/etserver.pid", "not found");
    assert!(error.contains("/nonexistent-dir/etserver.pid"));
    assert_eq!(
        error,
        "Error opening pidfile for writing: /nonexistent-dir/etserver.pid: not found"
    );
    assert_eq!(
        pid_file_error(true, "/p", "full"),
        "Error writing pidfile: /p: full"
    );
    assert_eq!(pid_file_text(4242), "4242\n");
}

#[test]
fn the_background_server_gets_the_same_arguments() {
    assert_eq!(
        daemon_child_args(&texts(&["--daemon", "--port", "7"])),
        texts(&["server", "--daemon-child", "--port", "7"])
    );
    assert_eq!(root_directory(false, None), "/");
    assert_eq!(root_directory(true, None), "C:\\");
    assert_eq!(root_directory(true, Some("D:")), "D:\\");
}

#[test]
fn the_background_server_acknowledges_its_start() {
    assert_eq!(status_frame(), b"ETD1");
    assert!(read_status(&status_frame(), "").is_ok());
    assert_eq!(
        read_status(b"ETD2", "").unwrap_err(),
        "malformed daemon startup status"
    );
    assert_eq!(
        read_status(b"ET", "early end").unwrap_err(),
        "daemon status channel closed: early end"
    );
    assert!(wants_status(Some(STATUS_TOKEN)));
    assert!(!wants_status(Some("ready-v0")));
    assert!(!wants_status(None));
}

#[test]
fn detaching_ends_with_the_status_or_a_reason() {
    assert!(spawn_detached(DaemonEvent::Status(Ok(()))).is_ok());
    assert_eq!(
        spawn_detached(DaemonEvent::Status(Err("bad".into()))),
        Err("background etserver did not detach: bad".to_owned())
    );
    assert_eq!(
        spawn_detached(DaemonEvent::TimedOut),
        Err("timed out waiting for background etserver to detach".to_owned())
    );
    for event in [
        DaemonEvent::NotLocated("x".into()),
        DaemonEvent::NotResolved("x".into()),
        DaemonEvent::NotStarted("x".into()),
        DaemonEvent::NoStatusPipe,
        DaemonEvent::NoWorker("x".into()),
    ] {
        assert!(spawn_detached(event).is_err());
    }
}

#[test]
fn a_missing_default_configuration_is_no_error() {
    assert!(cfgfile_was_explicit(&texts(&["--cfgfile", "x"])));
    assert!(cfgfile_was_explicit(&texts(&["--cfgfile=x"])));
    assert!(!cfgfile_was_explicit(&texts(&["--cfgfiles"])));
    assert_eq!(
        load_config(ConfigRead::NotFound("gone".into()), false).unwrap(),
        None
    );
    assert!(load_config(ConfigRead::NotFound("gone".into()), true).is_err());
    assert!(load_config(ConfigRead::Failed("denied".into()), false).is_err());
    assert_eq!(
        load_config(ConfigRead::Text("[x]".into()), true)
            .unwrap()
            .as_deref(),
        Some("[x]")
    );
    assert_eq!(
        ready_line(&texts(&["0.0.0.0:1", "[::]:1"]), "/run/r"),
        "ETSERVER_READY tcp=0.0.0.0:1,[::]:1 router=/run/r\n"
    );
}

#[test]
fn only_an_absent_multiplexer_is_started() {
    assert!(no_daemon(ConnectFault::NotFound));
    assert!(no_daemon(ConnectFault::Refused));
    assert!(!no_daemon(ConnectFault::Other));
    assert_eq!(ready_marker(), b"HTMD_READY\n");
    assert!(is_ready(b"HTMD_READY\n"));
    assert!(!is_ready(b"HTMD_READY"));
    assert!(daemon_args("/tmp/htm").iter().any(|arg| arg == "/tmp/htm"));
}

#[test]
fn roles_follow_the_program_and_then_the_first_word() {
    assert_eq!(dispatch("etserver", Some("server"), false), (Role::Server, 0));
    assert_eq!(dispatch("etterminal", None, false), (Role::Terminal, 0));
    assert_eq!(dispatch("et", Some("server"), false), (Role::Server, 1));
    assert_eq!(dispatch("et", Some("terminal"), false), (Role::Terminal, 1));
    assert_eq!(dispatch("et", Some("htm"), false), (Role::Htm, 1));
    assert_eq!(dispatch("et", Some("htmd"), false), (Role::Htmd, 1));
    assert_eq!(dispatch("et", Some("client"), false), (Role::Client, 1));
    assert_eq!(dispatch("et", Some("host"), false), (Role::Client, 0));
    assert_eq!(dispatch("etserver.exe", None, true), (Role::Server, 0));
    assert_eq!(dispatch("etserver.exe", None, false), (Role::Client, 0));
}

#[test]
fn detached_children_start_through_a_shell_that_closes_descriptors() {
    let (program, args) = command("/usr/bin/et", false);
    assert_eq!(program, "/bin/sh");
    assert!(args.iter().any(|arg| arg == CLOSE_AND_EXEC));
    assert_eq!(args.last().map(String::as_str), Some("/usr/bin/et"));
    let (program, args) = command("C:\\et.exe", true);
    assert_eq!(program, "C:\\et.exe");
    assert!(args.is_empty());
}

#[test]
fn detached_children_record_their_pid_and_acknowledge() {
    let plan = detach_child(None, Some(STATUS_TOKEN));
    assert_eq!(plan.pid_file, "/var/run/etserver.pid");
    assert!(read_status(&plan.acknowledgement.unwrap(), "").is_ok());
    let plan = detach_child(Some("/tmp/p"), None);
    assert_eq!(plan.pid_file, "/tmp/p");
    assert!(plan.acknowledgement.is_none());
    assert!(stops_child(&DaemonEvent::TimedOut));
    assert!(stops_child(&DaemonEvent::NoWorker("x".into())));
    assert!(stops_child(&DaemonEvent::Status(Err("x".into()))));
    assert!(!stops_child(&DaemonEvent::Status(Ok(()))));
    assert!(!stops_child(&DaemonEvent::NoStatusPipe));
}

#[test]
fn servers_run_step_by_step() {
    let mut run = ServerRun::new(false, false);
    let mut steps = Vec::new();
    let end = loop {
        steps.push(run.step);
        if let Some(end) = run.advance(Ok(())) {
            break end;
        }
    };
    assert_eq!(end, Ok(0));
    assert_eq!(
        steps,
        [
            ServerStep::LoadConfig,
            ServerStep::ResolveConfig,
            ServerStep::InstallSignals,
            ServerStep::SelectRouter,
            ServerStep::Start,
            ServerStep::PrintReady,
            ServerStep::Wait,
            ServerStep::Shutdown,
        ]
    );
    let mut parent = ServerRun::new(true, false);
    assert_eq!(parent.step, ServerStep::Daemonize);
    assert_eq!(parent.advance(Ok(())), Some(Ok(0)));
    let mut child = ServerRun::new(false, true);
    assert_eq!(child.step, ServerStep::Detach);
    for _ in 0..6 {
        assert!(child.advance(Ok(())).is_none());
    }
    assert_eq!(child.step, ServerStep::ReportStartup);
    for _ in 0..3 {
        assert!(child.advance(Ok(())).is_none());
    }
    assert_eq!(child.step, ServerStep::ReportShutdown);
    assert_eq!(child.advance(Ok(())), Some(Ok(0)));
}

#[test]
fn servers_that_fail_tell_why() {
    let words = |step| {
        let mut run = ServerRun {
            daemon_child: false,
            step,
        };
        run.advance(Err("why".into())).unwrap().unwrap_err()
    };
    assert_eq!(words(ServerStep::Daemonize), "could not daemonize: why");
    assert_eq!(words(ServerStep::LoadConfig), "why");
    assert_eq!(words(ServerStep::Start), "could not start ET server: why");
    assert_eq!(
        words(ServerStep::Wait),
        "server signal stream ended unexpectedly"
    );
    assert_eq!(
        words(ServerStep::PrintReady),
        "could not write server readiness: why"
    );
}

fn fault(fault: ConnectFault) -> Result<(), StepFault> {
    Err(StepFault {
        fault,
        cause: "why".into(),
    })
}

#[test]
fn multiplexer_clients_start_a_daemon_that_is_missing() {
    let mut client = HtmClient::new(true, false);
    assert!(client.advance(Ok(())).is_none());
    assert_eq!(client.step, ClientStep::Stop);
    assert!(client.advance(Ok(())).is_none());
    assert!(client.advance(fault(ConnectFault::Refused)).is_none());
    assert_eq!(client.step, ClientStep::Start);
    assert!(client.advance(Ok(())).is_none());
    assert_eq!(client.step, ClientStep::Reconnect);
    assert!(client.advance(Ok(())).is_none());
    assert!(client.advance(Ok(())).is_none());
    assert_eq!(client.step, ClientStep::Bridge);
    assert_eq!(client.advance(Ok(())), Some(Ok(0)));
    let mut client = HtmClient::new(false, false);
    client.advance(Ok(()));
    assert_eq!(
        client.advance(fault(ConnectFault::Other)),
        Some(Err("could not connect to htmd: why\n".to_owned()))
    );
    let mut client = HtmClient::new(false, true);
    client.advance(Ok(()));
    assert_eq!(client.step, ClientStep::ReadPanes);
    client.advance(Ok(()));
    assert_eq!(client.advance(Ok(())), Some(Ok(0)));
    let mut client = HtmClient::new(false, false);
    client.step = ClientStep::Reconnect;
    assert_eq!(
        client.advance(fault(ConnectFault::NotFound)),
        Some(Err("could not connect to htmd: why\n".to_owned()))
    );
}

#[test]
fn multiplexer_daemons_report_behind_their_endpoint() {
    let mut daemon = HtmDaemon::new(true, true, false);
    assert_eq!(daemon.step, DaemonStep::CloseDescriptors);
    for _ in 0..4 {
        assert!(daemon.advance(Ok(())).is_none());
    }
    assert_eq!(daemon.step, DaemonStep::Report);
    assert!(daemon.advance(Ok(())).is_none());
    assert_eq!(daemon.advance(Ok(())), Some(Ok(0)));
    let mut daemon = HtmDaemon::new(true, false, true);
    assert_eq!(daemon.step, DaemonStep::SelectEndpoint);
    daemon.advance(Ok(()));
    assert_eq!(
        daemon.advance(Err("in use".into())),
        Some(Err("could not bind the htm IPC socket: in use\n".to_owned()))
    );
}

#[test]
fn multiplexer_daemons_have_to_print_their_marker() {
    assert_eq!(
        conclude_start(StartEvent::Printed(ready_marker())),
        (Ok(()), false)
    );
    assert_eq!(
        conclude_start(StartEvent::Printed(b"HTMD_RUDE!\n".to_vec())),
        (Err("invalid htmd readiness marker".to_owned()), true)
    );
    assert_eq!(
        conclude_start(StartEvent::NoPipe),
        (Err("missing htmd readiness pipe".to_owned()), false)
    );
    assert_eq!(
        conclude_start(StartEvent::WorkerPanicked { ready: false }),
        (Err("htmd readiness worker panicked".to_owned()), true)
    );
    assert_eq!(
        conclude_start(StartEvent::TimedOut("late".into())),
        (Err("late".to_owned()), true)
    );
}
