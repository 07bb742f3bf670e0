use basalt_cli::build::containers::{
    build_container_image, ensure_podman_accessible, mark_line, normalize_chunk, DriverAction,
    DriverEvent, DriverState, Phase,
};
use basalt_cli::build::error::BuildError;
use basalt_cli::cli::ContainerBackend;

fn run(mut state: DriverState, events: Vec<DriverEvent>) -> (DriverState, Vec<DriverAction>) {
    let mut actions = Vec::new();
    for event in events {
        let (next, action) = build_container_image(state, event);
        state = next;
        actions.push(action);
    }
    (state, actions)
}

fn podman(verbose: bool) -> DriverState {
    DriverState::start(String::from("bslt-3fa9c1"), ContainerBackend::Podman, verbose).0
}

fn docker() -> DriverState {
    DriverState::start(String::from("bslt-3fa9c1"), ContainerBackend::Docker, false).0
}

fn s(text: &str) -> String {
    String::from(text)
}

#[test]
fn the_default_backend_is_the_daemon() {
    assert_eq!(ContainerBackend::default_backend(), ContainerBackend::Docker);
}

#[test]
fn a_chunk_becomes_one_line() {
    assert_eq!(normalize_chunk("Step 1/4 : FROM debian\n"), "Step 1/4 : FROM debian");
    assert_eq!(normalize_chunk("a\nb\tc \n\n"), "a b c");
    assert_eq!(normalize_chunk(" ---> 5f2a\n"), " ---> 5f2a");
    assert_eq!(normalize_chunk("\n"), "");
}

#[test]
fn a_line_is_marked() {
    assert_eq!(mark_line("Step 1/4"), "[BUILD] Step 1/4");
    assert_eq!(mark_line(""), "[BUILD] ");
}

#[test]
fn a_failed_probe_means_the_backend_is_unavailable() {
    assert!(ensure_podman_accessible(Ok(())).is_ok());
    match ensure_podman_accessible(Err(s("No such file or directory"))) {
        Err(BuildError::BackendUnavailable { cause }) => {
            assert_eq!(cause, "No such file or directory")
        }
        other => panic!("expected backend unavailable, got {:?}", other),
    }
}

#[test]
fn the_daemon_build_starts_by_connecting() {
    let (state, action) = DriverState::start(s("t"), ContainerBackend::Docker, true);
    assert_eq!(state.phase, Phase::Connecting);
    assert_eq!(state.tag, "t");
    assert!(state.verbose);
    assert!(matches!(action, DriverAction::Connect));
}

#[test]
fn the_subprocess_build_starts_by_probing() {
    let (state, action) = DriverState::start(s("t"), ContainerBackend::Podman, false);
    assert_eq!(state.phase, Phase::Probing);
    match action {
        DriverAction::Probe { program, args } => {
            assert_eq!(program, "podman");
            assert_eq!(args, vec!["--version"]);
        }
        other => panic!("expected a probe, got {:?}", other),
    }
}

#[test]
fn the_daemon_is_given_the_tag_and_removes_intermediate_layers() {
    let (state, action) = build_container_image(docker(), DriverEvent::Connected);
    assert_eq!(state.phase, Phase::Streaming);
    match action {
        DriverAction::Submit { tag, dockerfile, remove_intermediate } => {
            assert_eq!(tag, "bslt-3fa9c1");
            assert_eq!(dockerfile, "Dockerfile");
            assert!(remove_intermediate);
        }
        other => panic!("expected a submit, got {:?}", other),
    }
}

#[test]
fn an_unreachable_daemon_ends_the_build() {
    let (state, action) = build_container_image(docker(), DriverEvent::ConnectFailed(s("no socket")));
    assert_eq!(state.phase, Phase::Finished);
    match action {
        DriverAction::Finish(Err(BuildError::BackendUnavailable { cause })) => {
            assert_eq!(cause, "no socket")
        }
        other => panic!("expected backend unavailable, got {:?}", other),
    }
}

#[test]
fn daemon_chunks_are_printed_in_their_order() {
    let (state, actions) = run(
        docker(),
        vec![
            DriverEvent::Connected,
            DriverEvent::Chunk(Some(s("Step 1/2 : FROM debian\n"))),
            DriverEvent::Chunk(None),
            DriverEvent::Chunk(Some(s(" ---> Running in\t9c1\n"))),
            DriverEvent::StreamEnded,
        ],
    );
    assert_eq!(state.phase, Phase::Finished);
    assert!(matches!(&actions[1], DriverAction::Print(l) if l == "[BUILD] Step 1/2 : FROM debian"));
    assert!(matches!(&actions[2], DriverAction::Next));
    assert!(matches!(&actions[3], DriverAction::Print(l) if l == "[BUILD]  ---> Running in 9c1"));
    assert!(matches!(&actions[4], DriverAction::Finish(Ok(()))));
}

#[test]
fn a_failed_daemon_build_is_a_build_step_failure() {
    let (state, actions) = run(
        docker(),
        vec![
            DriverEvent::Connected,
            DriverEvent::Chunk(Some(s("Step 1/2\n"))),
            DriverEvent::StreamFailed(s("The command returned a non-zero code: 1")),
            DriverEvent::Chunk(Some(s("late\n"))),
        ],
    );
    assert_eq!(state.phase, Phase::Finished);
    for action in &actions[2..] {
        match action {
            DriverAction::Finish(Err(BuildError::BuildStepFailure { message })) => {
                assert_eq!(message, "The command returned a non-zero code: 1")
            }
            other => panic!("expected a build step failure, got {:?}", other),
        }
    }
}

#[test]
fn a_failed_probe_ends_the_build_before_any_file_is_touched() {
    let (state, actions) = run(
        podman(false),
        vec![DriverEvent::ProbeFailed(s("not found")), DriverEvent::DirCreated(s("/tmp/x"))],
    );
    assert_eq!(state.phase, Phase::Finished);
    assert!(state.dir.is_none());
    for action in &actions {
        match action {
            DriverAction::Finish(Err(BuildError::BackendUnavailable { cause })) => {
                assert_eq!(cause, "not found")
            }
            other => panic!("expected backend unavailable, got {:?}", other),
        }
    }
}

#[test]
fn the_subprocess_build_runs_in_its_fixed_steps() {
    let (state, actions) = run(
        podman(false),
        vec![
            DriverEvent::ProbeSucceeded,
            DriverEvent::DirCreated(s("/tmp/basalt-build.Xy")),
            DriverEvent::Unpacked,
            DriverEvent::Spawned,
            DriverEvent::StdoutLine(s("STEP 1/3: FROM debian")),
            DriverEvent::StderrLine(s("warning: hidden")),
            DriverEvent::StdoutLine(s("  indented\tline ")),
            DriverEvent::Exited(Ok(())),
            DriverEvent::DirRemoved,
        ],
    );
    assert_eq!(state.phase, Phase::Finished);
    assert!(matches!(&actions[0], DriverAction::CreateDir { prefix } if prefix == "basalt-build"));
    assert!(matches!(&actions[1], DriverAction::Unpack { dir } if dir == "/tmp/basalt-build.Xy"));
    match &actions[2] {
        DriverAction::Spawn { program, args } => {
            assert_eq!(program, "podman");
            assert_eq!(args, &vec!["build", "-t", "bslt-3fa9c1", "/tmp/basalt-build.Xy"]);
        }
        other => panic!("expected a spawn, got {:?}", other),
    }
    assert!(matches!(&actions[3], DriverAction::Next));
    assert!(matches!(&actions[4], DriverAction::Print(l) if l == "[BUILD] STEP 1/3: FROM debian"));
    assert!(matches!(&actions[5], DriverAction::Next));
    assert!(matches!(&actions[6], DriverAction::Print(l) if l == "[BUILD]   indented\tline "));
    assert!(matches!(&actions[7], DriverAction::RemoveDir { dir } if dir == "/tmp/basalt-build.Xy"));
    assert!(matches!(&actions[8], DriverAction::Finish(Ok(()))));
}

#[test]
fn error_lines_are_passed_on_only_when_verbose() {
    let events = || {
        vec![
            DriverEvent::ProbeSucceeded,
            DriverEvent::DirCreated(s("/tmp/d")),
            DriverEvent::Unpacked,
            DriverEvent::Spawned,
            DriverEvent::StderrLine(s("time=now level=warning")),
        ]
    };
    let (_, quiet) = run(podman(false), events());
    assert!(matches!(&quiet[4], DriverAction::Next));
    let (_, loud) = run(podman(true), events());
    assert!(
        matches!(&loud[4], DriverAction::PrintError(l) if l == "[BUILD] time=now level=warning")
    );
}

#[test]
fn a_failed_subprocess_build_removes_the_directory_and_fails() {
    let (state, actions) = run(
        podman(false),
        vec![
            DriverEvent::ProbeSucceeded,
            DriverEvent::DirCreated(s("/tmp/d")),
            DriverEvent::Unpacked,
            DriverEvent::Spawned,
            DriverEvent::Exited(Err(s("exit status: 125"))),
            DriverEvent::DirRemoved,
        ],
    );
    assert_eq!(state.phase, Phase::Finished);
    assert!(matches!(&actions[4], DriverAction::RemoveDir { dir } if dir == "/tmp/d"));
    match &actions[5] {
        DriverAction::Finish(Err(BuildError::BuildStepFailure { message })) => {
            assert_eq!(message, "exit status: 125")
        }
        other => panic!("expected a build step failure, got {:?}", other),
    }
}

#[test]
fn a_failed_unpack_removes_the_directory_and_fails() {
    let (_, actions) = run(
        podman(false),
        vec![
            DriverEvent::ProbeSucceeded,
            DriverEvent::DirCreated(s("/tmp/d")),
            DriverEvent::UnpackFailed(s("disk full")),
            DriverEvent::StdoutLine(s("never")),
            DriverEvent::DirRemoved,
        ],
    );
    assert!(matches!(&actions[2], DriverAction::RemoveDir { dir } if dir == "/tmp/d"));
    assert!(matches!(&actions[3], DriverAction::Next));
    assert!(matches!(&actions[4], DriverAction::Finish(Err(BuildError::Io { cause })) if cause == "disk full"));
}

#[test]
fn a_failed_spawn_removes_the_directory_and_fails() {
    let (_, actions) = run(
        podman(true),
        vec![
            DriverEvent::ProbeSucceeded,
            DriverEvent::DirCreated(s("/tmp/d")),
            DriverEvent::Unpacked,
            DriverEvent::SpawnFailed(s("cannot fork")),
            DriverEvent::DirRemoved,
        ],
    );
    assert!(matches!(&actions[3], DriverAction::RemoveDir { .. }));
    assert!(matches!(&actions[4], DriverAction::Finish(Err(BuildError::Io { cause })) if cause == "cannot fork"));
}

#[test]
fn a_directory_that_cannot_be_made_fails_without_removal() {
    let (state, actions) =
        run(podman(false), vec![DriverEvent::ProbeSucceeded, DriverEvent::DirFailed(s("read-only"))]);
    assert_eq!(state.phase, Phase::Finished);
    assert!(matches!(&actions[1], DriverAction::Finish(Err(BuildError::Io { cause })) if cause == "read-only"));
}

#[test]
fn a_line_that_cannot_be_written_ends_the_build() {
    let (state, actions) = run(
        docker(),
        vec![
            DriverEvent::Connected,
            DriverEvent::Chunk(Some(s("x"))),
            DriverEvent::WriteFailed(s("broken pipe")),
        ],
    );
    assert_eq!(state.phase, Phase::Finished);
    assert!(matches!(&actions[2], DriverAction::Finish(Err(BuildError::Io { cause })) if cause == "broken pipe"));
}

#[test]
fn an_event_out_of_turn_changes_nothing() {
    let (state, action) = build_container_image(podman(false), DriverEvent::Connected);
    assert_eq!(state.phase, Phase::Probing);
    assert!(matches!(action, DriverAction::Next));
    let (state, action) = build_container_image(docker(), DriverEvent::ProbeSucceeded);
    assert_eq!(state.phase, Phase::Connecting);
    assert!(matches!(action, DriverAction::Next));
}

#[test]
fn a_line_that_cannot_be_written_ends_the_subprocess_build_after_removal() {
    let (state, actions) = run(
        podman(true),
        vec![
            DriverEvent::ProbeSucceeded,
            DriverEvent::DirCreated(s("/tmp/d")),
            DriverEvent::Unpacked,
            DriverEvent::Spawned,
            DriverEvent::StdoutLine(s("line")),
            DriverEvent::WriteFailed(s("broken pipe")),
            DriverEvent::StdoutLine(s("late")),
            DriverEvent::DirRemoved,
            DriverEvent::StdoutLine(s("later")),
        ],
    );
    assert_eq!(state.phase, Phase::Finished);
    assert!(matches!(&actions[5], DriverAction::RemoveDir { dir } if dir == "/tmp/d"));
    assert!(matches!(&actions[6], DriverAction::Next));
    for action in &actions[7..] {
        assert!(
            matches!(action, DriverAction::Finish(Err(BuildError::Io { cause })) if cause == "broken pipe")
        );
    }
}
