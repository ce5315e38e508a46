use vssh::engine::{
    execute_command, Action, Event, ExecOutcome, Phase, StdinBinding, StdoutBinding,
};
use vssh::pipeline::ShellError;

#[test]
fn missing_input_spawns_nothing() {
    let e = execute_command("cat < nofile.txt").unwrap();
    assert_eq!(e.current_action(), Some(Action::OpenInput));
    let e = e.step(Event::OpenFailed);
    assert_eq!(e.current_action(), None);
    assert!(matches!(
        e.phase,
        Phase::Done { outcome: ExecOutcome::Failed { error: ShellError::FileNotFound } }
    ));
    assert!(e.pids.is_empty());
}

#[test]
fn output_open_failure_is_io_error() {
    let e = execute_command("ls > out.txt").unwrap();
    assert_eq!(e.current_action(), Some(Action::OpenOutput));
    let e = e.step(Event::OpenFailed);
    assert!(matches!(
        e.phase,
        Phase::Done { outcome: ExecOutcome::Failed { error: ShellError::IoError } }
    ));
    assert!(e.pids.is_empty());
}

#[test]
fn background_pipeline_never_waits() {
    let mut e = execute_command("sleep 100 | sleep 200 &").unwrap();
    let mut pid = 4242;
    while let Some(action) = e.current_action() {
        assert!(!matches!(action, Action::WaitStage { .. }));
        match action {
            Action::SpawnStage { .. } => {
                e = e.step(Event::Spawned { pid });
                pid += 1;
            }
            Action::OpenInput | Action::OpenOutput => e = e.step(Event::Opened),
            Action::WaitStage { .. } => unreachable!(),
        }
    }
    assert!(matches!(e.phase, Phase::Done { outcome: ExecOutcome::Background }));
    assert_eq!(e.pids, vec![4242, 4243]);
}

#[test]
fn spawn_failure_reported_and_next_line_accepted() {
    let e = execute_command("nosuchprogram").unwrap();
    assert!(matches!(e.current_action(), Some(Action::SpawnStage { stage: 0, .. })));
    let e = e.step(Event::SpawnFailed);
    assert!(matches!(
        e.phase,
        Phase::Done { outcome: ExecOutcome::Failed { error: ShellError::SpawnError } }
    ));
    assert!(e.pids.is_empty());

    // The shell goes on: a fresh line starts a fresh execution and runs.
    let e = execute_command("echo ok").unwrap();
    let e = e.step(Event::Spawned { pid: 7 });
    assert_eq!(e.current_action(), Some(Action::WaitStage { stage: 0 }));
    let e = e.step(Event::Waited { status: 0 });
    assert!(matches!(e.phase, Phase::Done { outcome: ExecOutcome::Exited { status: 0 } }));
}

#[test]
fn mid_pipeline_spawn_failure_aborts_remaining_stages() {
    let e = execute_command("a | b | c").unwrap();
    let e = e.step(Event::Spawned { pid: 1 });
    let e = e.step(Event::SpawnFailed);
    assert!(matches!(
        e.phase,
        Phase::Done { outcome: ExecOutcome::Failed { error: ShellError::SpawnError } }
    ));
    // Stage 0 was spawned and is left running; stage 2 never was.
    assert_eq!(e.pids, vec![1]);
    assert_eq!(e.current_action(), None);
}

#[test]
fn pipeline_wiring_and_last_stage_status() {
    let e = execute_command("a | b | c").unwrap();
    assert_eq!(
        e.current_action(),
        Some(Action::SpawnStage {
            stage: 0,
            stdin: StdinBinding::Inherit,
            stdout: StdoutBinding::ToPipe,
        })
    );
    let e = e.step(Event::Spawned { pid: 10 });
    assert_eq!(
        e.current_action(),
        Some(Action::SpawnStage {
            stage: 1,
            stdin: StdinBinding::FromPipe,
            stdout: StdoutBinding::ToPipe,
        })
    );
    let e = e.step(Event::Spawned { pid: 11 });
    assert_eq!(
        e.current_action(),
        Some(Action::SpawnStage {
            stage: 2,
            stdin: StdinBinding::FromPipe,
            stdout: StdoutBinding::Inherit,
        })
    );
    let e = e.step(Event::Spawned { pid: 12 });
    assert_eq!(e.pids, vec![10, 11, 12]);
    assert_eq!(e.current_action(), Some(Action::WaitStage { stage: 0 }));
    let e = e.step(Event::Waited { status: 1 });
    assert_eq!(e.current_action(), Some(Action::WaitStage { stage: 1 }));
    let e = e.step(Event::Waited { status: 2 });
    assert_eq!(e.current_action(), Some(Action::WaitStage { stage: 2 }));
    let e = e.step(Event::Waited { status: 7 });
    // The pipeline's status is the last stage's, not an earlier one's.
    assert!(matches!(e.phase, Phase::Done { outcome: ExecOutcome::Exited { status: 7 } }));
}

#[test]
fn redirects_bind_first_input_and_last_output() {
    let e = execute_command("sort < in.txt > out.txt").unwrap();
    assert_eq!(e.current_action(), Some(Action::OpenInput));
    let e = e.step(Event::Opened);
    assert_eq!(e.current_action(), Some(Action::OpenOutput));
    let e = e.step(Event::Opened);
    assert_eq!(
        e.current_action(),
        Some(Action::SpawnStage {
            stage: 0,
            stdin: StdinBinding::FromFile,
            stdout: StdoutBinding::ToFile,
        })
    );
    let e = e.step(Event::Spawned { pid: 5 });
    let e = e.step(Event::Waited { status: 0 });
    assert!(matches!(e.phase, Phase::Done { outcome: ExecOutcome::Exited { status: 0 } }));
}

#[test]
fn redirects_of_multi_stage_pipeline_bind_the_ends() {
    let e = execute_command("cat < in.txt | sort > out.txt").unwrap();
    let e = e.step(Event::Opened);
    let e = e.step(Event::Opened);
    assert_eq!(
        e.current_action(),
        Some(Action::SpawnStage {
            stage: 0,
            stdin: StdinBinding::FromFile,
            stdout: StdoutBinding::ToPipe,
        })
    );
    let e = e.step(Event::Spawned { pid: 1 });
    assert_eq!(
        e.current_action(),
        Some(Action::SpawnStage {
            stage: 1,
            stdin: StdinBinding::FromPipe,
            stdout: StdoutBinding::ToFile,
        })
    );
}

#[test]
fn wait_failure_on_middle_stage_is_not_fatal() {
    let e = execute_command("a | b").unwrap();
    let e = e.step(Event::Spawned { pid: 1 });
    let e = e.step(Event::Spawned { pid: 2 });
    let e = e.step(Event::WaitFailed);
    assert_eq!(e.current_action(), Some(Action::WaitStage { stage: 1 }));
    let e = e.step(Event::Waited { status: 3 });
    assert!(matches!(e.phase, Phase::Done { outcome: ExecOutcome::Exited { status: 3 } }));
}

#[test]
fn wait_failure_on_last_stage_is_wait_error() {
    let e = execute_command("a").unwrap();
    let e = e.step(Event::Spawned { pid: 1 });
    let e = e.step(Event::WaitFailed);
    assert!(matches!(
        e.phase,
        Phase::Done { outcome: ExecOutcome::Failed { error: ShellError::WaitError } }
    ));
}

#[test]
fn parse_error_reaches_the_caller() {
    assert_eq!(execute_command("a | | b").unwrap_err(), ShellError::ParseError);
}
