use plumber::monitor::{Action, Event, Failure, Phase, StageExit, Supervisor};
use plumber::pipeline::{
    InputSource, OutputSink, Pipeline, StageInput, StageLaunch, StageOutput,
};
use plumber::registry::{RegistryEntry, Removal};

fn supervisor(text: &str) -> Supervisor {
    let pipeline = Pipeline::new("demo".to_string(), text.to_string()).unwrap();
    Supervisor::new(pipeline, "/run".to_string(), InputSource::Null, OutputSink::Inherit)
}

fn quiet() -> Event {
    Event::Polled { last_stage_exited: false, shutdown_requested: false }
}

/// Brings a chain of `pids.len()` stages up to `Running`.
fn running(text: &str, pids: &[u32]) -> Supervisor {
    let mut s = supervisor(text).step(Event::Prepared { ok: true });
    s = s.step(Event::Spawned { pid: pids[0] });
    s = s.step(Event::Registered);
    for pid in &pids[1..] {
        s = s.step(Event::Spawned { pid: *pid });
    }
    assert_eq!(s.phase(), Phase::Running);
    s
}

#[test]
fn a_supervisor_starts_by_making_the_log_directory() {
    let s = supervisor("cat a | sort");
    assert_eq!(s.phase(), Phase::Preparing);
    assert_eq!(s.action(), Action::Prepare { log_dir: "/tmp/plumber/log/demo".to_string() });
    assert_eq!(s.outcome(), None);
    assert_eq!(s.last_exit(), None);
}

#[test]
fn run_uses_the_default_registry() {
    let pipeline = Pipeline::new("demo".to_string(), "ls".to_string()).unwrap();
    let mut s = pipeline.run(InputSource::Inherit, OutputSink::Capture);
    s = s.step(Event::Prepared { ok: true });
    assert_eq!(
        s.action(),
        Action::Spawn(StageLaunch {
            program: "ls".to_string(),
            args: vec![],
            stdin: StageInput::Source(InputSource::Inherit),
            stdout: StageOutput::Sink(OutputSink::Capture),
            stderr_log: "/tmp/plumber/log/demo/ls.stderr.log".to_string(),
            own_process_group: true,
        })
    );
    s = s.step(Event::Spawned { pid: 77 });
    assert_eq!(
        s.action(),
        Action::Register(RegistryEntry {
            dir: "/tmp/plumber/run/demo".to_string(),
            pid_file: "/tmp/plumber/run/demo/.pid".to_string(),
            data_file: "/tmp/plumber/run/demo/.data".to_string(),
            pid_record: "77".to_string(),
        })
    );
    assert_eq!(s.pipeline().get_first_pid(), "77");
}

#[test]
fn a_pipeline_from_a_file_reads_from_nothing() {
    let pipeline = Pipeline::new("demo".to_string(), "cat | sort".to_string()).unwrap();
    let s = pipeline.run_from_file().step(Event::Prepared { ok: true });
    match s.action() {
        Action::Spawn(launch) => {
            assert_eq!(launch.stdin, StageInput::Source(InputSource::Null));
            assert_eq!(launch.stdout, StageOutput::Downstream);
        }
        other => panic!("unexpected {:?}", other),
    }
    let s = s.step(Event::Spawned { pid: 1 }).step(Event::Registered);
    match s.action() {
        Action::Spawn(launch) => {
            assert_eq!(launch.stdin, StageInput::Upstream);
            assert_eq!(launch.stdout, StageOutput::Sink(OutputSink::Inherit));
        }
        other => panic!("unexpected {:?}", other),
    }
}

#[test]
fn a_pipeline_typed_in_reads_what_the_caller_reads() {
    let pipeline = Pipeline::new("demo".to_string(), "cat".to_string()).unwrap();
    let s = pipeline.run_interactive().step(Event::Prepared { ok: true });
    match s.action() {
        Action::Spawn(launch) => {
            assert_eq!(launch.stdin, StageInput::Source(InputSource::Inherit));
            assert_eq!(launch.stdout, StageOutput::Sink(OutputSink::Inherit));
        }
        other => panic!("unexpected {:?}", other),
    }
    let s = s.step(Event::Spawned { pid: 1 });
    assert_eq!(
        s.action(),
        Action::Register(RegistryEntry {
            dir: "/tmp/plumber/run/demo".to_string(),
            pid_file: "/tmp/plumber/run/demo/.pid".to_string(),
            data_file: "/tmp/plumber/run/demo/.data".to_string(),
            pid_record: "1".to_string(),
        })
    );
}

#[test]
fn a_chain_that_cannot_be_made_known_is_taken_down() {
    let mut s = supervisor("a | b | c").step(Event::Prepared { ok: true });
    s = s.step(Event::Spawned { pid: 10 });
    assert!(matches!(s.action(), Action::Register(_)));
    s = s.step(Event::RegisterFailed);
    assert_eq!(s.phase(), Phase::RegisterFailed);
    assert_eq!(s.action(), Action::Terminate { stage: 0, pid: 10 });
    s = s.step(Event::TerminationSent);
    assert_eq!(s.action(), Action::Reap { stage: 0, pid: 10 });
    s = s.step(Event::Reaped(StageExit::Signalled));
    assert_eq!(s.phase(), Phase::Terminated);
    assert_eq!(s.pipeline().jobs(), &vec![10]);
    assert_eq!(
        s.action(),
        Action::Unregister(vec![
            Removal::File("/run/demo/.pid".to_string()),
            Removal::File("/run/demo/.data".to_string()),
            Removal::Directory("/run/demo".to_string()),
        ])
    );
    s = s.step(Event::Unregistered);
    assert_eq!(s.action(), Action::Done);
    assert_eq!(s.outcome(), Some(Err(Failure::Io)));
    assert_eq!(s.last_exit(), None);
}

#[test]
fn a_failed_registration_is_heard_only_when_asked_for() {
    let mut s = supervisor("a | b").step(Event::Prepared { ok: true });
    s = s.step(Event::RegisterFailed);
    assert_eq!(s.phase(), Phase::Spawning);
    assert!(matches!(s.action(), Action::Spawn(_)));
    let mut r = running("a | b", &[1, 2]);
    r = r.step(Event::RegisterFailed);
    assert_eq!(r.phase(), Phase::Running);
}

#[test]
fn stages_are_wired_one_to_the_next() {
    let mut s = supervisor("cat file -a | pv --force | grep a").step(Event::Prepared { ok: true });
    assert_eq!(s.phase(), Phase::Spawning);
    assert_eq!(
        s.action(),
        Action::Spawn(StageLaunch {
            program: "cat".to_string(),
            args: vec!["file".to_string(), "-a".to_string()],
            stdin: StageInput::Source(InputSource::Null),
            stdout: StageOutput::Downstream,
            stderr_log: "/tmp/plumber/log/demo/cat.stderr.log".to_string(),
            own_process_group: true,
        })
    );
    s = s.step(Event::Spawned { pid: 10 });
    assert!(matches!(s.action(), Action::Register(_)));
    s = s.step(Event::Registered);
    assert_eq!(
        s.action(),
        Action::Spawn(StageLaunch {
            program: "pv".to_string(),
            args: vec!["--force".to_string()],
            stdin: StageInput::Upstream,
            stdout: StageOutput::Downstream,
            stderr_log: "/tmp/plumber/log/demo/pv.stderr.log".to_string(),
            own_process_group: true,
        })
    );
    s = s.step(Event::Spawned { pid: 11 });
    assert_eq!(
        s.action(),
        Action::Spawn(StageLaunch {
            program: "grep".to_string(),
            args: vec!["a".to_string()],
            stdin: StageInput::Upstream,
            stdout: StageOutput::Sink(OutputSink::Inherit),
            stderr_log: "/tmp/plumber/log/demo/grep.stderr.log".to_string(),
            own_process_group: true,
        })
    );
    s = s.step(Event::Spawned { pid: 12 });
    assert_eq!(s.phase(), Phase::Running);
    assert_eq!(s.action(), Action::Poll);
    assert_eq!(s.pipeline().jobs(), &vec![10, 11, 12]);
    assert!(s.pipeline().is_fully_spawned());
    assert_eq!(s.pipeline().next_spawn(InputSource::Null, OutputSink::Inherit), None);
}

#[test]
fn the_chain_is_made_known_before_the_second_stage_starts() {
    let mut s = supervisor("a | b").step(Event::Prepared { ok: true });
    s = s.step(Event::Spawned { pid: 5 });
    // A report that does not answer the pending action changes nothing.
    s = s.step(Event::Spawned { pid: 6 });
    s = s.step(Event::SpawnFailed);
    assert_eq!(s.pipeline().jobs(), &vec![5]);
    assert!(matches!(s.action(), Action::Register(_)));
    s = s.step(Event::Registered);
    assert!(matches!(s.action(), Action::Spawn(_)));
}

#[test]
fn a_natural_run_leaves_nothing_behind() {
    let mut s = running("a | b | c", &[10, 11, 12]);
    s = s.step(quiet());
    s = s.step(quiet());
    assert_eq!(s.phase(), Phase::Running);
    s = s.step(Event::Polled { last_stage_exited: true, shutdown_requested: false });
    assert_eq!(s.phase(), Phase::LastStageExited);
    assert_eq!(s.action(), Action::Reap { stage: 0, pid: 10 });
    s = s.step(Event::Reaped(StageExit::Code(0)));
    assert_eq!(s.phase(), Phase::Draining);
    assert_eq!(s.action(), Action::Reap { stage: 1, pid: 11 });
    s = s.step(Event::Reaped(StageExit::Code(0)));
    assert_eq!(s.action(), Action::Reap { stage: 2, pid: 12 });
    s = s.step(Event::Reaped(StageExit::Code(0)));
    assert_eq!(s.phase(), Phase::Terminated);
    assert_eq!(
        s.action(),
        Action::Unregister(vec![
            Removal::File("/run/demo/.pid".to_string()),
            Removal::File("/run/demo/.data".to_string()),
            Removal::Directory("/run/demo".to_string()),
        ])
    );
    s = s.step(Event::Unregistered);
    assert_eq!(s.action(), Action::Done);
    assert_eq!(s.exits().len(), 3);
    assert_eq!(s.outcome(), Some(Ok(true)));
    assert_eq!(s.last_exit(), Some(StageExit::Code(0)));
}

#[test]
fn shutdown_asks_the_first_stage_only() {
    let mut s = running("a | b | c", &[10, 11, 12]);
    s = s.step(Event::Polled { last_stage_exited: false, shutdown_requested: true });
    assert_eq!(s.phase(), Phase::ShutdownRequested);
    assert_eq!(s.action(), Action::Terminate { stage: 0, pid: 10 });
    s = s.step(Event::TerminationSent);
    assert_eq!(s.phase(), Phase::Draining);
    let mut asked = 0;
    let mut reaped = Vec::new();
    loop {
        match s.action() {
            Action::Terminate { .. } => asked += 1,
            Action::Reap { stage, pid } => {
                reaped.push((stage, pid));
                s = s.step(Event::Reaped(StageExit::Signalled));
            }
            Action::Unregister(_) => s = s.step(Event::Unregistered),
            Action::Done => break,
            other => panic!("unexpected {:?}", other),
        }
    }
    assert_eq!(asked, 0);
    assert_eq!(reaped, vec![(0, 10), (1, 11), (2, 12)]);
    assert_eq!(s.outcome(), Some(Ok(false)));
    assert_eq!(s.last_exit(), Some(StageExit::Signalled));
}

#[test]
fn shutdown_wins_over_a_last_stage_that_has_ended() {
    let mut s = running("a | b", &[1, 2]);
    s = s.step(Event::Polled { last_stage_exited: true, shutdown_requested: true });
    assert_eq!(s.action(), Action::Terminate { stage: 0, pid: 1 });
}

#[test]
fn a_failed_wait_does_not_stop_the_waiting() {
    let mut s = running("a | b | c", &[10, 11, 12]);
    s = s.step(Event::Polled { last_stage_exited: true, shutdown_requested: false });
    s = s.step(Event::Reaped(StageExit::WaitFailed));
    assert_eq!(s.action(), Action::Reap { stage: 1, pid: 11 });
    s = s.step(Event::Reaped(StageExit::Code(2)));
    assert_eq!(s.action(), Action::Reap { stage: 2, pid: 12 });
    s = s.step(Event::Reaped(StageExit::Code(0)));
    assert_eq!(s.phase(), Phase::Terminated);
    assert_eq!(
        s.exits(),
        &vec![StageExit::WaitFailed, StageExit::Code(2), StageExit::Code(0)]
    );
    assert_eq!(s.outcome(), Some(Ok(false)));
    assert_eq!(s.last_exit(), Some(StageExit::Code(0)));
}

#[test]
fn a_stage_that_does_not_start_takes_the_chain_down() {
    let mut s = supervisor("a | b | c").step(Event::Prepared { ok: true });
    s = s.step(Event::Spawned { pid: 10 });
    s = s.step(Event::Registered);
    s = s.step(Event::Spawned { pid: 11 });
    s = s.step(Event::SpawnFailed);
    assert_eq!(s.phase(), Phase::SpawnFailed);
    assert_eq!(s.action(), Action::Terminate { stage: 0, pid: 10 });
    s = s.step(Event::TerminationSent);
    assert_eq!(s.action(), Action::Reap { stage: 0, pid: 10 });
    s = s.step(Event::Reaped(StageExit::Signalled));
    assert_eq!(s.action(), Action::Reap { stage: 1, pid: 11 });
    s = s.step(Event::Reaped(StageExit::Code(0)));
    assert_eq!(s.phase(), Phase::Terminated);
    assert!(matches!(s.action(), Action::Unregister(_)));
    s = s.step(Event::Unregistered);
    assert_eq!(s.action(), Action::Done);
    assert_eq!(s.outcome(), Some(Err(Failure::Spawn)));
    assert_eq!(s.last_exit(), None);
}

#[test]
fn a_first_stage_that_does_not_start_ends_at_once() {
    let mut s = supervisor("a | b").step(Event::Prepared { ok: true });
    s = s.step(Event::SpawnFailed);
    assert_eq!(s.phase(), Phase::Terminated);
    assert_eq!(s.action(), Action::Done);
    assert_eq!(s.outcome(), Some(Err(Failure::Spawn)));
    assert!(s.pipeline().jobs().is_empty());
}

#[test]
fn without_a_log_directory_nothing_is_started() {
    let s = supervisor("a | b").step(Event::Prepared { ok: false });
    assert_eq!(s.phase(), Phase::Terminated);
    assert_eq!(s.action(), Action::Done);
    assert_eq!(s.outcome(), Some(Err(Failure::Io)));
}

#[test]
fn a_single_stage_runs_once_it_is_made_known() {
    let mut s = supervisor("sleep 1").step(Event::Prepared { ok: true });
    s = s.step(Event::Spawned { pid: 3 });
    assert_eq!(s.phase(), Phase::Spawning);
    s = s.step(Event::Registered);
    assert_eq!(s.phase(), Phase::Running);
    s = s.step(Event::Polled { last_stage_exited: true, shutdown_requested: false });
    s = s.step(Event::Reaped(StageExit::Code(1)));
    assert_eq!(s.phase(), Phase::Terminated);
    assert_eq!(s.outcome(), Some(Ok(false)));
    assert_eq!(s.last_exit(), Some(StageExit::Code(1)));
}

#[test]
fn reports_out_of_turn_change_nothing() {
    let mut s = running("a | b", &[1, 2]);
    for event in [
        Event::Prepared { ok: false },
        Event::Spawned { pid: 9 },
        Event::SpawnFailed,
        Event::Registered,
        Event::RegisterFailed,
        Event::TerminationSent,
        Event::Reaped(StageExit::Code(0)),
        Event::Unregistered,
    ] {
        s = s.step(event);
        assert_eq!(s.phase(), Phase::Running);
        assert_eq!(s.action(), Action::Poll);
    }
    assert_eq!(s.pipeline().jobs(), &vec![1, 2]);
    assert!(s.exits().is_empty());
}
