use paddock::ft::locate::Freetoken;
use paddock::ft::proc::{
    job_status, new_log_path, next_stop_signal, parse_progress, proc_starttime, spawn_job,
    Adoption, ChildSeen, Engine, EngineEvent, EngineState, Job, JobEvent, JobKind, JobProgress,
    JobSpec, JobStatus, LogRing, Run, Seen, ServeState, Waited, SIGINT, SIGKILL, SIGTERM,
    STOP_GRACE, TERM_GRACE,
};

const SECOND: u64 = 1_000_000_000;

/// A job that runs and has written nothing of note.
fn fake(kind: JobKind) -> Job {
    let run = Run {
        program: "ft".into(),
        args: vec![],
        cwd: None,
        display: "ft".into(),
        kind,
        title: "t".into(),
        log_capacity: 64,
    };
    run.started(1, Some(4242), "/logs/t.log".into(), 0)
}

/// What the kernel says of a process that started at `starttime`.
fn stat_of(pid: u32, name: &str, starttime: u64) -> String {
    format!("{pid} ({name}) S 1 2 3 4 5 6 7 8 9 10 11 12 13 14 15 16 17 18 {starttime} 20 21")
}

fn nothing_seen() -> Seen {
    Seen { record: None, record_alive: false, child: ChildSeen::Running, starttime: None }
}

#[test]
fn convert_progress_parses_phase_and_bytes() {
    let p = parse_progress(JobKind::Convert, "FTCONVERT experts 1024 4096").unwrap();
    assert_eq!(p.phase, "experts");
    assert_eq!((p.done, p.total), (1024, 4096));
    assert_eq!(p.share().map(|(a, b)| a as f64 / b as f64), Some(0.25));
}

#[test]
fn convert_progress_tolerates_an_unknown_total() {
    let p = parse_progress(JobKind::Convert, "FTCONVERT dense 0 0").unwrap();
    assert_eq!(p.share(), None);
}

#[test]
fn bench_progress_keeps_multiword_labels() {
    let p = parse_progress(JobKind::Bench, "FTBENCH 2 6 qwen3:NVFP4 kernels").unwrap();
    assert_eq!((p.done, p.total), (2, 6));
    assert_eq!(p.phase, "qwen3:NVFP4 kernels");
}

#[test]
fn ordinary_output_is_not_mistaken_for_progress() {
    assert!(parse_progress(JobKind::Convert, "Converting dense weights: 12%").is_none());
    assert!(parse_progress(JobKind::Bench, "FTBENCHX 1 2 x").is_none());
}

#[test]
fn a_failure_reason_is_the_error_not_the_traceback_scaffolding() {
    let mut job = fake(JobKind::Convert);
    job.log.clear();
    for line in [
        "[ft-man] $ ft checkpoint --model /models/x",
        "Converting dense weights: 40%",
        "Traceback (most recent call last):",
        "  File \"/x/convert.py\", line 288, in load_moe_expert_sources",
        "    return stream_moe_expert_sources(",
        "    ^^^^^^^^^^^^^^^^^^^^^^^^^^^^^^^^",
        "ValueError: Missing MoE expert source layers: {'gate_up': [0, 1]}",
    ] {
        job.log.push(line.into(), false);
    }
    assert_eq!(
        job.failure_reason().as_deref(),
        Some("ValueError: Missing MoE expert source layers: {'gate_up': [0, 1]}")
    );
}

#[test]
fn a_job_that_printed_nothing_useful_has_no_reason_to_offer() {
    let mut job = fake(JobKind::Bench);
    job.log.clear();
    job.log.push("[ft-man] $ ft bench bw".into(), false);
    job.log.push("   ".into(), false);
    assert_eq!(job.failure_reason(), None, "our own header is not a failure reason");
}

#[test]
fn byte_progress_builds_a_rate_and_step_progress_does_not() {
    let ms: u64 = 1_000_000;
    let mut job = fake(JobKind::Convert);
    let first = JobProgress { phase: "dense".into(), done: 0, total: 0, bytes: true };
    assert_eq!(job.observe(first, 0), None);
    // Two samples less than the sampling interval apart: not enough to rate yet.
    let second = JobProgress { phase: "dense".into(), done: 1 << 20, total: 0, bytes: true };
    assert_eq!(job.observe(second, ms), None);
    assert_eq!(job.progress.done, 1 << 20);

    let third = JobProgress { phase: "dense".into(), done: 3 << 20, total: 0, bytes: true };
    let (bytes, ns) = job.observe(third, 601 * ms).unwrap();
    assert!(bytes > 0 && ns == 601 * ms, "a byte phase should report throughput");

    // A step-counted phase (the bench) has no bytes to rate.
    let mut bench = fake(JobKind::Bench);
    let step = JobProgress { phase: "nvfp4".into(), done: 1, total: 6, bytes: false };
    assert_eq!(bench.observe(step, 0), None);
}

#[test]
fn log_ring_drops_the_oldest_line_at_capacity() {
    let mut ring = LogRing::new(2);
    for i in 0..4 {
        ring.push(format!("line {i}"), false);
    }
    let snap = ring.snapshot();
    assert_eq!(snap.len(), 2);
    assert_eq!(snap[0].text, "line 2");
    assert_eq!(snap[1].text, "line 3");
}

#[test]
fn a_recorded_process_with_a_different_start_time_is_not_the_same_process() {
    // The recorded pid, but a start time from another era: PID reuse, not our engine.
    let state = ServeState {
        pid: 4242,
        starttime: 0,
        model: "x".into(),
        port: 1919,
        args: vec![],
        log_path: "/tmp/none.log".into(),
        started_at: 0,
    };
    let seen = proc_starttime(&stat_of(4242, "paddock", 98765));
    assert!(!state.is_alive(seen));

    let real = ServeState { starttime: seen.unwrap(), ..state };
    assert!(real.is_alive(seen));
    assert!(!real.is_alive(None));
}

#[test]
fn a_stop_escalates_from_sigint_to_sigterm_to_sigkill() {
    // Still inside the first grace period: no new signal.
    assert!(next_stop_signal(0, SECOND).is_none());

    let (stage, sig, _) = next_stop_signal(0, STOP_GRACE + SECOND).unwrap();
    assert_eq!((stage, sig), (1, SIGTERM));

    // SIGTERM was just sent; it gets its own grace period before SIGKILL.
    assert!(next_stop_signal(1, STOP_GRACE + SECOND).is_none());

    let late = STOP_GRACE + TERM_GRACE + SECOND;
    let (stage, sig, _) = next_stop_signal(1, late).unwrap();
    assert_eq!((stage, sig), (2, SIGKILL));

    // Nothing follows SIGKILL.
    assert!(next_stop_signal(2, 3600 * SECOND).is_none());
}

#[test]
fn stopping_an_engine_that_is_not_running_does_nothing() {
    let mut engine = Engine::new(16);
    assert_eq!(engine.stop(false, 0), None);
    assert_eq!(engine.state, EngineState::Stopped);
    assert!(engine.stop_at.is_none());
    // And polling an engine with no process must not invent an exit.
    engine.poll(SECOND, &nothing_seen());
    assert_eq!(engine.state, EngineState::Stopped);
}

#[test]
fn a_starttime_is_read_behind_a_name_with_spaces_and_brackets() {
    assert_eq!(proc_starttime(&stat_of(7, "a) (b c", 55)), Some(55));
    assert_eq!(proc_starttime("7 (sh) S 1 2"), None);
    assert_eq!(proc_starttime("7 no name"), None);
}

fn started(engine: &mut Engine, ft: &Freetoken, model: &str) -> ServeState {
    let args = vec!["--model".to_string(), "x".to_string()];
    let launch = engine.start(ft, &args, &vec![]).expect("nothing runs yet");
    let s = engine.started(77, Some(5), &launch, &args, "/logs/serve.log", model, 1919, 1_700);
    assert_eq!(s.event, EngineEvent::Started { pid: 77 });
    s.record.expect("the start time was read")
}

fn cli() -> Freetoken {
    Freetoken { program: "/bin/ft".into(), prefix: vec![], origin: "test".into() }
}

#[test]
fn an_engine_is_recorded_while_it_runs_and_forgotten_once_it_stopped() {
    let mut engine = Engine::new(64);
    let record = started(&mut engine, &cli(), "test-model");
    assert_eq!(engine.state, EngineState::Starting);
    assert_eq!(record.pid, 77);
    assert_eq!(record.model, "test-model");
    let log = engine.log.snapshot();
    assert_eq!(log[0].text, "[ft-man] $ ft serve --model x");
    engine.mark_ready();
    assert_eq!(engine.state, EngineState::Running);
    assert_eq!(engine.stop(false, 0), Some((77, SIGINT)));
    assert_eq!(engine.state, EngineState::Stopping);
    let seen = Seen {
        record: None,
        record_alive: false,
        child: ChildSeen::Exited { code: Some(0), signal: None },
        starttime: None,
    };
    let tick = engine.poll(SECOND, &seen);
    assert!(tick.clear_record, "a stopped engine leaves nothing for a later run to re-adopt");
    assert!(matches!(engine.state, EngineState::Exited { .. }));
    assert!(engine.pid.is_none());
}

#[test]
fn an_engine_that_ended_is_reaped_with_its_status() {
    let mut engine = Engine::new(16);
    started(&mut engine, &cli(), "doomed");
    let seen = Seen {
        record: None,
        record_alive: false,
        child: ChildSeen::Exited { code: Some(3), signal: None },
        starttime: None,
    };
    let tick = engine.poll(SECOND, &seen);
    assert_eq!(engine.state, EngineState::Exited { code: Some(3), signal: None });
    assert_eq!(tick.event, Some(EngineEvent::Exited { code: Some(3), signal: None }));
    assert!(engine.log.snapshot().iter().any(|l| l.text.contains("with status 3")));
}

#[test]
fn no_second_engine_is_started_while_one_runs() {
    let mut engine = Engine::new(16);
    started(&mut engine, &cli(), "first");
    assert!(engine.start(&cli(), &vec![], &vec![]).is_err());
    assert_eq!(engine.stop(true, 0), Some((77, SIGKILL)));
}

#[test]
fn a_stale_state_file_is_not_adopted() {
    // PID 2^22 is above the default pid_max on Linux, so nothing can own it.
    let ghost = ServeState {
        pid: 4_194_303,
        starttime: 1,
        model: "ghost".into(),
        port: 1919,
        args: vec![],
        log_path: "/tmp/none.log".into(),
        started_at: 0,
    };
    let mut engine = Engine::new(16);
    let adopted = engine.adopt(Some(&ghost), ghost.is_alive(None));
    assert_eq!(adopted, Adoption::Stale, "a dead pid must not be adopted, and its record cleared");
    assert_eq!(engine.state, EngineState::Stopped);
    assert_eq!(engine.adopt(None, false), Adoption::Nothing);
    assert_eq!(engine.adopt(Some(&ghost), true), Adoption::Adopted);
    assert_eq!(engine.state, EngineState::Adopted);
    assert_eq!(engine.pid, Some(4_194_303));
    assert_eq!(engine.port, Some(1919));
}

#[test]
fn a_stop_that_is_not_heeded_escalates() {
    let mut engine = Engine::new(64);
    started(&mut engine, &cli(), "m");
    engine.stop(false, 0);
    assert_eq!(engine.escalate_stop(STOP_GRACE), None, "the grace period is not over");
    assert_eq!(engine.escalate_stop(STOP_GRACE + SECOND), Some((77, SIGTERM)));
    assert_eq!(engine.escalate_stop(STOP_GRACE + SECOND), None);
    assert_eq!(engine.escalate_stop(STOP_GRACE + TERM_GRACE + SECOND), Some((77, SIGKILL)));
    assert_eq!(engine.escalate_stop(1000 * SECOND), None);
}

#[test]
fn a_reader_of_the_log_can_tell_where_it_stands() {
    let mut ring = LogRing::new(2);
    for i in 0..4 {
        ring.push(format!("line {i}"), i == 3);
    }
    let since = ring.since(2, 10);
    assert_eq!(since.len(), 2);
    assert_eq!(since[0].text, "line 2");
    assert!(since[1].err);
    assert_eq!(ring.since(3, 10).len(), 1);
    assert_eq!(ring.since(0, 1).len(), 1);
    let stats = ring.stats();
    assert_eq!((stats.last_seq, stats.dropped), (4, 2));
    ring.clear();
    assert!(ring.snapshot().is_empty());
    let stats = ring.stats();
    assert_eq!((stats.last_seq, stats.dropped), (4, 4));
}

#[test]
fn a_run_is_launched_with_the_progress_of_its_kind() {
    let run = spawn_job(
        &cli(),
        JobSpec {
            kind: JobKind::Bench,
            subcommand: vec!["bench".into(), "bw".into()],
            args: vec!["--gpu".into(), "a b".into()],
            title: "bandwidth".into(),
            log_capacity: 8,
        },
    );
    assert_eq!(run.args, vec!["bench", "bw", "--gpu", "a b"]);
    assert_eq!(run.display, "ft bench bw --gpu 'a b'");
    let launch = run.launch(&vec![("A".to_string(), "1".to_string())]);
    assert!(launch.env.contains(&("A".to_string(), "1".to_string())));
    assert!(launch.env.contains(&("FREETOKEN_BENCH_PROGRESS".to_string(), "1".to_string())));
    let mut job = run.started(9, Some(5), "/logs/bench.log".into(), 100);
    assert_eq!(job.log.snapshot()[0].text, "[ft-man] $ ft bench bw --gpu 'a b'");
    let e = job.take_line("FTBENCH_OUT /out.json ".into(), false);
    assert!(matches!(e, JobEvent::Output(9, p) if p == "/out.json"));
    let e = job.take_line("FTBENCH 1 2 x".into(), false);
    assert!(matches!(e, JobEvent::Progress(9, p) if p.done == 1));
    assert_eq!(job.log.snapshot().len(), 1, "what is machine-readable is not logged");
    assert!(matches!(job.take_line("hello".into(), true), JobEvent::Line));
    assert_eq!(job.log.snapshot().len(), 2);
    assert_eq!(job.cancel(), Some((5, SIGINT)));
    assert_eq!(job.elapsed(350), 250);
}

#[test]
fn an_exit_becomes_a_status() {
    let done = job_status(&Waited::Exited { code: Some(0), signal: None });
    assert!(matches!(done, JobStatus::Done));
    let killed = job_status(&Waited::Exited { code: None, signal: Some(9) });
    assert!(!matches!(killed, JobStatus::Done | JobStatus::Running));
    assert_eq!(new_log_path("/logs", "serve", "20260101-000000"), "/logs/serve-20260101-000000.log");
}
