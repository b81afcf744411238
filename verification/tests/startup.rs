//! Reaching or starting the daemon.
use rmux::startup::{
    acquire_startup_mutex, classify_connect_error, classify_io_error, connect_or_start,
    connect_or_start_with, map_named_mutex_error, probe_blocking, probe_responsive,
    startup_mutex_name, validate_pipe_name,
    wait_for_daemon, IoFailure, IoKind, MutexThread, NamedMutexError, ProbeEvent, ProbeFrame, ProbeStep,
    StartupAction, StartupError, StartupEvent, StartupMutexHolder, StartupOutcome, WaitStep, ERROR_ACCESS_DENIED,
    ERROR_FILE_NOT_FOUND, ERROR_NO_DATA, ERROR_PIPE_BUSY, MAX_NAMED_MUTEX_LEN, PIPE_PREFIX, STARTUP_MUTEX_PREFIX,
};

fn pipe(label: &str) -> String {
    format!(r"\\.\pipe\rmux-S-1-5-21-1000-il-medium-{label}")
}

fn code(code: i32) -> IoFailure {
    IoFailure {
        code: Some(code),
        kind: IoKind::Other,
        message: "system failure".to_owned(),
    }
}

#[test]
fn validate_pipe_name_accepts_real_endpoint() {
    let pipe = pipe("default");
    validate_pipe_name(&pipe).expect("real pipe name accepted");
}

#[test]
fn validate_pipe_name_rejects_unix_path() {
    let error = validate_pipe_name("/tmp/not-a-pipe")
        .expect_err("unix paths are not Windows pipe names");
    assert!(matches!(error, StartupError::InvalidPipeName { .. }));
}

#[test]
fn validate_pipe_name_rejects_empty_path() {
    let error = validate_pipe_name("").expect_err("empty pipe path is invalid");
    assert!(matches!(error, StartupError::InvalidPipeName { .. }));
}

#[test]
fn startup_mutex_name_strips_pipe_prefix() {
    let pipe = pipe("default");
    let value = startup_mutex_name(&pipe).expect("derive mutex name");
    assert!(value.starts_with(STARTUP_MUTEX_PREFIX));
    assert!(value.ends_with("-default"));
}

#[test]
fn startup_mutex_name_is_case_insensitive() {
    let lower = r"\\.\pipe\rmux-s-1-5-21-1000-il-medium-default";
    let upper = r"\\.\PIPE\RMUX-S-1-5-21-1000-IL-MEDIUM-DEFAULT";
    let lower_name = startup_mutex_name(lower).expect("lower pipe name accepted");
    let upper_name = startup_mutex_name(upper).expect("upper pipe name accepted");
    assert_eq!(lower_name, upper_name);
}

#[test]
fn names_that_differ_in_case_are_refused_alike() {
    let long = "l".repeat(400);
    let lower = startup_mutex_name(&format!(r"\\.\pipe\{long}")).expect_err("too long");
    let upper = startup_mutex_name(&format!(r"\\.\PIPE\{}", long.to_uppercase()))
        .expect_err("too long");
    match (lower, upper) {
        (
            StartupError::InvalidMutexName { reason: a, .. },
            StartupError::InvalidMutexName { reason: b, .. },
        ) => assert_eq!(a, b),
        other => panic!("expected two names that are too long, got {other:?}"),
    }
}

#[test]
fn startup_mutex_name_rejects_pipe_without_label() {
    let error = startup_mutex_name(PIPE_PREFIX).expect_err("prefix-only path must be rejected");
    assert!(matches!(error, StartupError::InvalidPipeName { .. }));
}

#[test]
fn startup_mutex_name_rejects_oversized_label() {
    let label = "x".repeat(MAX_NAMED_MUTEX_LEN);
    let pipe = format!("{PIPE_PREFIX}rmux-{label}");
    let error = startup_mutex_name(&pipe).expect_err("oversize mutex name must be rejected");
    assert!(matches!(error, StartupError::InvalidMutexName { .. }));
}

#[test]
fn recoverable_matrix_matches_documented_contract() {
    let recoverable = [
        StartupError::Mutex {
            pipe_name: pipe("default"),
            source: IoFailure::other("mutex"),
        },
        StartupError::MutexTimeout {
            pipe_name: pipe("default"),
            waited: 1,
        },
        StartupError::PipeBusy {
            pipe_name: pipe("default"),
        },
        StartupError::PipeNotFound {
            pipe_name: pipe("default"),
        },
        StartupError::PipeNoData {
            pipe_name: pipe("default"),
        },
        StartupError::Launcher {
            source: IoFailure::other("launcher"),
        },
        StartupError::StartupTimeout {
            pipe_name: pipe("default"),
            waited: 1,
        },
    ];
    for error in recoverable {
        assert!(
            error.is_recoverable(),
            "expected recoverable, got {error:?}"
        );
    }

    let not_recoverable = [
        StartupError::InvalidPipeName {
            reason: "no prefix".into(),
            pipe_name: "/tmp/x".to_owned(),
        },
        StartupError::InvalidMutexName {
            reason: "too long".into(),
            pipe_name: pipe("default"),
        },
        StartupError::MutexAccessDenied {
            pipe_name: pipe("default"),
            source: IoFailure::other("denied"),
        },
        StartupError::PipeAccessDenied {
            pipe_name: pipe("default"),
        },
        StartupError::PipeIo {
            operation: "stat",
            pipe_name: pipe("default"),
            source: IoFailure::other("io"),
        },
    ];
    for error in not_recoverable {
        assert!(
            !error.is_recoverable(),
            "expected non-recoverable, got {error:?}"
        );
    }
}

#[test]
fn the_mutex_name_is_the_label_in_lower_case() {
    assert_eq!(
        startup_mutex_name(r"\\.\pipe\RMUX-Label").expect("a mutex name"),
        "Local\\rmux-startup-rmux-label"
    );
}

#[test]
fn connect_errors_are_told_apart() {
    let name = pipe("default");
    assert!(classify_connect_error(code(ERROR_FILE_NOT_FOUND), &name).is_ok());
    assert_eq!(
        classify_connect_error(code(ERROR_ACCESS_DENIED), &name),
        Err(StartupError::PipeAccessDenied { pipe_name: name.clone() })
    );
    assert!(classify_connect_error(code(ERROR_NO_DATA), &name).is_ok());
    assert_eq!(
        classify_connect_error(code(ERROR_PIPE_BUSY), &name),
        Err(StartupError::PipeBusy { pipe_name: name.clone() })
    );
    assert!(matches!(
        classify_connect_error(code(77), &name),
        Err(StartupError::PipeIo { .. })
    ));
    assert!(matches!(
        classify_io_error(code(77), "send probe frame", &name),
        Err(StartupError::PipeIo { operation: "send probe frame", .. })
    ));
}

#[test]
fn mutex_errors_are_told_apart() {
    let name = pipe("default");
    assert_eq!(
        map_named_mutex_error(NamedMutexError::TimedOut, &name, 5000),
        StartupError::MutexTimeout { pipe_name: name.clone(), waited: 5000 }
    );
    assert_eq!(
        map_named_mutex_error(NamedMutexError::AccessDenied(code(5)), &name, 5000),
        StartupError::MutexAccessDenied { pipe_name: name.clone(), source: code(5) }
    );
    assert_eq!(
        map_named_mutex_error(NamedMutexError::Wait(code(6)), &name, 5000),
        StartupError::Mutex { pipe_name: name.clone(), source: code(6) }
    );
    let reason = "too long".to_owned();
    assert_eq!(
        map_named_mutex_error(NamedMutexError::InvalidName { reason: reason.clone() }, &name, 5000),
        StartupError::InvalidMutexName { reason, pipe_name: name.clone() }
    );
}

#[test]
fn a_probe_goes_step_by_step() {
    let name = pipe("default");
    let steps = [
        (ProbeEvent::Opened(Ok(())), ProbeStep::SetWriteTimeout),
        (ProbeEvent::WriteTimeoutSet(Ok(())), ProbeStep::SetReadTimeout),
        (ProbeEvent::ReadTimeoutSet(Ok(())), ProbeStep::Encode),
        (ProbeEvent::Encoded(Ok(())), ProbeStep::Send),
        (ProbeEvent::Sent(Ok(())), ProbeStep::Read),
        (ProbeEvent::Read(Ok(12)), ProbeStep::Decode),
        (ProbeEvent::Decoded(ProbeFrame::Incomplete), ProbeStep::Read),
        (ProbeEvent::Decoded(ProbeFrame::HasSession), ProbeStep::Responsive),
        (ProbeEvent::Decoded(ProbeFrame::Malformed), ProbeStep::Silent),
        (ProbeEvent::Read(Ok(0)), ProbeStep::Silent),
        (ProbeEvent::Opened(Err(code(ERROR_FILE_NOT_FOUND))), ProbeStep::Silent),
    ];
    for (event, step) in steps {
        assert_eq!(probe_blocking(event, &name), step);
    }
    let answer = ProbeEvent::Decoded(ProbeFrame::Unexpected("pong".to_owned()));
    match probe_blocking(answer, &name) {
        ProbeStep::Failed(error) => {
            assert!(error.message().contains("unexpected startup probe response: pong"));
            assert!(error.source().is_some());
        }
        other => panic!("expected a failure, got {other:?}"),
    }
}

#[test]
fn a_daemon_that_answers_is_joined() {
    let name = pipe("default");
    let mut startup = connect_or_start(&name).expect("a pipe name");
    let action = startup.advance(StartupEvent::Probed(Ok(Some(9))), 0);
    assert_eq!(action, StartupAction::Finish(Ok(StartupOutcome::JoinedExisting(9))));
}

#[test]
fn a_daemon_is_launched_with_the_mutex_held() {
    let name = pipe("default");
    let mut startup = connect_or_start_with(&name, 100, 10).expect("a pipe name");
    match startup.advance::<u8>(StartupEvent::Probed(Ok(None)), 0) {
        StartupAction::Lock(mutex) => {
            assert_eq!(mutex, startup_mutex_name(&name).expect("a mutex name"));
        }
        other => panic!("expected a lock, got {other:?}"),
    }
    assert_eq!(startup.advance::<u8>(StartupEvent::Locked(MutexThread::Reported(Ok(()))), 0), StartupAction::Probe);
    assert_eq!(startup.advance::<u8>(StartupEvent::Probed(Ok(None)), 0), StartupAction::Launch);
    assert_eq!(startup.advance::<u8>(StartupEvent::Launched(Ok(())), 0), StartupAction::Probe);
    assert_eq!(
        startup.advance::<u8>(StartupEvent::Probed(Ok(None)), 5),
        StartupAction::Sleep(10)
    );
    assert_eq!(
        startup.advance::<u8>(StartupEvent::Probed(Ok(None)), 95),
        StartupAction::Sleep(5)
    );
    assert_eq!(
        startup.advance(StartupEvent::Probed(Ok(Some(3u8))), 99),
        StartupAction::Finish(Ok(StartupOutcome::Started(3)))
    );
}

#[test]
fn a_daemon_that_stays_silent_is_given_up() {
    let name = pipe("default");
    assert_eq!(
        wait_for_daemon::<u8>(Ok(None), 100, 100, 10, &name),
        WaitStep::Failed(StartupError::StartupTimeout { pipe_name: name.clone(), waited: 100 })
    );
    let busy = StartupError::PipeBusy { pipe_name: name.clone() };
    assert_eq!(wait_for_daemon::<u8>(Err(busy), 40, 100, 0, &name), WaitStep::Sleep(1));
    assert_eq!(wait_for_daemon(Ok(Some(1u8)), 400, 100, 10, &name), WaitStep::Ready(1));
}

#[test]
fn startup_mutex_holder_release_is_idempotent() {
    let mut holder: StartupMutexHolder<u8, u8> = StartupMutexHolder {
        release: None,
        thread: None,
    };
    assert_eq!(holder.release(), (None, None));
    let mut holder = StartupMutexHolder {
        release: Some(1),
        thread: Some(2),
    };
    assert_eq!(holder.release(), (Some(1), Some(2)));
    assert_eq!(holder.release(), (None, None));
}

#[test]
fn a_mutex_that_is_not_had_ends_the_startup() {
    let name = pipe("default");
    let lost = |source: IoFailure| StartupError::Mutex { pipe_name: name.clone(), source };
    assert_eq!(
        acquire_startup_mutex(MutexThread::NotStarted(code(8)), &name, 5),
        Err(lost(code(8)))
    );
    assert_eq!(
        acquire_startup_mutex(MutexThread::Silent, &name, 5),
        Err(lost(IoFailure::other("startup mutex thread exited before reporting an outcome")))
    );
    assert_eq!(
        acquire_startup_mutex(MutexThread::Reported(Err(NamedMutexError::TimedOut)), &name, 5),
        Err(StartupError::MutexTimeout { pipe_name: name.clone(), waited: 5 })
    );
    assert_eq!(acquire_startup_mutex(MutexThread::Reported(Ok(())), &name, 5), Ok(()));
}

#[test]
fn a_probe_whose_thread_failed_is_an_error() {
    let name = pipe("default");
    assert_eq!(probe_responsive(Ok(Ok(Some(4))), &name), Ok(Some(4)));
    assert_eq!(
        probe_responsive::<u8>(Err("panicked".to_owned()), &name),
        Err(StartupError::PipeIo {
            operation: "join probe task",
            pipe_name: name.clone(),
            source: IoFailure::other("startup probe join failed: panicked"),
        })
    );
}

#[test]
fn errors_say_what_happened() {
    let name = r"\\.\pipe\x".to_owned();
    let timeout = StartupError::StartupTimeout { pipe_name: name.clone(), waited: 1500 };
    assert_eq!(
        timeout.message(),
        r"rmux startup timed out after 1500ms waiting for '\\.\pipe\x' to answer"
    );
    let busy = StartupError::PipeBusy { pipe_name: name.clone() };
    assert_eq!(busy.message(), r"rmux pipe '\\.\pipe\x' is busy on every instance");
    let failed = StartupError::PipeIo {
        operation: "open named pipe",
        pipe_name: name,
        source: IoFailure::other("odd"),
    };
    assert_eq!(
        failed.message(),
        r"rmux pipe '\\.\pipe\x' failed to open named pipe: odd"
    );
    assert_eq!(failed.source(), Some(&IoFailure::other("odd")));
    assert_eq!(busy.source(), None);
}

#[test]
fn a_bad_pipe_name_starts_nothing() {
    assert!(matches!(
        connect_or_start("/tmp/rmux.sock"),
        Err(StartupError::InvalidPipeName { .. })
    ));
    assert!(connect_or_start_with(&pipe("default"), 100, 10).is_ok());
}

#[test]
fn outcomes_know_their_owner() {
    assert!(StartupOutcome::Started(1).is_owner());
    assert!(!StartupOutcome::JoinedExisting(1).is_owner());
    assert_eq!(StartupOutcome::Started(1).into_stream(), 1);
    assert_eq!(StartupOutcome::JoinedExisting(2).into_stream(), 2);
}
