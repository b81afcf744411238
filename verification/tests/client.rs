//! The client: its command line, its requests and control mode.
use std::collections::VecDeque;

use rmux::cli::{
    command_has_start_server_flag, complete, default_client_command, dispatch,
    dispatch_command_queue, display_panes_response, display_panes_unresolved,
    finish_command_success, invalid_layout_failure, select_layout, source_reads_stdin,
    stdin_failure, unexpected_response, unsupported_argument_suffix, write_command_output,
    write_lines_output, Action, CapturePaneArgs, Command, CopyModeArgs, DisplayPanesFailure,
    ExitFailure, Extras, IfShellArgs, KillPaneArgs, Need, QueuedArgs, Resolved, RunShellArgs,
    SelectLayoutArgs, SetBufferArgs, SourceFileArgs, TargetArgs, UnsupportedArgs, Words,
};
use rmux::client::{
    control_output_start, finish_control_mode, output_needs_suffix, poll_input_thread,
    write_initial_commands, Connection, ControlTransition, InputPoll, CONTROL_CONTROL_END,
    CONTROL_CONTROL_START,
};
use rmux::names::{PaneTarget, ProtoError, SessionName, Target, WindowTarget};
use rmux::protocol::{
    ClientTerminalContext, ControlMode, ControlModeResponse, ErrorResponse, HasSessionResponse,
    LayoutName, OutputResponse, Request, Response, SelectLayoutTarget,
};
use rmux::response::CommandOutput;
use rmux::startup::{IoFailure, IoKind};

fn words(list: &[&str]) -> Vec<String> {
    list.iter().map(|word| word.to_string()).collect()
}

fn pane(index: u32) -> PaneTarget {
    PaneTarget::with_window(SessionName::new("alpha"), 0, index)
}

fn window() -> WindowTarget {
    WindowTarget::with_window(SessionName::new("alpha"), 0)
}

fn extras() -> Extras {
    Extras {
        named_layout: None,
        stdin: None,
        caller_cwd: Some("/here".to_owned()),
    }
}

fn sent(action: Action) -> (&'static str, bool, Request) {
    match action {
        Action::Send(sending) => (sending.name, sending.payload, sending.request),
        other => panic!("expected a request, got {other:?}"),
    }
}

#[test]
fn a_command_with_a_routine_is_handed_to_it() {
    let list = || Command::ListSessions(Words { words: words(&["-F", "x"]) });
    assert_eq!(dispatch(list(), None), Action::Run(list()));
    assert_eq!(dispatch(Command::KillServer, None), Action::Run(Command::KillServer));
}

#[test]
fn a_queued_command_goes_as_standard_input() {
    let command = Command::DisplayMenu(QueuedArgs {
        queue_command: "display-menu -T x".to_owned(),
    });
    let (name, payload, request) = sent(dispatch(command, Some("/here".to_owned())));
    assert_eq!(name, "display-menu");
    assert!(!payload);
    match request {
        Request::SourceFile(asked) => {
            assert_eq!(asked.paths, vec!["-"]);
            assert_eq!(asked.stdin, Some("display-menu -T x".to_owned()));
            assert_eq!(asked.caller_cwd, Some("/here".to_owned()));
            assert!(!asked.quiet && !asked.parse_only && !asked.verbose && !asked.expand_paths);
        }
        other => panic!("expected source-file, got {other:?}"),
    }
}

#[test]
fn a_buffer_is_set_to_the_bytes_of_its_text() {
    let command = |content: Option<&str>| {
        Command::SetBuffer(SetBufferArgs {
            name: Some("b0".to_owned()),
            content: content.map(|text| text.to_owned()),
            append: true,
            new_name: None,
            set_clipboard: false,
        })
    };
    let (name, payload, request) = sent(dispatch(command(Some("é")), None));
    assert_eq!((name, payload), ("set-buffer", false));
    match request {
        Request::SetBuffer(asked) => {
            assert_eq!(asked.content, "é".as_bytes());
            assert_eq!(asked.name, Some("b0".to_owned()));
            assert!(asked.append);
        }
        other => panic!("expected set-buffer, got {other:?}"),
    }
    match sent(dispatch(command(None), None)).2 {
        Request::SetBuffer(asked) => assert!(asked.content.is_empty()),
        other => panic!("expected set-buffer, got {other:?}"),
    }
}

#[test]
fn a_condition_carries_the_directory_of_the_caller() {
    let command = Command::IfShell(IfShellArgs {
        condition: "true".to_owned(),
        format_mode: false,
        then_command: "a".to_owned(),
        else_command: None,
        target: Some(Target::Pane(pane(1))),
        background: false,
    });
    match sent(dispatch(command, Some("/here".to_owned()))).2 {
        Request::IfShell(asked) => {
            assert_eq!(asked.caller_cwd, Some("/here".to_owned()));
            assert_eq!(asked.target, Some(Target::Pane(pane(1))));
        }
        other => panic!("expected if-shell, got {other:?}"),
    }
}

#[test]
fn a_command_that_is_not_there_fails() {
    let command = Command::Unsupported(UnsupportedArgs {
        name: "frobnicate".to_owned(),
        arguments: words(&["-x", "y"]),
    });
    assert_eq!(
        dispatch(command, None),
        Action::Fail(ExitFailure::new(1, "command not implemented: frobnicate -x y".to_owned()))
    );
    assert_eq!(unsupported_argument_suffix(&words(&[])), "");
    assert_eq!(unsupported_argument_suffix(&words(&["a"])), " a");
}

#[test]
fn a_capture_prints_where_it_was_asked_to() {
    for print in [true, false] {
        let command = Command::CapturePane(CapturePaneArgs {
            print,
            words: Vec::new(),
        });
        match dispatch(command, None) {
            Action::Build(building) => {
                assert_eq!(building.name, "capture-pane");
                assert_eq!(building.payload, print);
            }
            other => panic!("expected a request to build, got {other:?}"),
        }
    }
}

#[test]
fn targets_are_resolved_before_a_request_is_made() {
    let command = Command::KillPane(KillPaneArgs {
        target: None,
        kill_all_except: true,
    });
    let resolving = match dispatch(command, None) {
        Action::Resolve(resolving) => resolving,
        other => panic!("expected targets to resolve, got {other:?}"),
    };
    assert_eq!(resolving.name, "kill-pane");
    assert_eq!(resolving.needs, vec![Need::CurrentPane]);
    assert!(!resolving.starts_server && !resolving.reads_stdin);
    let resolved = VecDeque::from([Resolved::Pane(pane(2))]);
    match complete(resolving.command, resolved, extras()) {
        Some(Ok(Request::KillPane(asked))) => {
            assert_eq!(asked.target, pane(2));
            assert!(asked.kill_all_except);
        }
        other => panic!("expected kill-pane, got {other:?}"),
    }
}

#[test]
fn copy_mode_resolves_its_target_before_its_source() {
    let args = |target: Option<&str>, source: Option<&str>| CopyModeArgs {
        target: target.map(|text| text.to_owned()),
        source: source.map(|text| text.to_owned()),
        page_down: true,
        exit_on_scroll: false,
        hide_position: true,
        mouse_drag_start: false,
        cancel_mode: false,
        scrollbar_scroll: false,
        page_up: false,
    };
    let resolving = match dispatch(Command::CopyMode(args(Some("a"), Some("b"))), None) {
        Action::Resolve(resolving) => resolving,
        other => panic!("expected targets to resolve, got {other:?}"),
    };
    assert_eq!(
        resolving.needs,
        vec![Need::Pane("a".to_owned()), Need::Pane("b".to_owned())]
    );
    let resolved = VecDeque::from([Resolved::Pane(pane(1)), Resolved::Pane(pane(2))]);
    match complete(resolving.command, resolved, extras()) {
        Some(Ok(Request::CopyMode(asked))) => {
            assert_eq!(asked.target, Some(pane(1)));
            assert_eq!(asked.source, Some(pane(2)));
            assert!(asked.page_down && asked.hide_position && !asked.page_up);
        }
        other => panic!("expected copy-mode, got {other:?}"),
    }
    let only_source = Command::CopyMode(args(None, Some("b")));
    let resolved = VecDeque::from([Resolved::Pane(pane(3))]);
    match complete(only_source, resolved, extras()) {
        Some(Ok(Request::CopyMode(asked))) => {
            assert_eq!(asked.target, None);
            assert_eq!(asked.source, Some(pane(3)));
        }
        other => panic!("expected copy-mode, got {other:?}"),
    }
}

#[test]
fn files_are_run_with_what_the_standard_input_held() {
    let command = Command::SourceFile(SourceFileArgs {
        paths: words(&["a.conf", "-"]),
        quiet: true,
        parse_only: false,
        verbose: true,
        expand_paths: false,
        target: None,
    });
    assert!(command_has_start_server_flag(&command));
    let resolving = match dispatch(command, None) {
        Action::Resolve(resolving) => resolving,
        other => panic!("expected targets to resolve, got {other:?}"),
    };
    assert!(resolving.starts_server && resolving.reads_stdin);
    assert!(resolving.needs.is_empty());
    let with_input = Extras {
        stdin: Some("set -g x".to_owned()),
        ..extras()
    };
    match complete(resolving.command, VecDeque::new(), with_input) {
        Some(Ok(Request::SourceFile(asked))) => {
            assert_eq!(asked.paths, words(&["a.conf", "-"]));
            assert_eq!(asked.stdin, Some("set -g x".to_owned()));
            assert_eq!(asked.caller_cwd, Some("/here".to_owned()));
            assert!(asked.quiet && asked.verbose);
        }
        other => panic!("expected source-file, got {other:?}"),
    }
    assert!(!source_reads_stdin(&words(&["a", "--"])));
}

#[test]
fn a_shell_command_goes_to_the_background_where_it_was_asked_to() {
    for background in [true, false] {
        let command = Command::RunShell(RunShellArgs {
            command: "ls".to_owned(),
            background,
            as_commands: false,
            show_stderr: true,
            delay_ms: Some(1500),
            start_directory: None,
            target: None,
        });
        match complete(command, VecDeque::new(), extras()) {
            Some(Ok(Request::RunShell(asked))) => {
                assert_eq!(asked.background, background);
                assert_eq!(asked.delay_ms, Some(1500));
                assert_eq!(asked.target, None);
                assert!(asked.show_stderr);
            }
            other => panic!("expected run-shell, got {other:?}"),
        }
    }
    assert_eq!(complete(Command::KillServer, VecDeque::new(), extras()), None);
}

#[test]
fn layouts_are_named_or_described() {
    let target = || SelectLayoutTarget::Window(window());
    match select_layout(target(), "tiled".to_owned(), Some(LayoutName::Tiled)) {
        Ok(Request::SelectLayout(asked)) => assert_eq!(asked.layout, LayoutName::Tiled),
        other => panic!("expected a named layout, got {other:?}"),
    }
    match select_layout(target(), "b25f,80x24,0,0,1".to_owned(), None) {
        Ok(Request::SelectCustomLayout(asked)) => assert_eq!(asked.layout, "b25f,80x24,0,0,1"),
        other => panic!("expected a described layout, got {other:?}"),
    }
    let mirrored = "main-vertical-mirrored";
    assert_eq!(
        select_layout(target(), mirrored.to_owned(), Some(LayoutName::MainVerticalMirrored)),
        Err(invalid_layout_failure(mirrored))
    );
    assert_eq!(
        select_layout(target(), "bogus".to_owned(), None),
        Err(ExitFailure::new(1, "invalid layout: bogus".to_owned()))
    );
    let command = Command::SelectLayout(SelectLayoutArgs {
        target: None,
        layout: "tiled".to_owned(),
    });
    let named = Extras {
        named_layout: Some(LayoutName::Tiled),
        ..extras()
    };
    match complete(command, VecDeque::from([Resolved::Window(window())]), named) {
        Some(Ok(Request::SelectLayout(asked))) => assert_eq!(asked.target, target()),
        other => panic!("expected a named layout, got {other:?}"),
    }
}

#[test]
fn the_window_of_a_layout_is_the_current_one_unless_given() {
    let command = |target: Option<&str>| {
        Command::NextLayout(TargetArgs {
            target: target.map(|text| text.to_owned()),
        })
    };
    match dispatch(command(None), None) {
        Action::Resolve(resolving) => {
            assert_eq!(resolving.needs, vec![Need::WindowOrCurrent(None)]);
        }
        other => panic!("expected a window to resolve, got {other:?}"),
    }
    match complete(command(None), VecDeque::from([Resolved::Window(window())]), extras()) {
        Some(Ok(Request::NextLayout(asked))) => assert_eq!(asked.target, window()),
        other => panic!("expected next-layout, got {other:?}"),
    }
}

#[test]
fn a_client_that_is_not_there_is_named() {
    let error = || ExitFailure::new(1, "no session".to_owned());
    assert_eq!(
        display_panes_unresolved(Some("tty1".to_owned()), error()),
        DisplayPanesFailure::NoClient("tty1".to_owned())
    );
    assert_eq!(display_panes_unresolved(None, error()), DisplayPanesFailure::Other(error()));
    let unknown = || {
        Response::Error(ErrorResponse {
            error: ProtoError::Server("no current client".to_owned()),
        })
    };
    assert_eq!(
        display_panes_response(Some("tty1".to_owned()), unknown()),
        Err(DisplayPanesFailure::NoClient("tty1".to_owned()))
    );
    assert_eq!(display_panes_response(None, unknown()), Ok(unknown()));
    assert_eq!(
        display_panes_response(Some("tty1".to_owned()), Response::Done),
        Ok(Response::Done)
    );
}

#[test]
fn commands_run_until_one_fails() {
    let mut run = dispatch_command_queue(VecDeque::from([
        Command::KillServer,
        Command::StartServer,
    ]));
    assert_eq!(run.next(), Some(Command::KillServer));
    let mut run = run.record(Ok(3)).expect("no failure");
    assert_eq!(run.exit_code, 3);
    assert_eq!(run.next(), Some(Command::StartServer));
    let failure = ExitFailure::new(1, "gone".to_owned());
    assert_eq!(run.record(Err(failure)), Err(ExitFailure::new(1, "gone".to_owned())));
}

#[test]
fn no_command_means_a_new_session() {
    let mut run = dispatch_command_queue(VecDeque::new());
    assert_eq!(run.next(), Some(default_client_command()));
    assert_eq!(run.next(), None);
    assert_eq!(run.exit_code, 0);
    assert!(command_has_start_server_flag(&default_client_command()));
    assert!(!command_has_start_server_flag(&Command::KillServer));
}

#[test]
fn a_response_is_printed_where_it_was_expected() {
    let response = Response::Output(OutputResponse {
        output: CommandOutput::from_stdout(b"hello\n".to_vec()),
    });
    assert_eq!(
        finish_command_success(&response, Ok(())),
        Ok(Some(CommandOutput::from_stdout(b"hello\n".to_vec())))
    );
    assert_eq!(finish_command_success(&Response::Done, Ok(())), Ok(None));
    let failure = unexpected_response("show-buffer", "done");
    assert_eq!(
        failure.message,
        "protocol error: unexpected 'done' response for show-buffer"
    );
    assert!(finish_command_success(&Response::Done, Err(failure)).is_err());
}

#[test]
fn a_reader_that_is_gone_is_no_failure() {
    let failure = |kind: IoKind| IoFailure {
        code: None,
        kind,
        message: "gone".to_owned(),
    };
    assert_eq!(write_command_output(Ok(())), Ok(()));
    assert_eq!(write_command_output(Err(failure(IoKind::BrokenPipe))), Ok(()));
    assert_eq!(
        write_command_output(Err(failure(IoKind::Other))),
        Err(ExitFailure::new(1, "failed to write command output: gone".to_owned()))
    );
    assert_eq!(stdin_failure("gone").message, "failed to read stdin: gone");
}

#[test]
fn lines_are_printed_with_their_ends() {
    assert!(write_lines_output(&words(&[])).stdout.is_empty());
    assert_eq!(write_lines_output(&words(&["a", "b"])).stdout, b"a\nb\n");
    assert_eq!(write_lines_output(&words(&[""])).stdout, b"\n");
}

#[test]
fn requests_go_out_in_order() {
    let mut connection = Connection::new();
    connection.display_message(None, true, Some("hi".to_owned()));
    connection.show_messages(false, true, None);
    assert_eq!(connection.sent.len(), 2);
    match &connection.sent[0] {
        Request::DisplayMessage(asked) => assert_eq!(asked.message, Some("hi".to_owned())),
        other => panic!("expected display-message, got {other:?}"),
    }
    match &connection.sent[1] {
        Request::ShowMessages(asked) => assert!(asked.terminals && !asked.jobs),
        other => panic!("expected show-messages, got {other:?}"),
    }
}

fn terminal() -> ClientTerminalContext {
    ClientTerminalContext {
        terminal_features: Vec::new(),
        utf8: true,
    }
}

#[test]
fn control_mode_is_on_when_the_server_says_so() {
    let pending = Connection::new().begin_control_mode(ControlMode::Plain, terminal());
    assert!(matches!(&pending.sent[0], Request::ControlMode(asked) if asked.mode == ControlMode::Plain));
    let mode = ControlMode::Plain;
    match pending.receive(Response::ControlMode(ControlModeResponse { mode })) {
        ControlTransition::Upgraded(upgrade) => assert_eq!(upgrade.response.mode, mode),
        other => panic!("expected control mode, got {other:?}"),
    }
    let pending = Connection::new().begin_control_mode(ControlMode::Plain, terminal());
    let refused = Response::HasSession(HasSessionResponse { exists: true });
    assert!(matches!(pending.receive(refused), ControlTransition::Rejected(_)));
}

#[test]
fn control_control_mode_wraps_output_with_dcs_sequences() {
    let mode = ControlMode::ControlControl;
    let mut output = control_output_start(mode);
    output.extend_from_slice(b"%exit\n");
    let finish = finish_control_mode(mode, Ok(()), InputPoll::Finished(Ok(())))
        .expect("control mode succeeds");
    output.extend_from_slice(&finish.suffix);
    finish.conclude(true).expect("control mode succeeds");

    let rendered = String::from_utf8(output).expect("utf8");
    assert!(rendered.starts_with(CONTROL_CONTROL_START));
    assert!(rendered.contains("%exit\n"));
    assert!(rendered.ends_with(CONTROL_CONTROL_END));
}

#[test]
fn control_mode_returns_after_server_exit_without_waiting_for_input_eof() {
    let mode = ControlMode::Plain;
    let mut output = control_output_start(mode);
    output.extend_from_slice(b"%exit\n");
    let finish = finish_control_mode(mode, Ok(()), InputPoll::Running)
        .expect("control mode should exit promptly");
    assert!(!finish.join_input);
    output.extend_from_slice(&finish.suffix);
    finish.conclude(true).expect("control mode succeeds");
    assert_eq!(String::from_utf8(output).expect("utf8"), "%exit\n");
}

#[test]
fn failures_of_control_mode_have_an_order() {
    let mode = ControlMode::ControlControl;
    let lost = finish_control_mode(mode, Ok(()), InputPoll::Lost).expect_err("the thread is gone");
    assert_eq!(lost.message, "control input thread terminated unexpectedly");
    let broken = || IoFailure::other("broken");
    let typed = || IoFailure::other("typed");
    let finish = finish_control_mode(mode, Err(broken()), InputPoll::Finished(Err(typed())))
        .expect("the input has ended");
    assert!(finish.suffix.is_empty());
    assert_eq!(finish.conclude(true), Err(broken()));
    let finish = finish_control_mode(mode, Ok(()), InputPoll::Finished(Err(typed())))
        .expect("the input has ended");
    assert_eq!(finish.conclude(true), Err(typed()));
    let finish = finish_control_mode(mode, Err(broken()), InputPoll::Finished(Ok(())))
        .expect("the input has ended");
    assert_eq!(
        finish.conclude(false).expect_err("the thread failed").message,
        "control input thread panicked"
    );
    assert_eq!(poll_input_thread(InputPoll::Running), Ok(None));
    assert!(output_needs_suffix(mode) && !output_needs_suffix(ControlMode::Plain));
}

#[test]
fn initial_commands_are_lines() {
    assert_eq!(write_initial_commands(&words(&["new", "ls -F é"])), "new\nls -F é\n".as_bytes());
    assert!(write_initial_commands(&words(&[])).is_empty());
}
