//! Commands that run other commands, and the small server of Windows.
use std::collections::VecDeque;

use rmux::listener::LocalListener;
use rmux::names::{PaneTarget, ProtoError, SessionName, Target};
use rmux::process::{command_name, current_path, executable_name, foreground_pid};
use rmux::protocol::{
    ErrorResponse, IfShellRequest, OptionalOutputResponse, OutputResponse, Request, Response,
    RunShellRequest, SessionRequest,
};
use rmux::queue::{
    prompt_queue_action_from_result, queue_action_from_response, remove_group_contexts,
    PromptQueueResult, QueueCommandAction, QueueExecutionContext,
};
use rmux::response::CommandOutput;
use rmux::session::{Pane, Session, Window};
use rmux::shell::{
    commands_result, execute_queued_if_shell, execute_queued_if_shell_background, failure_text, handle_if_shell, handle_run_shell,
    if_shell_failure, if_shell_profile, if_shell_task, queued_if_shell_action, run_shell_failure,
    run_shell_task, run_shell_wait, shell_result, CommandListArgument, ConditionCheck, ParsedIfShellCommand,
    QueuedIfShellEnd, QueuedIfShellStep, Rendering, RunShellWork, ShellOutput,
};
use rmux::source::{
    aimed_source_file, config_loading_active, enter_config_load, execute_loaded_source_file, execute_queued_source_file, handle_source_file,
    implicit_source_file_target, leave_config_load, load_queued_source_file,
    load_source_file_command, load_startup_config, source_file_context, ConfigFileSelection,
    LoadStep, LoadedSourceFile, ParsedInput, ParsedSourceFileCommand, SourceInput, SourceLoad,
    SourceReply, SourcedParsedCommands, StartupStep,
};
use rmux::state::HandlerState;
use rmux::table::Table;
use rmux::windows_runtime::{
    after_read, dispatch_minimal_windows_request, log_connection_task_result, read_request,
    serve_connection, ReadStep, TaskEnd, WINDOWS_RUNTIME_UNSUPPORTED,
};

fn pane() -> PaneTarget {
    PaneTarget::with_window(SessionName::new("alpha"), 0, 0)
}

fn output(text: &str) -> CommandOutput {
    CommandOutput::from_stdout(text.as_bytes().to_vec())
}

fn server_error(text: &str) -> ProtoError {
    ProtoError::Server(text.to_owned())
}

fn context(depth: usize) -> QueueExecutionContext {
    QueueExecutionContext::new(Some("/here".to_owned())).for_sourced_commands(depth, None)
}

fn state() -> HandlerState {
    let mut windows = Table::new();
    windows.insert(
        0,
        Window {
            name: "zero".to_owned(),
            panes: vec![Pane { index: 0, id: 5 }],
            active: Some(0),
            zoomed: false,
        },
    );
    let mut state = HandlerState::new();
    state.sessions.insert(
        SessionName::new("alpha"),
        Session {
            name: SessionName::new("alpha"),
            id: 3,
            windows,
            active: 0,
        },
    );
    state
}

#[test]
fn contexts_are_made_from_one_another() {
    let made = QueueExecutionContext::new(Some("/here".to_owned()));
    assert_eq!(made.source_file_depth, 0);
    assert_eq!(made.current_target(), None);
    let aimed = made
        .with_current_target(Some(Target::Pane(pane())))
        .with_mouse_target(Some(Target::Session(SessionName::new("beta"))));
    let read = aimed.for_sourced_commands(2, Some("a.conf".to_owned()));
    assert_eq!(read.caller_cwd, Some("/here".to_owned()));
    assert_eq!(read.source_file_depth, 2);
    assert_eq!(read.current_file, Some("a.conf".to_owned()));
    assert_eq!(read.current_target(), Some(&Target::Pane(pane())));
    assert_eq!(read.mouse_target, aimed.mouse_target);
    assert_eq!(QueueExecutionContext::without_caller_cwd().caller_cwd, None);
}

#[test]
fn a_group_leaves_with_its_contexts() {
    let groups = vec![1, 2, 1, 3];
    let mut contexts = VecDeque::from([context(0), context(1), context(2), context(3)]);
    remove_group_contexts(&groups, &mut contexts, 1);
    assert_eq!(contexts, VecDeque::from([context(1), context(3)]));
    remove_group_contexts(&vec![2, 3], &mut contexts, 1);
    assert_eq!(contexts, VecDeque::from([context(1), context(3)]));
    let mut longer = VecDeque::from([context(0), context(1)]);
    remove_group_contexts(&vec![7], &mut longer, 1);
    assert_eq!(longer, VecDeque::from([context(0)]));
}

#[test]
fn responses_become_actions() {
    let printed = Response::Output(OutputResponse { output: output("x") });
    assert_eq!(
        queue_action_from_response::<u8>(printed),
        Ok(QueueCommandAction::Normal {
            output: Some(output("x")),
            error: None,
        })
    );
    let silent = Response::Output(OutputResponse { output: output("") });
    assert_eq!(
        queue_action_from_response::<u8>(silent),
        Ok(QueueCommandAction::Normal {
            output: None,
            error: None,
        })
    );
    let failed = Response::Error(ErrorResponse {
        error: server_error("no"),
    });
    assert_eq!(queue_action_from_response::<u8>(failed), Err(server_error("no")));
}

#[test]
fn prompts_may_insert_commands() {
    let inserted = PromptQueueResult {
        inserted: Some(("ls", context(0))),
        error: Some(server_error("odd")),
    };
    assert_eq!(
        prompt_queue_action_from_result(inserted),
        QueueCommandAction::InsertAfter {
            batches: vec![("ls", context(0))],
            output: None,
            error: Some(server_error("odd")),
        }
    );
    let nothing: PromptQueueResult<&str> = PromptQueueResult {
        inserted: None,
        error: None,
    };
    assert_eq!(
        prompt_queue_action_from_result(nothing),
        QueueCommandAction::Normal {
            output: None,
            error: None,
        }
    );
}

fn run_shell(command: &str, as_commands: bool) -> RunShellRequest {
    RunShellRequest {
        command: command.to_owned(),
        background: false,
        as_commands,
        show_stderr: false,
        delay_ms: Some(20),
        start_directory: Some("/tmp".to_owned()),
        target: Some(pane()),
    }
}

#[test]
fn run_shell_has_three_kinds_of_work() {
    let state = state();
    assert_eq!(run_shell_wait(&run_shell("", false)), Some(20));
    assert_eq!(
        run_shell_task(&state, &run_shell("", false), false),
        RunShellWork::Nothing
    );
    match run_shell_task(&state, &run_shell("new-window", true), false) {
        RunShellWork::Commands(text, context) => {
            assert_eq!(text, "new-window");
            assert_eq!(context.caller_cwd, Some("/tmp".to_owned()));
            assert_eq!(context.current_target, Some(Target::Pane(pane())));
        }
        other => panic!("expected commands, got {other:?}"),
    }
    match run_shell_task(&state, &run_shell("ls", false), true) {
        RunShellWork::Shell(rendering, profile) => {
            assert_eq!(rendering.template, "ls");
            assert_eq!(rendering.counted_session(), Some(&SessionName::new("alpha")));
            assert_eq!(profile.session, Some((SessionName::new("alpha"), 3)));
            assert_eq!(profile.directory, Some("/tmp".to_owned()));
            assert!(!profile.configured);
        }
        other => panic!("expected a shell, got {other:?}"),
    }
}

#[test]
fn a_shell_command_prints_or_fails() {
    let ran = |success: bool, stdout: &str, stderr: &str| ShellOutput {
        success,
        status: "exit status: 3".to_owned(),
        stdout: stdout.as_bytes().to_vec(),
        stderr: stderr.as_bytes().to_vec(),
    };
    assert_eq!(shell_result(ran(true, "out", "err"), false), Ok(Some(output("out"))));
    assert_eq!(shell_result(ran(true, "out", "err"), true), Ok(Some(output("outerr"))));
    assert_eq!(shell_result(ran(true, "", "err"), false), Ok(None));
    assert_eq!(
        shell_result(ran(false, "out", " no such file \n"), false),
        Err(server_error("run-shell command exited with exit status: 3: no such file"))
    );
    assert_eq!(
        shell_result(ran(false, "", ""), false),
        Err(server_error("run-shell command exited with exit status: 3"))
    );
    let garbled = ShellOutput {
        stderr: vec![0xff],
        ..ran(false, "", "")
    };
    assert_eq!(
        shell_result(garbled, false),
        Err(server_error("run-shell command exited with exit status: 3: \u{fffd}"))
    );
    assert_eq!(failure_text("1", " "), "run-shell command exited with 1");
}

#[test]
fn answers_to_shell_commands_carry_what_is_printed() {
    let done = |output: Option<CommandOutput>| Response::RunShell(OptionalOutputResponse { output });
    assert_eq!(handle_run_shell(true, None), Some(done(None)));
    assert_eq!(
        handle_run_shell(false, Some(Ok(Some(output("x"))))),
        Some(done(Some(output("x"))))
    );
    assert_eq!(handle_run_shell(false, None), None);
    let error = server_error("no");
    assert_eq!(
        handle_run_shell(false, Some(Err(error.clone()))),
        Some(Response::Error(ErrorResponse { error: error.clone() }))
    );
    let chosen = |output: Option<CommandOutput>| Response::IfShell(OptionalOutputResponse { output });
    assert_eq!(handle_if_shell(true, None), Some(chosen(None)));
    assert_eq!(handle_if_shell(false, Some(Ok(Some(output(""))))), Some(chosen(None)));
    assert_eq!(
        handle_if_shell(false, Some(Ok(Some(output("x"))))),
        Some(chosen(Some(output("x"))))
    );
    assert_eq!(
        handle_if_shell(false, Some(Err(error.clone()))),
        Some(Response::Error(ErrorResponse { error }))
    );
    assert_eq!(commands_result(Ok(output(""))), Ok(None));
    assert_eq!(run_shell_failure(true, "x"), server_error("failed to run shell command: x"));
    assert_eq!(run_shell_failure(false, "x"), server_error("run-shell task failed: x"));
    assert_eq!(
        if_shell_failure(true, "x"),
        server_error("failed to run if-shell condition: x")
    );
    assert_eq!(
        if_shell_failure(false, "x"),
        server_error("if-shell condition task failed: x")
    );
}

#[test]
fn a_condition_chooses_a_command() {
    let request = |else_command: Option<&str>| IfShellRequest {
        condition: "#{x}".to_owned(),
        format_mode: true,
        then_command: "then".to_owned(),
        else_command: else_command.map(|text| text.to_owned()),
        target: Some(Target::Session(SessionName::new("beta"))),
        caller_cwd: Some("/here".to_owned()),
        background: false,
    };
    assert_eq!(if_shell_profile(&state(), &request(None), false).session, None);
    let (text, context) = if_shell_task(request(None), true).expect("a command");
    assert_eq!(text, "then");
    assert_eq!(context.caller_cwd, Some("/here".to_owned()));
    assert_eq!(if_shell_task(request(None), false), None);
    assert_eq!(if_shell_task(request(Some("else")), false).expect("a command").0, "else");
}

fn queued(format_mode: bool, background: bool) -> ParsedIfShellCommand<&'static str> {
    ParsedIfShellCommand {
        condition: "cond".to_owned(),
        format_mode,
        then_commands: CommandListArgument::Parsed("then"),
        else_commands: Some(CommandListArgument::String("else".to_owned())),
        target: None,
        caller_cwd: Some("/cwd".to_owned()),
        background,
    }
}

#[test]
fn a_queued_condition_goes_step_by_step() {
    let context = context(0).with_current_target(Some(Target::Pane(pane())));
    let rendering = Rendering {
        template: "cond".to_owned(),
        target: Some(Target::Pane(pane())),
        current_file: None,
    };
    assert_eq!(
        execute_queued_if_shell(&queued(false, true), &context),
        QueuedIfShellStep::Background
    );
    assert_eq!(
        execute_queued_if_shell(&queued(true, false), &context),
        QueuedIfShellStep::Expand(rendering)
    );
    assert_eq!(
        execute_queued_if_shell_background(&queued(false, true), &context),
        QueuedIfShellStep::FindProfile
    );
    let command = queued(false, false);
    assert_eq!(execute_queued_if_shell(&command, &context), QueuedIfShellStep::FindProfile);
    let profile = command.queued_if_shell_profile(&state(), false);
    assert!(profile.configured);
    assert_eq!(profile.session, None);
    assert_eq!(profile.directory, Some("/cwd".to_owned()));
    assert!(matches!(command.profiled(&context, Ok(())), QueuedIfShellStep::Expand(_)));
    assert_eq!(
        command.profiled(&context, Err(server_error("no"))),
        QueuedIfShellStep::Fail(server_error("no"))
    );
    assert_eq!(
        command.expanded(Ok("test -f x".to_owned())),
        QueuedIfShellStep::Check(ConditionCheck::Shell("test -f x".to_owned()))
    );
    assert_eq!(
        queued(true, false).expanded(Ok("1".to_owned())),
        QueuedIfShellStep::Check(ConditionCheck::Text("1".to_owned()))
    );
    assert_eq!(command.decided(Ok(true)), QueuedIfShellEnd::Commands("then"));
    assert_eq!(
        queued(false, false).decided(Ok(false)),
        QueuedIfShellEnd::Parse("else".to_owned())
    );
    let without_else = ParsedIfShellCommand {
        else_commands: None,
        ..queued(false, false)
    };
    assert_eq!(without_else.decided(Ok(false)), QueuedIfShellEnd::Nothing);
    assert_eq!(
        queued_if_shell_action(Some("then"), &context),
        QueueCommandAction::InsertAfter {
            batches: vec![("then", context.clone())],
            output: None,
            error: None,
        }
    );
    assert_eq!(
        queued_if_shell_action::<&str>(None, &context),
        QueueCommandAction::Normal {
            output: None,
            error: None,
        }
    );
}

fn source(paths: &[&str]) -> ParsedSourceFileCommand {
    ParsedSourceFileCommand {
        paths: paths.iter().map(|path| path.to_string()).collect(),
        quiet: false,
        parse_only: false,
        verbose: true,
        expand_paths: true,
        target: Some(pane()),
        caller_cwd: Some("/here".to_owned()),
        stdin: None,
        current_file: None,
    }
}

fn input(name: &str) -> SourceInput {
    SourceInput {
        current_file: name.to_owned(),
        contents: String::new(),
    }
}

fn parsed(text: &'static str) -> ParsedInput<&'static str> {
    ParsedInput {
        commands: text,
        is_empty: text.is_empty(),
        printed: text.to_owned(),
    }
}

#[test]
fn files_are_read_path_by_path() {
    let mut load: SourceLoad<&'static str> =
        load_source_file_command(source(&["#{a}", "missing"]), 1, 50).expect("not too deep");
    match load.next() {
        LoadStep::Render(rendering) => {
            assert_eq!(rendering.template, "#{a}");
            assert_eq!(rendering.target, Some(Target::Pane(pane())));
        }
        other => panic!("expected a template, got {other:?}"),
    }
    let asked = load.rendered(Ok("a".to_owned())).expect("rendered");
    assert_eq!(asked.path, "a");
    assert_eq!(asked.caller_cwd, Some("/here".to_owned()));
    load.take_inputs(Ok(vec![input("a1"), input("a2"), input("a3")]));
    match load.next() {
        LoadStep::Parse(request) => {
            assert_eq!(request.current_file, "a1");
            assert_eq!(request.target, Some(Target::Pane(pane())));
        }
        other => panic!("expected a file to parse, got {other:?}"),
    }
    load.take_parsed(Ok(parsed("set x")));
    load.take_parsed(Err(server_error("a2: syntax error")));
    load.take_parsed(Ok(parsed("")));
    assert!(matches!(load.next(), LoadStep::Render(_)));
    load.take_inputs(Err(server_error("missing: no such file")));
    assert_eq!(load.next(), LoadStep::Done);
    assert_eq!(load.loaded.stdout, b"set x\n");
    assert_eq!(
        load.loaded.errors,
        vec![server_error("a2: syntax error"), server_error("missing: no such file")]
    );
    let names: Vec<&str> = load.loaded.commands.iter().map(|batch| batch.commands).collect();
    assert_eq!(names, vec!["set x", ""]);
    assert_eq!(load.loaded.commands[0].current_file, Some("a1".to_owned()));
}

#[test]
fn nothing_is_kept_where_nothing_is_run() {
    let command = ParsedSourceFileCommand {
        parse_only: true,
        expand_paths: false,
        ..source(&["a"])
    };
    let mut load: SourceLoad<&'static str> =
        load_source_file_command(command, 1, 50).expect("not too deep");
    assert!(matches!(load.next(), LoadStep::Read(asked) if asked.path == "a"));
    load.take_inputs(Ok(vec![input("a")]));
    load.take_parsed(Ok(parsed("set x")));
    assert!(load.loaded.is_empty());
    assert_eq!(load.loaded.stdout, b"set x\n");
    assert!(load.rendered(Err(server_error("bad format"))).is_err());
}

#[test]
fn files_cannot_stand_in_each_other_too_deeply() {
    assert_eq!(
        load_source_file_command::<&str>(source(&["a"]), 51, 50),
        Err(server_error("too many nested files"))
    );
    let inner = QueueExecutionContext {
        current_file: Some("outer".to_owned()),
        ..context(49)
    };
    let load: SourceLoad<&str> =
        load_queued_source_file(source(&["a"]), &inner, 50).expect("just deep enough");
    assert_eq!(load.command.current_file, Some("outer".to_owned()));
    assert_eq!(
        load_queued_source_file::<&str>(source(&["a"]), &context(50), 50),
        Err(server_error("too many nested files"))
    );
    assert!(load_queued_source_file::<&str>(source(&["a"]), &context(usize::MAX), 50).is_err());
}

fn loaded(commands: &[&'static str], stdout: &str, errors: &[&str]) -> LoadedSourceFile<&'static str> {
    LoadedSourceFile {
        commands: commands
            .iter()
            .map(|text| SourcedParsedCommands {
                commands: *text,
                current_file: Some("f".to_owned()),
            })
            .collect(),
        stdout: stdout.as_bytes().to_vec(),
        errors: errors.iter().map(|text| server_error(text)).collect(),
    }
}

#[test]
fn what_was_read_comes_next_in_the_queue() {
    let action = execute_queued_source_file(false, loaded(&["a", "b"], "x", &[]), &context(1), None);
    let inner = context(1).for_sourced_commands(2, Some("f".to_owned()));
    assert_eq!(
        action,
        QueueCommandAction::InsertAfter {
            batches: vec![("a", inner.clone()), ("b", inner)],
            output: Some(output("x")),
            error: None,
        }
    );
    let quiet = execute_queued_source_file(
        false,
        loaded(&[], "", &[]),
        &context(1),
        Some(server_error("no")),
    );
    assert_eq!(
        quiet,
        QueueCommandAction::Normal {
            output: None,
            error: Some(server_error("no")),
        }
    );
}

#[test]
fn every_file_is_run_and_every_error_counts() {
    assert_eq!(
        execute_loaded_source_file(&vec![Ok(output("a")), Ok(output("b"))]),
        Ok(output("ab"))
    );
    assert_eq!(
        execute_loaded_source_file(&vec![
            Err(server_error("one")),
            Ok(output("b")),
            Err(server_error("two")),
        ]),
        Err(vec![server_error("one"), server_error("two")])
    );
    assert_eq!(execute_loaded_source_file(&vec![]), Ok(output("")));
}

#[test]
fn source_file_answers_with_errors_or_output() {
    let answer = |output: Option<CommandOutput>| {
        SourceReply::Answer(Response::SourceFile(OptionalOutputResponse { output }))
    };
    assert_eq!(
        handle_source_file(loaded(&[], "read", &[]), Some(Ok(output(" ran")))),
        answer(Some(output("read ran")))
    );
    assert_eq!(handle_source_file(loaded(&[], "", &[]), None), answer(None));
    assert_eq!(
        handle_source_file(loaded(&[], "read", &["one"]), Some(Err(vec![server_error("two")]))),
        SourceReply::Errors(vec![server_error("one"), server_error("two")])
    );
    assert_eq!(
        source_file_context(&source(&["a"])).current_target,
        Some(Target::Pane(pane()))
    );
}

#[test]
fn a_file_runs_about_the_active_pane() {
    let alpha = SessionName::new("alpha");
    let beta = SessionName::new("beta");
    assert_eq!(implicit_source_file_target(&state(), None, Some(&alpha)), Some(pane()));
    assert_eq!(implicit_source_file_target(&state(), Some(&beta), Some(&alpha)), None);
    assert_eq!(implicit_source_file_target(&state(), None, None), None);
}

#[test]
fn startup_falls_back_once() {
    let paths = |list: &[&str]| -> Vec<String> { list.iter().map(|path| path.to_string()).collect() };
    let (step, mut load) = load_startup_config::<&'static str>(
        ConfigFileSelection::Default,
        Some("/home".to_owned()),
        paths(&["rmux.conf"]),
        paths(&["tmux.conf"]),
    );
    assert!(matches!(step, StartupStep::Load(command) if command.paths == paths(&["rmux.conf"]) && command.quiet));
    let step = load.take_loaded(Ok(loaded(&[], "", &["forgotten"])));
    assert!(matches!(step, StartupStep::Load(command) if command.paths == paths(&["tmux.conf"])));
    match load.take_loaded(Ok(loaded(&["set x"], "", &["kept"]))) {
        StartupStep::Execute(batches) => {
            assert_eq!(batches.len(), 1);
            assert_eq!(batches[0].0, "set x");
            assert_eq!(batches[0].1.source_file_depth, 1);
            assert_eq!(batches[0].1.caller_cwd, Some("/home".to_owned()));
        }
        other => panic!("expected commands, got {other:?}"),
    }
    assert_eq!(
        load.take_executed(Err(vec![server_error("dropped")])),
        vec![server_error("kept")]
    );
}

#[test]
fn startup_keeps_errors_unless_files_were_named() {
    let begin = |selection: ConfigFileSelection| {
        load_startup_config::<&'static str>(selection, None, Vec::new(), Vec::new())
    };
    let (step, _) = begin(ConfigFileSelection::Disabled);
    assert_eq!(step, StartupStep::Done(Vec::new()));
    let (_, mut load) = begin(ConfigFileSelection::Default);
    assert_eq!(
        load.take_loaded::<&str>(Err(server_error("no"))),
        StartupStep::Done(vec![server_error("no")])
    );
    let (_, mut load) = begin(ConfigFileSelection::Default);
    assert!(matches!(load.take_loaded(Ok(loaded(&[], "", &["one"]))), StartupStep::Execute(_)));
    assert_eq!(
        load.take_executed(Err(vec![server_error("two")])),
        vec![server_error("one"), server_error("two")]
    );
    let (_, mut load) = begin(ConfigFileSelection::Files(vec!["mine".to_owned()]));
    assert_eq!(
        load.take_loaded::<&str>(Err(server_error("no"))),
        StartupStep::Done(Vec::new())
    );
    assert!(load.take_executed(Err(vec![server_error("two")])).is_empty());
    assert_eq!(leave_config_load(enter_config_load(4)), 4);
    assert_eq!(leave_config_load(enter_config_load(usize::MAX)), usize::MAX);
}

#[test]
fn the_small_server_knows_no_sessions() {
    let session = || SessionRequest {
        target: SessionName::new("alpha"),
    };
    assert_eq!(
        dispatch_minimal_windows_request(&Request::KillSession(session())),
        Response::Error(ErrorResponse {
            error: ProtoError::SessionNotFound("alpha".to_owned()),
        })
    );
    match dispatch_minimal_windows_request(&Request::HasSession(session())) {
        Response::HasSession(answer) => assert!(!answer.exists),
        other => panic!("expected an answer, got {other:?}"),
    }
    match dispatch_minimal_windows_request(&Request::ListClients) {
        Response::ListClients(answer) => {
            assert_eq!(answer.match_count, 0);
            assert!(answer.output.stdout.is_empty());
        }
        other => panic!("expected an answer, got {other:?}"),
    }
    assert_eq!(
        dispatch_minimal_windows_request(&Request::NewWindow(session())),
        Response::Error(ErrorResponse {
            error: server_error(WINDOWS_RUNTIME_UNSUPPORTED),
        })
    );
    let served = serve_connection(&Request::KillServer);
    assert!(served.shutdown);
    assert_eq!(served.response, Response::KillServer);
    assert!(!serve_connection(&Request::ListSessions).shutdown);
}

#[test]
fn a_connection_reads_until_it_has_a_request() {
    assert_eq!(read_request(Ok(None)), ReadStep::ReadMore);
    assert_eq!(
        read_request(Ok(Some(Request::KillServer))),
        ReadStep::Serve(Request::KillServer)
    );
    let error = ProtoError::Decode("bad".to_owned());
    assert_eq!(
        read_request(Err(error.clone())),
        ReadStep::Refuse(Response::Error(ErrorResponse { error }))
    );
    assert_eq!(after_read(0), Some(ReadStep::Close));
    assert_eq!(after_read(10), None);
    assert_eq!(log_connection_task_result(&TaskEnd::Finished), None);
    assert_eq!(
        log_connection_task_result(&TaskEnd::Failed("x".to_owned())),
        Some("windows connection error: x".to_owned())
    );
    assert_eq!(
        log_connection_task_result(&TaskEnd::Broken("x".to_owned())),
        Some("windows connection task failed: x".to_owned())
    );
}

#[test]
fn one_client_is_waited_for_at_a_time() {
    let mut listener = LocalListener::bind("pipe".to_owned(), 1);
    assert_eq!(listener.accept(), Ok(1));
    let refused = listener.accept().expect_err("a client is waited for");
    assert_eq!(refused.message, "named-pipe accept already in progress");
    listener.accepted(2);
    assert_eq!(listener.accept(), Ok(2));
}

#[test]
fn processes_are_named() {
    assert_eq!(foreground_pid(Some(12)), Some(12));
    assert_eq!(foreground_pid(Some(-1)), None);
    assert_eq!(foreground_pid(None), None);
    assert_eq!(current_path(Some(b"/tmp/\xff".to_vec())), Some("/tmp/\u{fffd}".to_owned()));
    assert_eq!(current_path(None), None);
    assert_eq!(executable_name("/usr/bin/zsh"), Some("zsh".to_owned()));
    assert_eq!(
        command_name(Some(b"/bin/bash\0-l\0".to_vec()), Some("sh\n".to_owned())),
        Some("bash".to_owned())
    );
    assert_eq!(command_name(None, Some("sh\n".to_owned())), Some("sh".to_owned()));
    assert_eq!(
        command_name(Some(b"\xff\0".to_vec()), Some("sh\n".to_owned())),
        Some("sh".to_owned())
    );
    assert_eq!(command_name(None, None), None);
}

#[test]
fn an_implicit_target_fills_a_gap_only() {
    let other = PaneTarget::with_window(SessionName::new("beta"), 2, 1);
    let mut command = source(&["a"]);
    command.target = None;
    let aimed = aimed_source_file(command, Some(other.clone()));
    assert_eq!(aimed.target, Some(other.clone()));
    assert_eq!(aimed.paths, vec!["a".to_owned()]);
    let mut command = source(&["a"]);
    command.target = Some(pane());
    assert_eq!(aimed_source_file(command, Some(other)).target, Some(pane()));
}

#[test]
fn configurations_are_counted_while_they_load() {
    let depth = enter_config_load(0);
    assert!(config_loading_active(depth));
    assert!(!config_loading_active(leave_config_load(depth)));
}
