//! Laws of the command line.
use std::collections::VecDeque;

use vstd::prelude::*;

use crate::cli::{
    all_fit, complete, dispatch, is_completed, is_default_session, printed_lines, says_no_client,
    select_layout, Action, Command, ExitFailure, Extras, Need, NewSessionArgs, Resolved,
};
use crate::protocol::{
    BufferRequest, LayoutName, Request, Response, SelectLayoutTarget, WaitForRequest,
};
use crate::text;

verus! {

/// Whether a command is one that the program runs by itself.
pub open spec fn is_own(command: Command) -> bool {
    match command {
        Command::StartServer | Command::KillServer | Command::LockServer => true,
        Command::NewSession(_)
        | Command::HasSession(_)
        | Command::KillSession(_)
        | Command::RenameSession(_)
        | Command::ServerAccess(_)
        | Command::LockSession(_)
        | Command::LockClient(_)
        | Command::NewWindow(_)
        | Command::KillWindow(_)
        | Command::SelectWindow(_)
        | Command::RenameWindow(_)
        | Command::NextWindow(_)
        | Command::PreviousWindow(_)
        | Command::LastWindow(_)
        | Command::ListSessions(_)
        | Command::ListWindows(_)
        | Command::LinkWindow(_)
        | Command::MoveWindow(_)
        | Command::SwapWindow(_)
        | Command::RotateWindow(_)
        | Command::ResizeWindow(_)
        | Command::RespawnWindow(_)
        | Command::SplitWindow(_)
        | Command::SwapPane(_)
        | Command::LastPane(_)
        | Command::JoinPane(_)
        | Command::MovePane(_)
        | Command::BreakPane(_)
        | Command::PipePane(_)
        | Command::RespawnPane(_)
        | Command::ResizePane(_)
        | Command::ListPanes(_)
        | Command::SelectPane(_)
        | Command::SendKeys(_)
        | Command::BindKey(_)
        | Command::UnbindKey(_)
        | Command::ListCommands(_)
        | Command::ListKeys(_)
        | Command::SendPrefix(_)
        | Command::UnlinkWindow(_)
        | Command::AttachSession(_)
        | Command::RefreshClient(_)
        | Command::ListClients(_)
        | Command::SwitchClient(_)
        | Command::DetachClient(_)
        | Command::SuspendClient(_)
        | Command::SetOption(_)
        | Command::SetWindowOption(_)
        | Command::SetEnvironment(_)
        | Command::ShowOptions(_)
        | Command::ShowWindowOptions(_)
        | Command::ShowEnvironment(_)
        | Command::SetHook(_)
        | Command::ShowHooks(_) => true,
        _ => false,
    }
}

/// Commands that the program runs by itself are run.
pub proof fn law_own_commands_are_run(
    command: Command,
    caller_cwd: Option<String>,
    action: Action,
)
    requires
        is_own(command),
        call_ensures(dispatch, (command, caller_cwd), action),
    ensures
        action == Action::Run(command),
{
}

/// Whether a command is sent to the queue of the server as the text of a file, from
/// the directory of the caller.
pub open spec fn queues(
    action: Action,
    name: Seq<char>,
    queue_command: String,
    caller_cwd: Option<String>,
) -> bool {
    &&& action is Send
    &&& action->Send_0.name@ == name
    &&& !action->Send_0.payload
    &&& action->Send_0.request matches Request::SourceFile(asked) && {
        &&& asked.paths@.len() == 1
        &&& asked.paths@[0]@ == "-"@
        &&& asked.stdin == Some(queue_command)
        &&& asked.caller_cwd == caller_cwd
        &&& asked.target is None
        &&& !asked.quiet && !asked.parse_only && !asked.verbose && !asked.expand_paths
    }
}

/// Prompts, menus, choosers and messages go to the queue of the server, under their
/// own names.
pub proof fn law_queued_commands(command: Command, caller_cwd: Option<String>, action: Action)
    requires
        call_ensures(dispatch, (command, caller_cwd), action),
    ensures
        match command {
            Command::Prompt(args) => queues(
                action,
                "command-prompt"@,
                args.queue_command,
                caller_cwd,
            ),
            Command::ConfirmBefore(args) => queues(
                action,
                "confirm-before"@,
                args.queue_command,
                caller_cwd,
            ),
            Command::FindWindow(args) => queues(
                action,
                "find-window"@,
                args.queue_command,
                caller_cwd,
            ),
            Command::ChooseTree(args) => queues(
                action,
                "choose-tree"@,
                args.queue_command,
                caller_cwd,
            ),
            Command::ChooseBuffer(args) => queues(
                action,
                "choose-buffer"@,
                args.queue_command,
                caller_cwd,
            ),
            Command::ChooseClient(args) => queues(
                action,
                "choose-client"@,
                args.queue_command,
                caller_cwd,
            ),
            Command::CustomizeMode(args) => queues(
                action,
                "customize-mode"@,
                args.queue_command,
                caller_cwd,
            ),
            Command::DisplayMessage(args) => queues(
                action,
                "display-message"@,
                args.queue_command,
                caller_cwd,
            ),
            Command::DisplayMenu(args) => queues(
                action,
                "display-menu"@,
                args.queue_command,
                caller_cwd,
            ),
            Command::DisplayPopup(args) => queues(
                action,
                "display-popup"@,
                args.queue_command,
                caller_cwd,
            ),
            Command::ClearPromptHistory(args) => queues(
                action,
                "clear-prompt-history"@,
                args.queue_command,
                caller_cwd,
            ),
            Command::ShowPromptHistory(args) => queues(
                action,
                "show-prompt-history"@,
                args.queue_command,
                caller_cwd,
            ),
            _ => true,
        },
{
    if let Action::Send(sending) = action {
        if let Request::SourceFile(asked) = sending.request {
            assert(asked.paths.deep_view().len() == asked.paths@.len());
            if asked.paths.deep_view() == seq!["-"@] {
                assert(asked.paths.deep_view()[0] == "-"@);
                assert(asked.paths@[0]@ == asked.paths.deep_view()[0]);
            }
        }
    }
}

/// Whether an action sends a request under a name, with or without showing what comes
/// back.
pub open spec fn sends(action: Action, name: Seq<char>, shows: bool) -> bool {
    action is Send && action->Send_0.name@ == name && action->Send_0.payload == shows
}

/// Commands about buffers, messages, conditions and channels need nothing looked up:
/// they are sent as they are, and lists and contents are shown.
pub proof fn law_ready_commands(command: Command, caller_cwd: Option<String>, action: Action)
    requires
        call_ensures(dispatch, (command, caller_cwd), action),
    ensures
        match command {
            Command::SetBuffer(args) => sends(action, "set-buffer"@, false) && (
            action->Send_0.request matches Request::SetBuffer(asked) && {
                &&& asked.name == args.name
                &&& args.content matches Some(content) ==> asked.content@ == text::bytes(content@)
                &&& args.content is None ==> asked.content@.len() == 0
                &&& asked.append == args.append
                &&& asked.new_name == args.new_name
                &&& asked.set_clipboard == args.set_clipboard
            }),
            Command::ShowBuffer(args) => sends(action, "show-buffer"@, true)
                && action->Send_0.request == Request::ShowBuffer(
                BufferRequest { name: args.name },
            ),
            Command::DeleteBuffer(args) => sends(action, "delete-buffer"@, false)
                && action->Send_0.request == Request::DeleteBuffer(
                BufferRequest { name: args.name },
            ),
            Command::ListBuffers(args) => sends(action, "list-buffers"@, true) && (
            action->Send_0.request matches Request::ListBuffers(asked) && {
                &&& asked.format == args.format
                &&& asked.filter == args.filter
                &&& asked.sort_order == args.sort_order
                &&& asked.reversed == args.reversed
            }),
            Command::LoadBuffer(args) => sends(action, "load-buffer"@, false) && (
            action->Send_0.request matches Request::LoadBuffer(asked) && {
                &&& asked.path == args.path
                &&& asked.name == args.name
                &&& asked.set_clipboard == args.set_clipboard
            }),
            Command::SaveBuffer(args) => sends(action, "save-buffer"@, false) && (
            action->Send_0.request matches Request::SaveBuffer(asked) && {
                &&& asked.path == args.path
                &&& asked.name == args.name
                &&& asked.append == args.append
            }),
            Command::ShowMessages(args) => sends(action, "show-messages"@, true) && (
            action->Send_0.request matches Request::ShowMessages(asked) && {
                &&& asked.jobs == args.jobs
                &&& asked.terminals == args.terminals
                &&& asked.target_client == args.target_client
            }),
            Command::IfShell(args) => sends(action, "if-shell"@, false) && (
            action->Send_0.request matches Request::IfShell(asked) && {
                &&& asked.condition == args.condition
                &&& asked.format_mode == args.format_mode
                &&& asked.then_command == args.then_command
                &&& asked.else_command == args.else_command
                &&& asked.target == args.target
                &&& asked.caller_cwd == caller_cwd
                &&& asked.background == args.background
            }),
            Command::WaitFor(args) => sends(action, "wait-for"@, false) && action->Send_0.request
                == Request::WaitFor(
                WaitForRequest { channel: args.channel, mode: args.mode },
            ),
            Command::CapturePane(args) => {
                &&& action is Build
                &&& action->Build_0.name@ == "capture-pane"@
                &&& action->Build_0.payload == args.print
                &&& action->Build_0.command == command
            },
            Command::Unsupported(args) => {
                &&& action is Fail
                &&& action->Fail_0.exit_code == 1
                &&& args.arguments@.len() == 0 ==> action->Fail_0.message@
                    == "command not implemented: "@ + args.name@
                &&& args.arguments@.len() > 0 ==> action->Fail_0.message@
                    == "command not implemented: "@ + args.name@ + (" "@ + text::joined(
                    args.arguments.deep_view(),
                    " "@,
                ))
            },
            _ => true,
        },
{
    if let Command::Unsupported(args) = command {
        if args.arguments@.len() == 0 {
            assert("command not implemented: "@ + args.name@ + Seq::<char>::empty()
                =~= "command not implemented: "@ + args.name@);
        }
    }
}

/// What a pane that may be given asks for.
pub open spec fn optional_need(target: Option<String>) -> Seq<Need> {
    match target {
        Some(target) => seq![Need::Pane(target)],
        None => Seq::empty(),
    }
}

/// Whether an action looks targets up first.
pub open spec fn looks_up(
    action: Action,
    command: Command,
    name: Seq<char>,
    needs: Seq<Need>,
) -> bool {
    &&& action is Resolve
    &&& action->Resolve_0.name@ == name
    &&& action->Resolve_0.needs@ == needs
    &&& action->Resolve_0.command == command
    &&& action->Resolve_0.starts_server <==> command is SourceFile
}

/// Commands about targets have them looked up first: what is given, or the current
/// one where the command must have one. A file may come from the standard input.
pub proof fn law_commands_look_targets_up(
    command: Command,
    caller_cwd: Option<String>,
    action: Action,
)
    requires
        call_ensures(dispatch, (command, caller_cwd), action),
    ensures
        match command {
            Command::KillPane(args) => looks_up(
                action,
                command,
                "kill-pane"@,
                seq![
                    match args.target {
                        Some(target) => Need::Pane(target),
                        None => Need::CurrentPane,
                    },
                ],
            ),
            Command::SelectLayout(args) => looks_up(
                action,
                command,
                "select-layout"@,
                seq![
                    match args.target {
                        Some(target) => Need::Layout(target),
                        None => Need::WindowOrCurrent(None),
                    },
                ],
            ),
            Command::NextLayout(args) => looks_up(
                action,
                command,
                "next-layout"@,
                seq![Need::WindowOrCurrent(args.target)],
            ),
            Command::PreviousLayout(args) => looks_up(
                action,
                command,
                "previous-layout"@,
                seq![Need::WindowOrCurrent(args.target)],
            ),
            Command::DisplayPanes(args) => looks_up(
                action,
                command,
                "display-panes"@,
                seq![Need::SessionOrCurrent(args.target)],
            ),
            Command::CopyMode(args) => looks_up(
                action,
                command,
                "copy-mode"@,
                optional_need(args.target) + optional_need(args.source),
            ),
            Command::ClockMode(args) => looks_up(
                action,
                command,
                "clock-mode"@,
                optional_need(args.target),
            ),
            Command::PasteBuffer(args) => looks_up(
                action,
                command,
                "paste-buffer"@,
                seq![Need::PaneOrCurrent(args.target)],
            ),
            Command::ClearHistory(args) => looks_up(
                action,
                command,
                "clear-history"@,
                seq![Need::PaneOrCurrent(args.target)],
            ),
            Command::RunShell(args) => looks_up(
                action,
                command,
                "run-shell"@,
                optional_need(args.target),
            ),
            Command::SourceFile(args) => looks_up(
                action,
                command,
                "source-file"@,
                optional_need(args.target),
            ) && (action->Resolve_0.reads_stdin <==> exists|i: int|
                0 <= i < args.paths@.len() && (#[trigger] args.paths@[i])@ == "-"@),
            _ => true,
        },
{
    if let Command::SourceFile(args) = command {
        let paths = args.paths.deep_view();
        if paths.contains("-"@) {
            let i = choose|i: int| 0 <= i < paths.len() && paths[i] == "-"@;
            assert(args.paths@[i]@ == "-"@);
        }
        if exists|i: int| 0 <= i < args.paths@.len() && (#[trigger] args.paths@[i])@ == "-"@ {
            let i = choose|i: int|
                0 <= i < args.paths@.len() && (#[trigger] args.paths@[i])@ == "-"@;
            assert(paths[i] == "-"@);
        }
    }
}

/// A layout is asked for by its name, unless it is a mirrored one; a text with a comma
/// is a layout of its own. Anything else is refused.
pub proof fn law_layouts(
    target: SelectLayoutTarget,
    layout: String,
    named: Option<LayoutName>,
    r: Result<Request, ExitFailure>,
)
    requires
        call_ensures(select_layout, (target, layout, named), r),
    ensures
        named matches Some(name) ==> {
            &&& (name is MainHorizontalMirrored || name is MainVerticalMirrored) ==> r is Err
                && r->Err_0.exit_code == 1 && r->Err_0.message@ == "invalid layout: "@ + layout@
            &&& !(name is MainHorizontalMirrored || name is MainVerticalMirrored) ==> (
            r matches Ok(Request::SelectLayout(asked)) && asked.target == target && asked.layout
                == name)
        },
        named is None && layout@.contains(',') ==> (r matches Ok(
            Request::SelectCustomLayout(asked),
        ) && asked.target == target && asked.layout == layout),
        named is None && !layout@.contains(',') ==> r is Err && r->Err_0.exit_code == 1
            && r->Err_0.message@ == "invalid layout: "@ + layout@,
{
}

/// Whether a request is what a command and the targets that were looked up for it come
/// to: the first pane, window or session is in it, and for a pane that was not given
/// none.
pub open spec fn made_of(
    command: Command,
    resolved: Seq<Resolved>,
    extras: Extras,
    r: Result<Request, ExitFailure>,
) -> bool {
    match command {
        Command::KillPane(args) => r matches Ok(Request::KillPane(asked)) && resolved[0]
            == Resolved::Pane(asked.target) && asked.kill_all_except == args.kill_all_except,
        Command::SelectLayout(args) => match args.target {
            Some(_) => resolved[0] is Layout && crate::cli::is_layout_request(
                resolved[0]->Layout_0,
                args.layout,
                extras.named_layout,
                r,
            ),
            None => resolved[0] is Window && crate::cli::is_layout_request(
                SelectLayoutTarget::Window(resolved[0]->Window_0),
                args.layout,
                extras.named_layout,
                r,
            ),
        },
        Command::NextLayout(_) => r matches Ok(Request::NextLayout(asked)) && resolved[0]
            == Resolved::Window(asked.target),
        Command::PreviousLayout(_) => r matches Ok(Request::PreviousLayout(asked))
            && resolved[0] == Resolved::Window(asked.target),
        Command::DisplayPanes(args) => r matches Ok(Request::DisplayPanes(asked)) && {
            &&& resolved[0] == Resolved::Session(asked.target)
            &&& asked.duration_ms == args.duration_ms
            &&& asked.non_blocking == args.non_blocking
            &&& asked.no_command == args.no_command
            &&& asked.template == args.template
        },
        Command::CopyMode(args) => r matches Ok(Request::CopyMode(asked)) && {
            &&& args.target is Some ==> asked.target is Some && resolved[0] == Resolved::Pane(
                asked.target->0,
            )
            &&& args.target is None ==> asked.target is None
            &&& args.source is Some ==> asked.source is Some && resolved.last()
                == Resolved::Pane(asked.source->0)
            &&& args.source is None ==> asked.source is None
            &&& asked.page_down == args.page_down
            &&& asked.exit_on_scroll == args.exit_on_scroll
            &&& asked.hide_position == args.hide_position
            &&& asked.mouse_drag_start == args.mouse_drag_start
            &&& asked.cancel_mode == args.cancel_mode
            &&& asked.scrollbar_scroll == args.scrollbar_scroll
            &&& asked.page_up == args.page_up
        },
        Command::ClockMode(args) => r matches Ok(Request::ClockMode(asked)) && {
            &&& args.target is Some ==> asked.target is Some && resolved[0] == Resolved::Pane(
                asked.target->0,
            )
            &&& args.target is None ==> asked.target is None
        },
        Command::PasteBuffer(args) => r matches Ok(Request::PasteBuffer(asked)) && {
            &&& resolved[0] == Resolved::Pane(asked.target)
            &&& asked.name == args.name
            &&& asked.delete_after == args.delete_after
            &&& asked.separator == args.separator
            &&& asked.linefeed == args.linefeed
            &&& asked.raw == args.raw
            &&& asked.bracketed == args.bracketed
        },
        Command::ClearHistory(args) => r matches Ok(Request::ClearHistory(asked)) && {
            &&& resolved[0] == Resolved::Pane(asked.target)
            &&& asked.reset_hyperlinks == args.reset_hyperlinks
        },
        Command::RunShell(args) => r matches Ok(Request::RunShell(asked)) && {
            &&& asked.command == args.command
            &&& asked.background == args.background
            &&& asked.as_commands == args.as_commands
            &&& asked.show_stderr == args.show_stderr
            &&& asked.delay_ms == args.delay_ms
            &&& asked.start_directory == args.start_directory
            &&& args.target is Some ==> asked.target is Some && resolved[0] == Resolved::Pane(
                asked.target->0,
            )
            &&& args.target is None ==> asked.target is None
        },
        Command::SourceFile(args) => r matches Ok(Request::SourceFile(asked)) && {
            &&& asked.paths == args.paths
            &&& asked.quiet == args.quiet
            &&& asked.parse_only == args.parse_only
            &&& asked.verbose == args.verbose
            &&& asked.expand_paths == args.expand_paths
            &&& asked.caller_cwd == extras.caller_cwd
            &&& asked.stdin == extras.stdin
            &&& args.target is Some ==> asked.target is Some && resolved[0] == Resolved::Pane(
                asked.target->0,
            )
            &&& args.target is None ==> asked.target is None
        },
        _ => false,
    }
}

/// What was looked up goes into the request: the first pane, window or session, and
/// for a pane that was not given none.
pub proof fn law_requests_are_made(
    command: Command,
    found: VecDeque<Resolved>,
    extras: Extras,
    r: Result<Request, ExitFailure>,
)
    requires
        all_fit(command.needed(), found@),
        command.needs() is Some,
        call_ensures(complete, (command, found, extras), Some(r)),
    ensures
        ({
            let resolved = found@;
            made_of(command, resolved, extras, r)
        }),
{
    let resolved = found@;
    assert(is_completed(command, resolved, extras, r));
    let needs = command.needed();
    if needs.len() > 0 {
        assert(crate::cli::fits(needs[0], resolved[0]));
        let last = needs.len() - 1;
        assert(crate::cli::fits(needs[last], resolved[last]));
    }
}

/// Lines are printed one under the other, and none at all where there are none.
pub proof fn law_lines_are_printed(lines: Seq<Seq<char>>)
    ensures
        lines.len() == 0 ==> printed_lines(lines).len() == 0,
        lines.len() > 0 ==> printed_lines(lines) == text::bytes(
            text::joined(lines, seq!['\n']) + seq!['\n'],
        ),
{
    reveal_strlit("\n");
    assert("\n"@ =~= seq!['\n']);
}

/// The server has no client to show panes to where it says so in these words.
pub proof fn law_no_client(response: Response)
    ensures
        says_no_client(response) <==> (response matches Response::Error(answer)
            && answer.error@.message() == "no current client"@),
{
}

/// A session that is made without any wish: attached, without names, sizes and
/// commands of its own.
pub proof fn law_plain_session(args: NewSessionArgs)
    requires
        is_default_session(args),
    ensures
        !args.attach_if_exists && !args.detach_other_clients && !args.detached
            && !args.print_session_info && !args.kill_other_clients,
        args.working_directory is None && args.session_name is None && args.print_format is None
            && args.window_name is None && args.group_target is None && args.cols is None
            && args.rows is None,
        args.environment@.len() == 0 && args.flags@.len() == 0 && args.command@.len() == 0,
{
}

} // verus!
