//! The command line: what each command asks of the server, and what it ends with.
use std::collections::VecDeque;

use vstd::prelude::*;

use crate::names::{PaneTarget, SessionName, Target, WindowTarget};
use crate::protocol::{
    BufferRequest, ClearHistoryRequest, CopyModeRequest, DisplayPanesRequest, IfShellRequest,
    KillPaneRequest, LayoutName, ListBuffersRequest, LoadBufferRequest, OptionalPaneRequest,
    PasteBufferRequest, Request, Response, RunShellRequest, SaveBufferRequest,
    SelectCustomLayoutRequest, SelectLayoutRequest, SelectLayoutTarget, SetBufferRequest,
    ShowMessagesRequest, SourceFileRequest, WaitForMode, WaitForRequest, WindowRequest,
};
use crate::queue::same_text;
use crate::response::CommandOutput;
use crate::startup::{IoFailure, IoKind};
use crate::text;

verus! {

/// The end of the program in failure.
#[derive(Debug, PartialEq, Eq)]
pub struct ExitFailure {
    /// The exit code.
    pub exit_code: i32,
    /// What is said.
    pub message: String,
}

impl View for ExitFailure {
    type V = (i32, Seq<char>);

    open spec fn view(&self) -> (i32, Seq<char>) {
        (self.exit_code, self.message@)
    }
}

impl ExitFailure {
    /// A failure.
    pub fn new(exit_code: i32, message: String) -> (r: Self)
        ensures
            r == (ExitFailure { exit_code, message }),
    {
        ExitFailure { exit_code, message }
    }
}

/// The arguments of a command that its own routine reads.
#[derive(Debug, PartialEq, Eq)]
pub struct Words {
    /// The words.
    pub words: Vec<String>,
}

/// The arguments of `new-session`.
#[derive(Debug, PartialEq, Eq)]
pub struct NewSessionArgs {
    /// Whether a session of that name is attached to.
    pub attach_if_exists: bool,
    /// The directory of the session.
    pub working_directory: Option<String>,
    /// Whether other clients are detached.
    pub detach_other_clients: bool,
    /// Whether the session is not attached to.
    pub detached: bool,
    /// The name of the session.
    pub session_name: Option<String>,
    /// Environment variables.
    pub environment: Vec<String>,
    /// Client flags.
    pub flags: Vec<String>,
    /// How the session is printed.
    pub print_format: Option<String>,
    /// The name of the first window.
    pub window_name: Option<String>,
    /// Whether the session is printed.
    pub print_session_info: bool,
    /// The session whose windows it shares.
    pub group_target: Option<String>,
    /// Whether other clients are ended.
    pub kill_other_clients: bool,
    /// The number of columns.
    pub cols: Option<u16>,
    /// The number of rows.
    pub rows: Option<u16>,
    /// What runs in the session.
    pub command: Vec<String>,
}

/// The arguments of a command that the server parses itself.
#[derive(Debug, PartialEq, Eq)]
pub struct QueuedArgs {
    /// The command as the server reads it.
    pub queue_command: String,
}

/// The arguments of a command that takes a target and nothing else.
#[derive(Debug, PartialEq, Eq)]
pub struct TargetArgs {
    /// The target as it was given.
    pub target: Option<String>,
}

/// The arguments of `kill-pane`.
#[derive(Debug, PartialEq, Eq)]
pub struct KillPaneArgs {
    /// The pane as it was given.
    pub target: Option<String>,
    /// Whether all other panes are ended instead.
    pub kill_all_except: bool,
}

/// The arguments of `select-layout`.
#[derive(Debug, PartialEq, Eq)]
pub struct SelectLayoutArgs {
    /// What to lay out, as it was given.
    pub target: Option<String>,
    /// The layout as it was given.
    pub layout: String,
}

/// The arguments of `display-panes`.
#[derive(Debug, PartialEq, Eq)]
pub struct DisplayPanesArgs {
    /// The client as it was given.
    pub target: Option<String>,
    /// For how long.
    pub duration_ms: Option<u64>,
    /// Whether other input stays possible.
    pub non_blocking: bool,
    /// Whether no command is run.
    pub no_command: bool,
    /// The command to run.
    pub template: Option<String>,
}

/// The arguments of `copy-mode`.
#[derive(Debug, PartialEq, Eq)]
pub struct CopyModeArgs {
    /// The pane as it was given.
    pub target: Option<String>,
    /// The pane whose contents are shown, as it was given.
    pub source: Option<String>,
    /// Whether to scroll one page down.
    pub page_down: bool,
    /// Whether scrolling to the end leaves the mode.
    pub exit_on_scroll: bool,
    /// Whether the position is hidden.
    pub hide_position: bool,
    /// Whether a mouse drag began it.
    pub mouse_drag_start: bool,
    /// Whether another mode is left.
    pub cancel_mode: bool,
    /// Whether the scroll bar began it.
    pub scrollbar_scroll: bool,
    /// Whether to scroll one page up.
    pub page_up: bool,
}

/// The arguments of `set-buffer`.
#[derive(Debug, PartialEq, Eq)]
pub struct SetBufferArgs {
    /// The buffer.
    pub name: Option<String>,
    /// What it holds.
    pub content: Option<String>,
    /// Whether it is added to.
    pub append: bool,
    /// The new name of the buffer.
    pub new_name: Option<String>,
    /// Whether the clipboard is set too.
    pub set_clipboard: bool,
}

/// The arguments of a command that takes a paste buffer and nothing else.
#[derive(Debug, PartialEq, Eq)]
pub struct BufferArgs {
    /// The buffer.
    pub name: Option<String>,
}

/// The arguments of `paste-buffer`.
#[derive(Debug, PartialEq, Eq)]
pub struct PasteBufferArgs {
    /// The buffer.
    pub name: Option<String>,
    /// The pane as it was given.
    pub target: Option<String>,
    /// Whether the buffer goes afterwards.
    pub delete_after: bool,
    /// What takes the place of line ends.
    pub separator: Option<String>,
    /// Whether line ends stay.
    pub linefeed: bool,
    /// Whether bytes are sent as they are.
    pub raw: bool,
    /// Whether paste marks are sent around it.
    pub bracketed: bool,
}

/// The arguments of `list-buffers`.
#[derive(Debug, PartialEq, Eq)]
pub struct ListBuffersArgs {
    /// How each is shown.
    pub format: Option<String>,
    /// Which are shown.
    pub filter: Option<String>,
    /// In which order.
    pub sort_order: Option<String>,
    /// Whether the order is turned round.
    pub reversed: bool,
}

/// The arguments of `load-buffer`.
#[derive(Debug, PartialEq, Eq)]
pub struct LoadBufferArgs {
    /// The file.
    pub path: String,
    /// The buffer.
    pub name: Option<String>,
    /// Whether the clipboard is set too.
    pub set_clipboard: bool,
}

/// The arguments of `save-buffer`.
#[derive(Debug, PartialEq, Eq)]
pub struct SaveBufferArgs {
    /// The file.
    pub path: String,
    /// The buffer.
    pub name: Option<String>,
    /// Whether the file is added to.
    pub append: bool,
}

/// The arguments of `capture-pane`.
#[derive(Debug, PartialEq, Eq)]
pub struct CapturePaneArgs {
    /// Whether the contents are printed.
    pub print: bool,
    /// The other arguments.
    pub words: Vec<String>,
}

/// The arguments of `clear-history`.
#[derive(Debug, PartialEq, Eq)]
pub struct ClearHistoryArgs {
    /// The pane as it was given.
    pub target: Option<String>,
    /// Whether hyperlinks go too.
    pub reset_hyperlinks: bool,
}

/// The arguments of `show-messages`.
#[derive(Debug, PartialEq, Eq)]
pub struct ShowMessagesArgs {
    /// Whether jobs are shown.
    pub jobs: bool,
    /// Whether terminals are shown.
    pub terminals: bool,
    /// The client.
    pub target_client: Option<String>,
}

/// The arguments of `run-shell`.
#[derive(Debug, PartialEq, Eq)]
pub struct RunShellArgs {
    /// The text of the command.
    pub command: String,
    /// Whether it runs in the background.
    pub background: bool,
    /// Whether the text holds commands of the server.
    pub as_commands: bool,
    /// Whether error output is shown.
    pub show_stderr: bool,
    /// How long to wait first.
    pub delay_ms: Option<u64>,
    /// Where it runs.
    pub start_directory: Option<String>,
    /// The pane as it was given.
    pub target: Option<String>,
}

/// The arguments of `source-file`.
#[derive(Debug, PartialEq, Eq)]
pub struct SourceFileArgs {
    /// The files.
    pub paths: Vec<String>,
    /// Whether missing files are passed over.
    pub quiet: bool,
    /// Whether nothing is run.
    pub parse_only: bool,
    /// Whether the commands are printed.
    pub verbose: bool,
    /// Whether paths are formats.
    pub expand_paths: bool,
    /// The pane as it was given.
    pub target: Option<String>,
}

/// The arguments of `if-shell`.
#[derive(Debug, PartialEq, Eq)]
pub struct IfShellArgs {
    /// The condition.
    pub condition: String,
    /// Whether the condition is a format.
    pub format_mode: bool,
    /// The command if it holds.
    pub then_command: String,
    /// The command if it does not.
    pub else_command: Option<String>,
    /// Where.
    pub target: Option<Target>,
    /// Whether it runs in the background.
    pub background: bool,
}

/// The arguments of `wait-for`.
#[derive(Debug, PartialEq, Eq)]
pub struct WaitForArgs {
    /// The channel.
    pub channel: String,
    /// What to do with it.
    pub mode: WaitForMode,
}

/// A command that is known but not there.
#[derive(Debug, PartialEq, Eq)]
pub struct UnsupportedArgs {
    /// The command.
    pub name: String,
    /// Its arguments.
    pub arguments: Vec<String>,
}

/// A command of the command line.
#[derive(Debug, PartialEq, Eq)]
pub enum Command {
    /// Create a session.
    NewSession(NewSessionArgs),
    /// Start the server.
    StartServer,
    /// End the server.
    KillServer,
    /// Lock all clients.
    LockServer,
    /// Ask whether a session exists.
    HasSession(Words),
    /// End a session.
    KillSession(Words),
    /// Give a session another name.
    RenameSession(Words),
    /// Say who may use the server.
    ServerAccess(Words),
    /// Lock the clients of a session.
    LockSession(Words),
    /// Lock a client.
    LockClient(Words),
    /// Create a window.
    NewWindow(Words),
    /// End a window.
    KillWindow(Words),
    /// Select a window.
    SelectWindow(Words),
    /// Give a window another name.
    RenameWindow(Words),
    /// Select the next window.
    NextWindow(Words),
    /// Select the previous window.
    PreviousWindow(Words),
    /// Select the last window.
    LastWindow(Words),
    /// List the sessions.
    ListSessions(Words),
    /// List the windows of a session.
    ListWindows(Words),
    /// Link a window to a position.
    LinkWindow(Words),
    /// Move a window.
    MoveWindow(Words),
    /// Let two windows change places.
    SwapWindow(Words),
    /// Rotate the panes of a window.
    RotateWindow(Words),
    /// Resize a window.
    ResizeWindow(Words),
    /// Start a window again.
    RespawnWindow(Words),
    /// Create a pane.
    SplitWindow(Words),
    /// Let two panes change places.
    SwapPane(Words),
    /// Select the last pane.
    LastPane(Words),
    /// Let a pane join a window.
    JoinPane(Words),
    /// Move a pane.
    MovePane(Words),
    /// Give a pane a window of its own.
    BreakPane(Words),
    /// Pipe the output of a pane.
    PipePane(Words),
    /// Start a pane again.
    RespawnPane(Words),
    /// Resize a pane.
    ResizePane(Words),
    /// List the panes of a session.
    ListPanes(Words),
    /// Select a pane.
    SelectPane(Words),
    /// Send keys to a pane.
    SendKeys(Words),
    /// Bind a key to a command.
    BindKey(Words),
    /// Unbind a key.
    UnbindKey(Words),
    /// List the commands.
    ListCommands(Words),
    /// List the key bindings.
    ListKeys(Words),
    /// Send the prefix key.
    SendPrefix(Words),
    /// Unlink a window.
    UnlinkWindow(Words),
    /// Attach to a session.
    AttachSession(Words),
    /// Draw a client again.
    RefreshClient(Words),
    /// List the clients.
    ListClients(Words),
    /// Switch a client to a session.
    SwitchClient(Words),
    /// Detach a client.
    DetachClient(Words),
    /// Suspend a client.
    SuspendClient(Words),
    /// Set an option.
    SetOption(Words),
    /// Set an option of a window.
    SetWindowOption(Words),
    /// Set an environment variable.
    SetEnvironment(Words),
    /// Show options.
    ShowOptions(Words),
    /// Show options of a window.
    ShowWindowOptions(Words),
    /// Show the environment.
    ShowEnvironment(Words),
    /// Set a hook.
    SetHook(Words),
    /// Show hooks.
    ShowHooks(Words),
    /// Ask for a command.
    Prompt(QueuedArgs),
    /// Ask before a command.
    ConfirmBefore(QueuedArgs),
    /// Search for a window.
    FindWindow(QueuedArgs),
    /// Choose from the sessions.
    ChooseTree(QueuedArgs),
    /// Choose a paste buffer.
    ChooseBuffer(QueuedArgs),
    /// Choose a client.
    ChooseClient(QueuedArgs),
    /// Change options and keys.
    CustomizeMode(QueuedArgs),
    /// Show a message.
    DisplayMessage(QueuedArgs),
    /// Show a menu.
    DisplayMenu(QueuedArgs),
    /// Show a window on top.
    DisplayPopup(QueuedArgs),
    /// Clear what was typed at prompts.
    ClearPromptHistory(QueuedArgs),
    /// Show what was typed at prompts.
    ShowPromptHistory(QueuedArgs),
    /// End a pane.
    KillPane(KillPaneArgs),
    /// Lay out a window.
    SelectLayout(SelectLayoutArgs),
    /// Go on to the next layout.
    NextLayout(TargetArgs),
    /// Go back to the previous layout.
    PreviousLayout(TargetArgs),
    /// Show pane numbers.
    DisplayPanes(DisplayPanesArgs),
    /// Enter copy mode.
    CopyMode(CopyModeArgs),
    /// Show a clock.
    ClockMode(TargetArgs),
    /// Set a paste buffer.
    SetBuffer(SetBufferArgs),
    /// Show a paste buffer.
    ShowBuffer(BufferArgs),
    /// Paste a buffer into a pane.
    PasteBuffer(PasteBufferArgs),
    /// List the paste buffers.
    ListBuffers(ListBuffersArgs),
    /// Delete a paste buffer.
    DeleteBuffer(BufferArgs),
    /// Load a paste buffer from a file.
    LoadBuffer(LoadBufferArgs),
    /// Save a paste buffer to a file.
    SaveBuffer(SaveBufferArgs),
    /// Capture the contents of a pane.
    CapturePane(CapturePaneArgs),
    /// Clear the history of a pane.
    ClearHistory(ClearHistoryArgs),
    /// Show the message log.
    ShowMessages(ShowMessagesArgs),
    /// Run a shell command.
    RunShell(RunShellArgs),
    /// Run the commands of files.
    SourceFile(SourceFileArgs),
    /// Run a command if a condition holds.
    IfShell(IfShellArgs),
    /// Wait for a channel.
    WaitFor(WaitForArgs),
    /// A command that is known but not there.
    Unsupported(UnsupportedArgs),
}

/// A target that a command needs before it can be sent.
#[derive(Debug, PartialEq, Eq)]
pub enum Need {
    /// The pane that was given.
    Pane(String),
    /// The current pane.
    CurrentPane,
    /// The pane that was given, or else the current one.
    PaneOrCurrent(Option<String>),
    /// The session or window that was given.
    Layout(String),
    /// The window that was given, or else the current one.
    WindowOrCurrent(Option<String>),
    /// The session that was given, or else the current one.
    SessionOrCurrent(Option<String>),
}

/// A target that was resolved.
#[derive(Debug, PartialEq, Eq)]
pub enum Resolved {
    /// A pane.
    Pane(PaneTarget),
    /// A session or a window.
    Layout(SelectLayoutTarget),
    /// A window.
    Window(WindowTarget),
    /// A session.
    Session(SessionName),
}

/// Whether a resolved target is what was needed.
pub open spec fn fits(need: Need, resolved: Resolved) -> bool {
    match need {
        Need::Pane(_) | Need::CurrentPane | Need::PaneOrCurrent(_) => resolved is Pane,
        Need::Layout(_) => resolved is Layout,
        Need::WindowOrCurrent(_) => resolved is Window,
        Need::SessionOrCurrent(_) => resolved is Session,
    }
}

/// Whether resolved targets are what was needed, one by one.
pub open spec fn all_fit(needs: Seq<Need>, resolved: Seq<Resolved>) -> bool {
    needs.len() == resolved.len() && forall|i: int|
        0 <= i < needs.len() ==> fits(#[trigger] needs[i], resolved[i])
}

/// What the program does for a command.
#[derive(Debug, PartialEq, Eq)]
pub enum Action {
    /// The command has a routine of its own.
    Run(Command),
    /// A request is sent on a plain connection.
    Send(Sending),
    /// Targets are resolved on a connection, and then the request is sent on it;
    /// see [`complete`].
    Resolve(Resolving),
    /// The request has a routine of its own that makes it, on a plain connection.
    Build(Building),
    /// The program ends.
    Fail(ExitFailure),
}

/// A request that is ready.
#[derive(Debug, PartialEq, Eq)]
pub struct Sending {
    /// The command, as it is named in messages.
    pub name: &'static str,
    /// Whether the answer must hold what is printed.
    pub payload: bool,
    /// The request.
    pub request: Request,
}

/// A request that needs targets.
#[derive(Debug, PartialEq, Eq)]
pub struct Resolving {
    /// The command, as it is named in messages.
    pub name: &'static str,
    /// Whether the connection starts the server where it is not there.
    pub starts_server: bool,
    /// Whether the standard input is read first.
    pub reads_stdin: bool,
    /// The targets, in the order in which they are resolved.
    pub needs: Vec<Need>,
    /// The command.
    pub command: Command,
}

/// A request that a routine makes.
#[derive(Debug, PartialEq, Eq)]
pub struct Building {
    /// The command, as it is named in messages.
    pub name: &'static str,
    /// Whether the answer must hold what is printed.
    pub payload: bool,
    /// The command.
    pub command: Command,
}

impl Command {
    /// Whether the command has a routine of its own.
    pub open spec fn runs_alone(self) -> bool {
        match self {
            Command::NewSession(_) => true,
            Command::StartServer => true,
            Command::KillServer => true,
            Command::LockServer => true,
            Command::HasSession(_) => true,
            Command::KillSession(_) => true,
            Command::RenameSession(_) => true,
            Command::ServerAccess(_) => true,
            Command::LockSession(_) => true,
            Command::LockClient(_) => true,
            Command::NewWindow(_) => true,
            Command::KillWindow(_) => true,
            Command::SelectWindow(_) => true,
            Command::RenameWindow(_) => true,
            Command::NextWindow(_) => true,
            Command::PreviousWindow(_) => true,
            Command::LastWindow(_) => true,
            Command::ListSessions(_) => true,
            Command::ListWindows(_) => true,
            Command::LinkWindow(_) => true,
            Command::MoveWindow(_) => true,
            Command::SwapWindow(_) => true,
            Command::RotateWindow(_) => true,
            Command::ResizeWindow(_) => true,
            Command::RespawnWindow(_) => true,
            Command::SplitWindow(_) => true,
            Command::SwapPane(_) => true,
            Command::LastPane(_) => true,
            Command::JoinPane(_) => true,
            Command::MovePane(_) => true,
            Command::BreakPane(_) => true,
            Command::PipePane(_) => true,
            Command::RespawnPane(_) => true,
            Command::ResizePane(_) => true,
            Command::ListPanes(_) => true,
            Command::SelectPane(_) => true,
            Command::SendKeys(_) => true,
            Command::BindKey(_) => true,
            Command::UnbindKey(_) => true,
            Command::ListCommands(_) => true,
            Command::ListKeys(_) => true,
            Command::SendPrefix(_) => true,
            Command::UnlinkWindow(_) => true,
            Command::AttachSession(_) => true,
            Command::RefreshClient(_) => true,
            Command::ListClients(_) => true,
            Command::SwitchClient(_) => true,
            Command::DetachClient(_) => true,
            Command::SuspendClient(_) => true,
            Command::SetOption(_) => true,
            Command::SetWindowOption(_) => true,
            Command::SetEnvironment(_) => true,
            Command::ShowOptions(_) => true,
            Command::ShowWindowOptions(_) => true,
            Command::ShowEnvironment(_) => true,
            Command::SetHook(_) => true,
            Command::ShowHooks(_) => true,
            _ => false,
        }
    }

    /// The name of a command that the server parses itself, with its text.
    pub open spec fn queued(self) -> Option<(Seq<char>, String)> {
        match self {
            Command::Prompt(args) => Some(("command-prompt"@, args.queue_command)),
            Command::ConfirmBefore(args) => Some(("confirm-before"@, args.queue_command)),
            Command::FindWindow(args) => Some(("find-window"@, args.queue_command)),
            Command::ChooseTree(args) => Some(("choose-tree"@, args.queue_command)),
            Command::ChooseBuffer(args) => Some(("choose-buffer"@, args.queue_command)),
            Command::ChooseClient(args) => Some(("choose-client"@, args.queue_command)),
            Command::CustomizeMode(args) => Some(("customize-mode"@, args.queue_command)),
            Command::DisplayMessage(args) => Some(("display-message"@, args.queue_command)),
            Command::DisplayMenu(args) => Some(("display-menu"@, args.queue_command)),
            Command::DisplayPopup(args) => Some(("display-popup"@, args.queue_command)),
            Command::ClearPromptHistory(args) => Some(("clear-prompt-history"@, args.queue_command)),
            Command::ShowPromptHistory(args) => Some(("show-prompt-history"@, args.queue_command)),
            _ => None,
        }
    }

    /// The name of a command whose request is ready at once, and whether its
    /// answer must hold what is printed.
    pub open spec fn ready(self) -> Option<(Seq<char>, bool)> {
        match self {
            Command::SetBuffer(_) => Some(("set-buffer"@, false)),
            Command::ShowBuffer(_) => Some(("show-buffer"@, true)),
            Command::ListBuffers(_) => Some(("list-buffers"@, true)),
            Command::DeleteBuffer(_) => Some(("delete-buffer"@, false)),
            Command::LoadBuffer(_) => Some(("load-buffer"@, false)),
            Command::SaveBuffer(_) => Some(("save-buffer"@, false)),
            Command::ShowMessages(_) => Some(("show-messages"@, true)),
            Command::IfShell(_) => Some(("if-shell"@, false)),
            Command::WaitFor(_) => Some(("wait-for"@, false)),
            _ => None,
        }
    }

    /// The targets that a command needs, in the order in which they are resolved,
    /// where its request needs any.
    pub open spec fn needs(self) -> Option<(Seq<char>, Seq<Need>)> {
        match self {
            Command::KillPane(args) => Some(
                (
                    "kill-pane"@,
                    seq![
                        match args.target {
                            Some(target) => Need::Pane(target),
                            None => Need::CurrentPane,
                        },
                    ],
                ),
            ),
            Command::SelectLayout(args) => Some(
                (
                    "select-layout"@,
                    seq![
                        match args.target {
                            Some(target) => Need::Layout(target),
                            None => Need::WindowOrCurrent(None),
                        },
                    ],
                ),
            ),
            Command::NextLayout(args) => Some(
                ("next-layout"@, seq![Need::WindowOrCurrent(args.target)]),
            ),
            Command::PreviousLayout(args) => Some(
                ("previous-layout"@, seq![Need::WindowOrCurrent(args.target)]),
            ),
            Command::DisplayPanes(args) => Some(
                ("display-panes"@, seq![Need::SessionOrCurrent(args.target)]),
            ),
            Command::CopyMode(args) => Some(
                ("copy-mode"@, given_pane(args.target) + given_pane(args.source)),
            ),
            Command::ClockMode(args) => Some(("clock-mode"@, given_pane(args.target))),
            Command::PasteBuffer(args) => Some(
                ("paste-buffer"@, seq![Need::PaneOrCurrent(args.target)]),
            ),
            Command::ClearHistory(args) => Some(
                ("clear-history"@, seq![Need::PaneOrCurrent(args.target)]),
            ),
            Command::RunShell(args) => Some(("run-shell"@, given_pane(args.target))),
            Command::SourceFile(args) => Some(("source-file"@, given_pane(args.target))),
            _ => None,
        }
    }
}

impl Command {
    /// The targets that a command needs, in the order in which they are resolved.
    pub open spec fn needed(self) -> Seq<Need> {
        match self.needs() {
            Some((_, needs)) => needs,
            None => Seq::empty(),
        }
    }
}

/// The need for a pane that may have been given.
pub open spec fn given_pane(target: Option<String>) -> Seq<Need> {
    match target {
        Some(target) => seq![Need::Pane(target)],
        None => Seq::empty(),
    }
}

/// Adds the need for a pane that may have been given.
fn need_given_pane(needs: &mut Vec<Need>, target: &Option<String>)
    ensures
        final(needs)@ == old(needs)@ + given_pane(*target),
{
    let ghost before = needs@;
    if let Some(target) = target {
        needs.push(Need::Pane(target.clone()));
    }
    assert(needs@ =~= before + given_pane(*target));
}

/// A need on its own.
fn one_need(need: Need) -> (r: Vec<Need>)
    ensures
        r@ == seq![need],
{
    let mut needs: Vec<Need> = Vec::new();
    needs.push(need);
    assert(needs@ =~= seq![need]);
    needs
}

/// Whether a command may start the server.
pub fn command_has_start_server_flag(command: &Command) -> (r: bool)
    ensures
        r == (*command is NewSession || *command is StartServer || *command is AttachSession
            || *command is SourceFile),
{
    matches!(
        command,
        Command::NewSession(_)
            | Command::StartServer
            | Command::AttachSession(_)
            | Command::SourceFile(_)
    )
}

/// The command where none is given: a session with nothing set.
pub fn default_client_command() -> (r: Command)
    ensures
        r matches Command::NewSession(args) && is_default_session(args),
{
    Command::NewSession(
        NewSessionArgs {
            attach_if_exists: false,
            working_directory: None,
            detach_other_clients: false,
            detached: false,
            session_name: None,
            environment: Vec::new(),
            flags: Vec::new(),
            print_format: None,
            window_name: None,
            print_session_info: false,
            group_target: None,
            kill_other_clients: false,
            cols: None,
            rows: None,
            command: Vec::new(),
        },
    )
}

/// Whether nothing is set for a session.
pub open spec fn is_default_session(args: NewSessionArgs) -> bool {
    &&& !args.attach_if_exists
    &&& args.working_directory is None
    &&& !args.detach_other_clients
    &&& !args.detached
    &&& args.session_name is None
    &&& args.environment@.len() == 0
    &&& args.flags@.len() == 0
    &&& args.print_format is None
    &&& args.window_name is None
    &&& !args.print_session_info
    &&& args.group_target is None
    &&& !args.kill_other_clients
    &&& args.cols is None
    &&& args.rows is None
    &&& args.command@.len() == 0
}

/// The request that has the server run a command that it parses itself: the
/// command comes to it as the standard input of `source-file`.
pub open spec fn is_queue_request(
    request: Request,
    queue_command: String,
    caller_cwd: Option<String>,
) -> bool {
    request matches Request::SourceFile(asked) && asked.paths.deep_view() == seq!["-"@]
        && !asked.quiet && !asked.parse_only && !asked.verbose && !asked.expand_paths
        && asked.target is None && asked.caller_cwd == caller_cwd && asked.stdin == Some(
        queue_command,
    )
}

/// What the program does for a command that the server parses itself.
pub fn run_queued_server_command(
    name: &'static str,
    queue_command: String,
    caller_cwd: Option<String>,
) -> (r: Action)
    ensures
        r matches Action::Send(sending) && sending.name == name && !sending.payload
            && is_queue_request(sending.request, queue_command, caller_cwd),
{
    let mut paths: Vec<String> = Vec::new();
    paths.push("-".to_owned());
    assert(paths.deep_view() =~= seq!["-"@]);
    Action::Send(
        Sending {
            name,
            payload: false,
            request: Request::SourceFile(
                SourceFileRequest {
                    paths,
                    quiet: false,
                    parse_only: false,
                    verbose: false,
                    expand_paths: false,
                    target: None,
                    caller_cwd,
                    stdin: Some(queue_command),
                },
            ),
        },
    )
}

/// What stands behind the name of a command that is not there: its arguments.
pub open spec fn suffix(arguments: Seq<Seq<char>>) -> Seq<char> {
    if arguments.len() == 0 {
        Seq::empty()
    } else {
        " "@ + text::joined(arguments, " "@)
    }
}

/// Computes [`suffix`].
pub fn unsupported_argument_suffix(arguments: &Vec<String>) -> (r: String)
    ensures
        r@ == suffix(arguments.deep_view()),
{
    if arguments.len() == 0 {
        let none = String::new();
        assert(none@ =~= Seq::empty());
        return none;
    }
    let mut out = " ".to_owned();
    let rest = text::join(arguments, " ");
    out.append(&rest);
    out
}

/// Whether a path stands for the standard input.
pub open spec fn reads_stdin(paths: Seq<Seq<char>>) -> bool {
    paths.contains("-"@)
}

/// Decides [`reads_stdin`].
pub fn source_reads_stdin(paths: &Vec<String>) -> (r: bool)
    ensures
        r == reads_stdin(paths.deep_view()),
{
    let ghost all = paths.deep_view();
    let mut i: usize = 0;
    while i < paths.len()
        invariant
            i <= paths@.len(),
            all == paths.deep_view(),
            forall|j: int| 0 <= j < i ==> #[trigger] all[j] != "-"@,
        decreases paths.len() - i,
    {
        assert(all[i as int] == paths@[i as int]@);
        if text::str_eq(&paths[i], "-") {
            return true;
        }
        i = i + 1;
    }
    false
}

/// The request of a command whose request is ready at once.
pub open spec fn is_ready_request(
    command: Command,
    request: Request,
    caller_cwd: Option<String>,
) -> bool {
    match command {
        Command::SetBuffer(args) => request matches Request::SetBuffer(asked) && asked.name
            == args.name && asked.content@ == match args.content {
            Some(content) => text::bytes(content@),
            None => Seq::empty(),
        } && asked.append == args.append && asked.new_name == args.new_name && asked.set_clipboard
            == args.set_clipboard,
        Command::ShowBuffer(args) => request == Request::ShowBuffer(
            BufferRequest { name: args.name },
        ),
        Command::ListBuffers(args) => request == Request::ListBuffers(
            ListBuffersRequest {
                format: args.format,
                filter: args.filter,
                sort_order: args.sort_order,
                reversed: args.reversed,
            },
        ),
        Command::DeleteBuffer(args) => request == Request::DeleteBuffer(
            BufferRequest { name: args.name },
        ),
        Command::LoadBuffer(args) => request == Request::LoadBuffer(
            LoadBufferRequest {
                path: args.path,
                name: args.name,
                set_clipboard: args.set_clipboard,
            },
        ),
        Command::SaveBuffer(args) => request == Request::SaveBuffer(
            SaveBufferRequest { path: args.path, name: args.name, append: args.append },
        ),
        Command::ShowMessages(args) => request == Request::ShowMessages(
            ShowMessagesRequest {
                jobs: args.jobs,
                terminals: args.terminals,
                target_client: args.target_client,
            },
        ),
        Command::IfShell(args) => request == Request::IfShell(
            IfShellRequest {
                condition: args.condition,
                format_mode: args.format_mode,
                then_command: args.then_command,
                else_command: args.else_command,
                target: args.target,
                caller_cwd,
                background: args.background,
            },
        ),
        Command::WaitFor(args) => request == Request::WaitFor(
            WaitForRequest { channel: args.channel, mode: args.mode },
        ),
        _ => false,
    }
}

/// Whether an action is what the program does for a command.
pub open spec fn is_action(command: Command, caller_cwd: Option<String>, action: Action) -> bool {
    if command.runs_alone() {
        action == Action::Run(command)
    } else if let Some((name, queue_command)) = command.queued() {
        action matches Action::Send(sending) && !sending.payload && sending.name@ == name
            && is_queue_request(sending.request, queue_command, caller_cwd)
    } else if let Some((name, payload)) = command.ready() {
        action matches Action::Send(sending) && sending.name@ == name && sending.payload == payload
            && is_ready_request(command, sending.request, caller_cwd)
    } else if let Some((name, needs)) = command.needs() {
        action matches Action::Resolve(resolving) && resolving.name@ == name
            && resolving.needs@ == needs && resolving.command == command
            && resolving.starts_server == (command is SourceFile) && resolving.reads_stdin
            == match command {
            Command::SourceFile(args) => reads_stdin(args.paths.deep_view()),
            _ => false,
        }
    } else {
        match command {
            Command::CapturePane(args) => action matches Action::Build(building)
                && building.name@ == "capture-pane"@ && building.payload == args.print
                && building.command == command,
            Command::Unsupported(args) => action matches Action::Fail(failure) && failure@ == (
                1i32,
                "command not implemented: "@ + args.name@ + suffix(args.arguments.deep_view()),
            ),
            _ => false,
        }
    }
}

/// The action that sends a request.
fn send(name: &'static str, payload: bool, request: Request) -> (r: Action)
    ensures
        r == Action::Send(Sending { name, payload, request }),
{
    Action::Send(Sending { name, payload, request })
}

/// The action that resolves targets.
fn resolve(name: &'static str, needs: Vec<Need>, command: Command) -> (r: Action)
    ensures
        r == Action::Resolve(
            Resolving { name, starts_server: false, reads_stdin: false, needs, command },
        ),
{
    Action::Resolve(Resolving { name, starts_server: false, reads_stdin: false, needs, command })
}

/// What the program does for a command; see [`is_action`].
pub fn dispatch(command: Command, caller_cwd: Option<String>) -> (r: Action)
    ensures
        is_action(command, caller_cwd, r),
{
    match command {
        Command::NewSession(args) => Action::Run(Command::NewSession(args)),
        Command::StartServer => Action::Run(Command::StartServer),
        Command::KillServer => Action::Run(Command::KillServer),
        Command::LockServer => Action::Run(Command::LockServer),
        Command::HasSession(args) => Action::Run(Command::HasSession(args)),
        Command::KillSession(args) => Action::Run(Command::KillSession(args)),
        Command::RenameSession(args) => Action::Run(Command::RenameSession(args)),
        Command::ServerAccess(args) => Action::Run(Command::ServerAccess(args)),
        Command::LockSession(args) => Action::Run(Command::LockSession(args)),
        Command::LockClient(args) => Action::Run(Command::LockClient(args)),
        Command::NewWindow(args) => Action::Run(Command::NewWindow(args)),
        Command::KillWindow(args) => Action::Run(Command::KillWindow(args)),
        Command::SelectWindow(args) => Action::Run(Command::SelectWindow(args)),
        Command::RenameWindow(args) => Action::Run(Command::RenameWindow(args)),
        Command::NextWindow(args) => Action::Run(Command::NextWindow(args)),
        Command::PreviousWindow(args) => Action::Run(Command::PreviousWindow(args)),
        Command::LastWindow(args) => Action::Run(Command::LastWindow(args)),
        Command::ListSessions(args) => Action::Run(Command::ListSessions(args)),
        Command::ListWindows(args) => Action::Run(Command::ListWindows(args)),
        Command::LinkWindow(args) => Action::Run(Command::LinkWindow(args)),
        Command::MoveWindow(args) => Action::Run(Command::MoveWindow(args)),
        Command::SwapWindow(args) => Action::Run(Command::SwapWindow(args)),
        Command::RotateWindow(args) => Action::Run(Command::RotateWindow(args)),
        Command::ResizeWindow(args) => Action::Run(Command::ResizeWindow(args)),
        Command::RespawnWindow(args) => Action::Run(Command::RespawnWindow(args)),
        Command::SplitWindow(args) => Action::Run(Command::SplitWindow(args)),
        Command::SwapPane(args) => Action::Run(Command::SwapPane(args)),
        Command::LastPane(args) => Action::Run(Command::LastPane(args)),
        Command::JoinPane(args) => Action::Run(Command::JoinPane(args)),
        Command::MovePane(args) => Action::Run(Command::MovePane(args)),
        Command::BreakPane(args) => Action::Run(Command::BreakPane(args)),
        Command::PipePane(args) => Action::Run(Command::PipePane(args)),
        Command::RespawnPane(args) => Action::Run(Command::RespawnPane(args)),
        Command::ResizePane(args) => Action::Run(Command::ResizePane(args)),
        Command::ListPanes(args) => Action::Run(Command::ListPanes(args)),
        Command::SelectPane(args) => Action::Run(Command::SelectPane(args)),
        Command::SendKeys(args) => Action::Run(Command::SendKeys(args)),
        Command::BindKey(args) => Action::Run(Command::BindKey(args)),
        Command::UnbindKey(args) => Action::Run(Command::UnbindKey(args)),
        Command::ListCommands(args) => Action::Run(Command::ListCommands(args)),
        Command::ListKeys(args) => Action::Run(Command::ListKeys(args)),
        Command::SendPrefix(args) => Action::Run(Command::SendPrefix(args)),
        Command::UnlinkWindow(args) => Action::Run(Command::UnlinkWindow(args)),
        Command::AttachSession(args) => Action::Run(Command::AttachSession(args)),
        Command::RefreshClient(args) => Action::Run(Command::RefreshClient(args)),
        Command::ListClients(args) => Action::Run(Command::ListClients(args)),
        Command::SwitchClient(args) => Action::Run(Command::SwitchClient(args)),
        Command::DetachClient(args) => Action::Run(Command::DetachClient(args)),
        Command::SuspendClient(args) => Action::Run(Command::SuspendClient(args)),
        Command::SetOption(args) => Action::Run(Command::SetOption(args)),
        Command::SetWindowOption(args) => Action::Run(Command::SetWindowOption(args)),
        Command::SetEnvironment(args) => Action::Run(Command::SetEnvironment(args)),
        Command::ShowOptions(args) => Action::Run(Command::ShowOptions(args)),
        Command::ShowWindowOptions(args) => Action::Run(Command::ShowWindowOptions(args)),
        Command::ShowEnvironment(args) => Action::Run(Command::ShowEnvironment(args)),
        Command::SetHook(args) => Action::Run(Command::SetHook(args)),
        Command::ShowHooks(args) => Action::Run(Command::ShowHooks(args)),
        Command::Prompt(args) => run_queued_server_command("command-prompt", args.queue_command, caller_cwd),
        Command::ConfirmBefore(args) => run_queued_server_command("confirm-before", args.queue_command, caller_cwd),
        Command::FindWindow(args) => run_queued_server_command("find-window", args.queue_command, caller_cwd),
        Command::ChooseTree(args) => run_queued_server_command("choose-tree", args.queue_command, caller_cwd),
        Command::ChooseBuffer(args) => run_queued_server_command("choose-buffer", args.queue_command, caller_cwd),
        Command::ChooseClient(args) => run_queued_server_command("choose-client", args.queue_command, caller_cwd),
        Command::CustomizeMode(args) => run_queued_server_command("customize-mode", args.queue_command, caller_cwd),
        Command::DisplayMessage(args) => run_queued_server_command("display-message", args.queue_command, caller_cwd),
        Command::DisplayMenu(args) => run_queued_server_command("display-menu", args.queue_command, caller_cwd),
        Command::DisplayPopup(args) => run_queued_server_command("display-popup", args.queue_command, caller_cwd),
        Command::ClearPromptHistory(args) => run_queued_server_command("clear-prompt-history", args.queue_command, caller_cwd),
        Command::ShowPromptHistory(args) => run_queued_server_command("show-prompt-history", args.queue_command, caller_cwd),
        Command::KillPane(args) => {
            let need = match &args.target {
                Some(target) => Need::Pane(target.clone()),
                None => Need::CurrentPane,
            };
            resolve("kill-pane", one_need(need), Command::KillPane(args))
        },
        Command::SelectLayout(args) => {
            let need = match &args.target {
                Some(target) => Need::Layout(target.clone()),
                None => Need::WindowOrCurrent(None),
            };
            resolve("select-layout", one_need(need), Command::SelectLayout(args))
        },
        Command::NextLayout(args) => {
            let need = Need::WindowOrCurrent(same_text(&args.target));
            resolve("next-layout", one_need(need), Command::NextLayout(args))
        },
        Command::PreviousLayout(args) => {
            let need = Need::WindowOrCurrent(same_text(&args.target));
            resolve("previous-layout", one_need(need), Command::PreviousLayout(args))
        },
        Command::DisplayPanes(args) => {
            let need = Need::SessionOrCurrent(same_text(&args.target));
            resolve("display-panes", one_need(need), Command::DisplayPanes(args))
        },
        Command::CopyMode(args) => {
            let mut needs: Vec<Need> = Vec::new();
            need_given_pane(&mut needs, &args.target);
            need_given_pane(&mut needs, &args.source);
            assert(needs@ =~= given_pane(args.target) + given_pane(args.source));
            resolve("copy-mode", needs, Command::CopyMode(args))
        },
        Command::ClockMode(args) => {
            let mut needs: Vec<Need> = Vec::new();
            need_given_pane(&mut needs, &args.target);
            assert(needs@ =~= given_pane(args.target));
            resolve("clock-mode", needs, Command::ClockMode(args))
        },
        Command::SetBuffer(args) => {
            let content = match &args.content {
                Some(content) => text::to_bytes(content),
                None => Vec::new(),
            };
            send(
                "set-buffer",
                false,
                Request::SetBuffer(
                    SetBufferRequest {
                        name: args.name,
                        content,
                        append: args.append,
                        new_name: args.new_name,
                        set_clipboard: args.set_clipboard,
                    },
                ),
            )
        },
        Command::ShowBuffer(args) => send(
            "show-buffer",
            true,
            Request::ShowBuffer(BufferRequest { name: args.name }),
        ),
        Command::PasteBuffer(args) => {
            let need = Need::PaneOrCurrent(same_text(&args.target));
            resolve("paste-buffer", one_need(need), Command::PasteBuffer(args))
        },
        Command::ListBuffers(args) => send(
            "list-buffers",
            true,
            Request::ListBuffers(
                ListBuffersRequest {
                    format: args.format,
                    filter: args.filter,
                    sort_order: args.sort_order,
                    reversed: args.reversed,
                },
            ),
        ),
        Command::DeleteBuffer(args) => send(
            "delete-buffer",
            false,
            Request::DeleteBuffer(BufferRequest { name: args.name }),
        ),
        Command::LoadBuffer(args) => send(
            "load-buffer",
            false,
            Request::LoadBuffer(
                LoadBufferRequest {
                    path: args.path,
                    name: args.name,
                    set_clipboard: args.set_clipboard,
                },
            ),
        ),
        Command::SaveBuffer(args) => send(
            "save-buffer",
            false,
            Request::SaveBuffer(
                SaveBufferRequest { path: args.path, name: args.name, append: args.append },
            ),
        ),
        Command::CapturePane(args) => {
            let payload = args.print;
            Action::Build(
                Building { name: "capture-pane", payload, command: Command::CapturePane(args) },
            )
        },
        Command::ClearHistory(args) => {
            let need = Need::PaneOrCurrent(same_text(&args.target));
            resolve("clear-history", one_need(need), Command::ClearHistory(args))
        },
        Command::ShowMessages(args) => send(
            "show-messages",
            true,
            Request::ShowMessages(
                ShowMessagesRequest {
                    jobs: args.jobs,
                    terminals: args.terminals,
                    target_client: args.target_client,
                },
            ),
        ),
        Command::RunShell(args) => {
            let mut needs: Vec<Need> = Vec::new();
            need_given_pane(&mut needs, &args.target);
            assert(needs@ =~= given_pane(args.target));
            resolve("run-shell", needs, Command::RunShell(args))
        },
        Command::SourceFile(args) => run_source_file(args),
        Command::IfShell(args) => send(
            "if-shell",
            false,
            Request::IfShell(
                IfShellRequest {
                    condition: args.condition,
                    format_mode: args.format_mode,
                    then_command: args.then_command,
                    else_command: args.else_command,
                    target: args.target,
                    caller_cwd,
                    background: args.background,
                },
            ),
        ),
        Command::WaitFor(args) => send(
            "wait-for",
            false,
            Request::WaitFor(WaitForRequest { channel: args.channel, mode: args.mode }),
        ),
        Command::Unsupported(args) => {
            let mut message = "command not implemented: ".to_owned();
            message.append(&args.name);
            let rest = unsupported_argument_suffix(&args.arguments);
            message.append(&rest);
            Action::Fail(ExitFailure::new(1, message))
        },
    }
}

/// What the program does for `source-file`: the standard input is read where a
/// path stands for it, before the connection is made, which starts the server.
pub fn run_source_file(args: SourceFileArgs) -> (r: Action)
    ensures
        r matches Action::Resolve(resolving) && resolving.name@ == "source-file"@
            && resolving.starts_server && resolving.reads_stdin == reads_stdin(
            args.paths.deep_view(),
        ) && resolving.needs@ == given_pane(args.target) && resolving.command
            == Command::SourceFile(args),
{
    let mut needs: Vec<Need> = Vec::new();
    need_given_pane(&mut needs, &args.target);
    assert(needs@ =~= given_pane(args.target));
    let reads_stdin = source_reads_stdin(&args.paths);
    Action::Resolve(
        Resolving {
            name: "source-file",
            starts_server: true,
            reads_stdin,
            needs,
            command: Command::SourceFile(args),
        },
    )
}

/// Whether a layout has a name but cannot be had.
pub fn is_unsupported_named_layout(layout: LayoutName) -> (r: bool)
    ensures
        r == (layout is MainHorizontalMirrored || layout is MainVerticalMirrored),
{
    matches!(layout, LayoutName::MainHorizontalMirrored | LayoutName::MainVerticalMirrored)
}

/// Whether a layout is described rather than named: the description holds a
/// comma.
pub fn looks_like_custom_layout(layout: &str) -> (r: bool)
    ensures
        r == layout@.contains(','),
{
    let chars = text::to_chars(layout);
    let mut i: usize = 0;
    while i < chars.len()
        invariant
            i <= chars@.len(),
            chars@ == layout@,
            forall|j: int| 0 <= j < i ==> #[trigger] chars@[j] != ',',
        decreases chars.len() - i,
    {
        if chars[i] == ',' {
            assert(layout@[i as int] == ',');
            return true;
        }
        i = i + 1;
    }
    false
}

/// The failure for a layout that cannot be had.
pub fn invalid_layout_failure(layout: &str) -> (r: ExitFailure)
    ensures
        r@ == (1i32, "invalid layout: "@ + layout@),
{
    let mut message = "invalid layout: ".to_owned();
    message.append(layout);
    ExitFailure::new(1, message)
}

/// The request of `select-layout`, given the layout that its text names, where it
/// names one: a named layout, or else a described one, or else a failure.
pub open spec fn is_layout_request(
    target: SelectLayoutTarget,
    layout: String,
    named: Option<LayoutName>,
    r: Result<Request, ExitFailure>,
) -> bool {
    match named {
        Some(name) => if name is MainHorizontalMirrored || name is MainVerticalMirrored {
            r matches Err(failure) && failure@ == (1i32, "invalid layout: "@ + layout@)
        } else {
            r == Ok::<Request, ExitFailure>(
                Request::SelectLayout(SelectLayoutRequest { target, layout: name }),
            )
        },
        None => if layout@.contains(',') {
            r == Ok::<Request, ExitFailure>(
                Request::SelectCustomLayout(SelectCustomLayoutRequest { target, layout }),
            )
        } else {
            r matches Err(failure) && failure@ == (1i32, "invalid layout: "@ + layout@)
        },
    }
}

/// The request of `select-layout`; see [`is_layout_request`].
pub fn select_layout(target: SelectLayoutTarget, layout: String, named: Option<LayoutName>) -> (r:
    Result<Request, ExitFailure>)
    ensures
        is_layout_request(target, layout, named, r),
{
    match named {
        Some(name) => if is_unsupported_named_layout(name) {
            Err(invalid_layout_failure(&layout))
        } else {
            Ok(Request::SelectLayout(SelectLayoutRequest { target, layout: name }))
        },
        None => if looks_like_custom_layout(&layout) {
            Ok(Request::SelectCustomLayout(SelectCustomLayoutRequest { target, layout }))
        } else {
            Err(invalid_layout_failure(&layout))
        },
    }
}

/// What else the request of a command is made of.
#[derive(Debug, PartialEq, Eq)]
pub struct Extras {
    /// The layout that the text of `select-layout` names, where it names one.
    pub named_layout: Option<LayoutName>,
    /// What the standard input held, where it was read.
    pub stdin: Option<String>,
    /// The directory of the caller.
    pub caller_cwd: Option<String>,
}

/// The first of some resolved targets, as a pane.
pub open spec fn pane_at(resolved: Seq<Resolved>, i: int) -> PaneTarget {
    resolved[i]->Pane_0
}

/// A pane that may have been given, once resolved; it is the one at `i`.
pub open spec fn given(target: Option<String>, resolved: Seq<Resolved>, i: int) -> Option<
    PaneTarget,
> {
    match target {
        Some(_) => Some(pane_at(resolved, i)),
        None => None,
    }
}

/// Whether this is the request of a command, given its resolved targets.
pub open spec fn is_completed(
    command: Command,
    resolved: Seq<Resolved>,
    extras: Extras,
    r: Result<Request, ExitFailure>,
) -> bool {
    match command {
        Command::KillPane(args) => r == Ok::<Request, ExitFailure>(
            Request::KillPane(
                KillPaneRequest {
                    target: pane_at(resolved, 0),
                    kill_all_except: args.kill_all_except,
                },
            ),
        ),
        Command::SelectLayout(args) => is_layout_request(
            match resolved[0] {
                Resolved::Layout(target) => target,
                other => SelectLayoutTarget::Window(other->Window_0),
            },
            args.layout,
            extras.named_layout,
            r,
        ),
        Command::NextLayout(_) => r == Ok::<Request, ExitFailure>(
            Request::NextLayout(WindowRequest { target: resolved[0]->Window_0 }),
        ),
        Command::PreviousLayout(_) => r == Ok::<Request, ExitFailure>(
            Request::PreviousLayout(WindowRequest { target: resolved[0]->Window_0 }),
        ),
        Command::DisplayPanes(args) => r == Ok::<Request, ExitFailure>(
            Request::DisplayPanes(
                DisplayPanesRequest {
                    target: resolved[0]->Session_0,
                    duration_ms: args.duration_ms,
                    non_blocking: args.non_blocking,
                    no_command: args.no_command,
                    template: args.template,
                },
            ),
        ),
        Command::CopyMode(args) => r == Ok::<Request, ExitFailure>(
            Request::CopyMode(
                CopyModeRequest {
                    target: given(args.target, resolved, 0),
                    page_down: args.page_down,
                    exit_on_scroll: args.exit_on_scroll,
                    hide_position: args.hide_position,
                    mouse_drag_start: args.mouse_drag_start,
                    cancel_mode: args.cancel_mode,
                    scrollbar_scroll: args.scrollbar_scroll,
                    source: given(args.source, resolved, resolved.len() - 1),
                    page_up: args.page_up,
                },
            ),
        ),
        Command::ClockMode(args) => r == Ok::<Request, ExitFailure>(
            Request::ClockMode(OptionalPaneRequest { target: given(args.target, resolved, 0) }),
        ),
        Command::PasteBuffer(args) => r == Ok::<Request, ExitFailure>(
            Request::PasteBuffer(
                PasteBufferRequest {
                    name: args.name,
                    target: pane_at(resolved, 0),
                    delete_after: args.delete_after,
                    separator: args.separator,
                    linefeed: args.linefeed,
                    raw: args.raw,
                    bracketed: args.bracketed,
                },
            ),
        ),
        Command::ClearHistory(args) => r == Ok::<Request, ExitFailure>(
            Request::ClearHistory(
                ClearHistoryRequest {
                    target: pane_at(resolved, 0),
                    reset_hyperlinks: args.reset_hyperlinks,
                },
            ),
        ),
        Command::RunShell(args) => r == Ok::<Request, ExitFailure>(
            Request::RunShell(
                RunShellRequest {
                    command: args.command,
                    background: args.background,
                    as_commands: args.as_commands,
                    show_stderr: args.show_stderr,
                    delay_ms: args.delay_ms,
                    start_directory: args.start_directory,
                    target: given(args.target, resolved, 0),
                },
            ),
        ),
        Command::SourceFile(args) => r == Ok::<Request, ExitFailure>(
            Request::SourceFile(
                SourceFileRequest {
                    paths: args.paths,
                    quiet: args.quiet,
                    parse_only: args.parse_only,
                    verbose: args.verbose,
                    expand_paths: args.expand_paths,
                    target: given(args.target, resolved, 0),
                    caller_cwd: extras.caller_cwd,
                    stdin: extras.stdin,
                },
            ),
        ),
        _ => false,
    }
}

/// Takes a resolved pane.
fn take_pane(resolved: &mut VecDeque<Resolved>) -> (r: Option<PaneTarget>)
    ensures
        old(resolved)@.len() > 0 && old(resolved)@[0] is Pane ==> r == Some(
            old(resolved)@[0]->Pane_0,
        ) && final(resolved)@ == old(resolved)@.skip(1),
        old(resolved)@.len() == 0 ==> r is None && final(resolved)@ == old(resolved)@,
{
    let ghost before = resolved@;
    match resolved.pop_front() {
        Some(Resolved::Pane(pane)) => {
            assert(resolved@ =~= before.skip(1));
            Some(pane)
        },
        _ => None,
    }
}

/// Takes a resolved pane where one was given.
fn take_given(target: &Option<String>, resolved: &mut VecDeque<Resolved>) -> (r: Option<PaneTarget>)
    requires
        *target is Some ==> old(resolved)@.len() > 0 && old(resolved)@[0] is Pane,
    ensures
        *target is Some ==> r == Some(old(resolved)@[0]->Pane_0) && final(resolved)@ == old(
            resolved,
        )@.skip(1),
        *target is None ==> r is None && final(resolved)@ == old(resolved)@,
{
    match target {
        Some(_) => take_pane(resolved),
        None => None,
    }
}

/// The request of a command that needs targets, once they are resolved; see
/// [`is_completed`].
pub fn complete(command: Command, resolved: VecDeque<Resolved>, extras: Extras) -> (r: Option<
    Result<Request, ExitFailure>,
>)
    requires
        command.needs() is Some ==> all_fit(command.needed(), resolved@),
    ensures
        match r {
            Some(request) => command.needs() is Some && is_completed(
                command,
                resolved@,
                extras,
                request,
            ),
            None => command.needs() is None,
        },
{
    let ghost all = resolved@;
    let mut resolved = resolved;
    match command {
        Command::KillPane(args) => {
            assert(fits(Command::KillPane(args).needed()[0], all[0]));
            match take_pane(&mut resolved) {
                Some(target) => Some(
                    Ok(
                        Request::KillPane(
                            KillPaneRequest { target, kill_all_except: args.kill_all_except },
                        ),
                    ),
                ),
                None => None,
            }
        },
        Command::SelectLayout(args) => {
            assert(fits(Command::SelectLayout(args).needed()[0], all[0]));
            match resolved.pop_front() {
                Some(Resolved::Layout(target)) => Some(
                    select_layout(target, args.layout, extras.named_layout),
                ),
                Some(Resolved::Window(target)) => Some(
                    select_layout(
                        SelectLayoutTarget::Window(target),
                        args.layout,
                        extras.named_layout,
                    ),
                ),
                _ => None,
            }
        },
        Command::NextLayout(args) => {
            assert(fits(Command::NextLayout(args).needed()[0], all[0]));
            match resolved.pop_front() {
                Some(Resolved::Window(target)) => Some(
                    Ok(Request::NextLayout(WindowRequest { target })),
                ),
                _ => None,
            }
        },
        Command::PreviousLayout(args) => {
            assert(fits(Command::PreviousLayout(args).needed()[0], all[0]));
            match resolved.pop_front() {
                Some(Resolved::Window(target)) => Some(
                    Ok(Request::PreviousLayout(WindowRequest { target })),
                ),
                _ => None,
            }
        },
        Command::DisplayPanes(args) => {
            assert(fits(Command::DisplayPanes(args).needed()[0], all[0]));
            match resolved.pop_front() {
                Some(Resolved::Session(target)) => Some(
                    Ok(
                        Request::DisplayPanes(
                            DisplayPanesRequest {
                                target,
                                duration_ms: args.duration_ms,
                                non_blocking: args.non_blocking,
                                no_command: args.no_command,
                                template: args.template,
                            },
                        ),
                    ),
                ),
                _ => None,
            }
        },
        Command::CopyMode(args) => {
            proof {
                let needs = Command::CopyMode(args).needed();
                if args.target is Some {
                    assert(fits(needs[0], all[0]));
                }
                if args.source is Some {
                    assert(fits(needs[needs.len() - 1], all[needs.len() - 1]));
                }
            }
            let target = take_given(&args.target, &mut resolved);
            let source = take_given(&args.source, &mut resolved);
            Some(
                Ok(
                    Request::CopyMode(
                        CopyModeRequest {
                            target,
                            page_down: args.page_down,
                            exit_on_scroll: args.exit_on_scroll,
                            hide_position: args.hide_position,
                            mouse_drag_start: args.mouse_drag_start,
                            cancel_mode: args.cancel_mode,
                            scrollbar_scroll: args.scrollbar_scroll,
                            source,
                            page_up: args.page_up,
                        },
                    ),
                ),
            )
        },
        Command::ClockMode(args) => {
            proof {
                if args.target is Some {
                    assert(fits(Command::ClockMode(args).needed()[0], all[0]));
                }
            }
            let target = take_given(&args.target, &mut resolved);
            Some(Ok(Request::ClockMode(OptionalPaneRequest { target })))
        },
        Command::PasteBuffer(args) => {
            assert(fits(Command::PasteBuffer(args).needed()[0], all[0]));
            match take_pane(&mut resolved) {
                Some(target) => Some(
                    Ok(
                        Request::PasteBuffer(
                            PasteBufferRequest {
                                name: args.name,
                                target,
                                delete_after: args.delete_after,
                                separator: args.separator,
                                linefeed: args.linefeed,
                                raw: args.raw,
                                bracketed: args.bracketed,
                            },
                        ),
                    ),
                ),
                None => None,
            }
        },
        Command::ClearHistory(args) => {
            assert(fits(Command::ClearHistory(args).needed()[0], all[0]));
            match take_pane(&mut resolved) {
                Some(target) => Some(
                    Ok(
                        Request::ClearHistory(
                            ClearHistoryRequest {
                                target,
                                reset_hyperlinks: args.reset_hyperlinks,
                            },
                        ),
                    ),
                ),
                None => None,
            }
        },
        Command::RunShell(args) => {
            proof {
                if args.target is Some {
                    assert(fits(Command::RunShell(args).needed()[0], all[0]));
                }
            }
            let target = take_given(&args.target, &mut resolved);
            Some(
                Ok(
                    Request::RunShell(
                        RunShellRequest {
                            command: args.command,
                            background: args.background,
                            as_commands: args.as_commands,
                            show_stderr: args.show_stderr,
                            delay_ms: args.delay_ms,
                            start_directory: args.start_directory,
                            target,
                        },
                    ),
                ),
            )
        },
        Command::SourceFile(args) => {
            proof {
                if args.target is Some {
                    assert(fits(Command::SourceFile(args).needed()[0], all[0]));
                }
            }
            let target = take_given(&args.target, &mut resolved);
            Some(
                Ok(
                    Request::SourceFile(
                        SourceFileRequest {
                            paths: args.paths,
                            quiet: args.quiet,
                            parse_only: args.parse_only,
                            verbose: args.verbose,
                            expand_paths: args.expand_paths,
                            target,
                            caller_cwd: extras.caller_cwd,
                            stdin: extras.stdin,
                        },
                    ),
                ),
            )
        },
        _ => None,
    }
}

/// What a failure of `display-panes` comes to.
#[derive(Debug, PartialEq, Eq)]
pub enum DisplayPanesFailure {
    /// The client that was given is not there.
    NoClient(String),
    /// Another failure.
    Other(ExitFailure),
}

/// What `display-panes` ends with where its session cannot be resolved: where a
/// client was given, it is that client that is not there.
pub fn display_panes_unresolved(raw_target: Option<String>, error: ExitFailure) -> (r:
    DisplayPanesFailure)
    ensures
        r == match raw_target {
            Some(target) => DisplayPanesFailure::NoClient(target),
            None => DisplayPanesFailure::Other(error),
        },
{
    match raw_target {
        Some(target) => DisplayPanesFailure::NoClient(target),
        None => DisplayPanesFailure::Other(error),
    }
}

/// Whether a response says that there is no client.
pub open spec fn says_no_client(response: Response) -> bool {
    response matches Response::Error(answer) && answer.error@.message() == "no current client"@
}

/// What `display-panes` makes of a response: where a client was given and the
/// server knows none, it is that client that is not there.
pub fn display_panes_response(raw_target: Option<String>, response: Response) -> (r: Result<
    Response,
    DisplayPanesFailure,
>)
    ensures
        match raw_target {
            Some(target) => if says_no_client(response) {
                r == Err::<Response, DisplayPanesFailure>(DisplayPanesFailure::NoClient(target))
            } else {
                r == Ok::<Response, DisplayPanesFailure>(response)
            },
            None => r == Ok::<Response, DisplayPanesFailure>(response),
        },
{
    match raw_target {
        Some(target) => {
            let unknown = match &response {
                Response::Error(answer) => {
                    let message = answer.error.message();
                    text::str_eq(&message, "no current client")
                },
                _ => false,
            };
            if unknown {
                Err(DisplayPanesFailure::NoClient(target))
            } else {
                Ok(response)
            }
        },
        None => Ok(response),
    }
}

/// Commands that are carried out one after the other.
#[derive(Debug, PartialEq, Eq)]
pub struct CommandRun {
    /// The commands that are left.
    pub rest: VecDeque<Command>,
    /// The exit code so far.
    pub exit_code: i32,
}

/// Starts to carry out commands: where none is given, the default one.
pub fn dispatch_command_queue(commands: VecDeque<Command>) -> (r: CommandRun)
    ensures
        r.exit_code == 0,
        if commands@.len() == 0 {
            r.rest@.len() == 1 && (r.rest@[0] matches Command::NewSession(args)
                && is_default_session(args))
        } else {
            r.rest@ == commands@
        },
{
    let mut rest = commands;
    if rest.len() == 0 {
        rest.push_back(default_client_command());
    }
    CommandRun { rest, exit_code: 0 }
}

impl CommandRun {
    /// The next command.
    pub fn next(&mut self) -> (r: Option<Command>)
        ensures
            final(self).exit_code == old(self).exit_code,
            if old(self).rest@.len() > 0 {
                r == Some(old(self).rest@[0]) && final(self).rest@ == old(self).rest@.skip(1)
            } else {
                r is None && final(self).rest@ == old(self).rest@
            },
    {
        let ghost before = self.rest@;
        let next = self.rest.pop_front();
        if next.is_some() {
            assert(self.rest@ =~= before.skip(1));
        }
        next
    }

    /// Takes what came of a command: a failure ends the program, and else its exit
    /// code is that of the program so far.
    pub fn record(self, outcome: Result<i32, ExitFailure>) -> (r: Result<CommandRun, ExitFailure>)
        ensures
            match outcome {
                Ok(exit_code) => r matches Ok(run) && run.rest == self.rest && run.exit_code
                    == exit_code,
                Err(failure) => r matches Err(other) && other == failure,
            },
    {
        match outcome {
            Ok(exit_code) => Ok(CommandRun { rest: self.rest, exit_code }),
            Err(failure) => Err(failure),
        }
    }
}

/// The failure for a response of another command.
pub fn unexpected_response(command_name: &str, response_name: &str) -> (r: ExitFailure)
    ensures
        r@ == (
            1i32,
            "protocol error: unexpected '"@ + response_name@ + "' response for "@ + command_name@,
        ),
{
    let mut message = "protocol error: unexpected '".to_owned();
    message.append(response_name);
    message.append("' response for ");
    message.append(command_name);
    ExitFailure::new(1, message)
}

/// What is printed for a response, given whether it is a response of its command:
/// what the command prints, where it does. Then the command ends with success.
pub fn finish_command_success(response: &Response, expected: Result<(), ExitFailure>) -> (r: Result<
    Option<CommandOutput>,
    ExitFailure,
>)
    ensures
        match expected {
            Ok(_) => r matches Ok(output) && output.deep_view() == response.spec_output(),
            Err(failure) => r matches Err(other) && other == failure,
        },
{
    match expected {
        Ok(_) => Ok(
            match response.command_output() {
                Some(output) => Some(output.clone()),
                None => None,
            },
        ),
        Err(failure) => Err(failure),
    }
}

/// What a command ends with, given what came of printing: a reader that is gone
/// is no failure.
pub fn write_command_output(written: Result<(), IoFailure>) -> (r: Result<(), ExitFailure>)
    ensures
        match written {
            Ok(_) => r is Ok,
            Err(failure) => if failure.kind == IoKind::BrokenPipe {
                r is Ok
            } else {
                r matches Err(other) && other@ == (
                    1i32,
                    "failed to write command output: "@ + failure.message@,
                )
            },
        },
{
    match written {
        Ok(_) => Ok(()),
        Err(failure) => if matches!(failure.kind, IoKind::BrokenPipe) {
            Ok(())
        } else {
            let mut message = "failed to write command output: ".to_owned();
            message.append(&failure.message);
            Err(ExitFailure::new(1, message))
        },
    }
}

/// The failure for a standard input that cannot be read.
pub fn stdin_failure(error: &str) -> (r: ExitFailure)
    ensures
        r@ == (1i32, "failed to read stdin: "@ + error@),
{
    let mut message = "failed to read stdin: ".to_owned();
    message.append(error);
    ExitFailure::new(1, message)
}

/// What is printed for some lines: each with its end, or nothing.
pub open spec fn printed_lines(lines: Seq<Seq<char>>) -> Seq<u8> {
    if lines.len() == 0 {
        Seq::empty()
    } else {
        text::bytes(text::joined(lines, "\n"@) + "\n"@)
    }
}

/// What is printed for some lines; see [`printed_lines`].
pub fn write_lines_output(lines: &Vec<String>) -> (r: CommandOutput)
    ensures
        r@ == printed_lines(lines.deep_view()),
{
    if lines.len() == 0 {
        return CommandOutput::from_stdout(Vec::new());
    }
    let mut all = text::join(lines, "\n");
    all.append("\n");
    CommandOutput::from_stdout(text::to_bytes(&all))
}

/// Every command is carried out in one way: no command both has a routine of its
/// own and a request, or a request that is both ready and needs targets.
pub proof fn law_commands_go_one_way(command: Command)
    ensures
        command.runs_alone() ==> command.queued() is None && command.ready() is None
            && command.needs() is None,
        command.queued() is Some ==> command.ready() is None && command.needs() is None,
        command.ready() is Some ==> command.needs() is None,
{
}

/// A connection starts the server only for a command that may start it.
pub proof fn law_only_some_commands_start(
    command: Command,
    caller_cwd: Option<String>,
    action: Action,
)
    requires
        is_action(command, caller_cwd, action),
        action matches Action::Resolve(resolving) && resolving.starts_server,
    ensures
        command is SourceFile,
{
}

} // verus!
