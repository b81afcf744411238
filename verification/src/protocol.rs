//! What clients and the server say to each other.
use vstd::prelude::*;

use crate::names::{
    OptionScopeSelector, PaneTarget, ProtoError, ScopeSelector, SessionName, Target, WindowTarget,
};
use crate::response::{
    BreakPaneResponse, CommandOutput, DisplayPanesResponse, JoinPaneResponse, KillPaneResponse,
    LastPaneResponse, ListPanesResponse, MovePaneResponse, PaneSnapshotResponse, PipePaneResponse,
    ResizePaneResponse, RespawnPaneResponse, SelectPaneResponse, SendKeysResponse,
    SplitWindowResponse, SwapPaneResponse,
};
use crate::window_movement::{MoveWindowResponse, RotateWindowResponse, SwapWindowResponse};

verus! {

/// A named way to lay out the panes of a window.
#[derive(Debug, Clone, Copy, PartialEq, Eq, Structural)]
pub enum LayoutName {
    /// All panes side by side.
    EvenHorizontal,
    /// All panes one above the other.
    EvenVertical,
    /// A large pane above the others.
    MainHorizontal,
    /// A large pane below the others.
    MainHorizontalMirrored,
    /// A large pane to the left of the others.
    MainVertical,
    /// A large pane to the right of the others.
    MainVerticalMirrored,
    /// All panes in rows and columns.
    Tiled,
}

/// What a layout applies to.
#[derive(Debug, PartialEq, Eq)]
pub enum SelectLayoutTarget {
    /// The active window of a session.
    Session(SessionName),
    /// A window.
    Window(WindowTarget),
}

/// What to do with a channel.
#[derive(Debug, Clone, Copy, PartialEq, Eq, Structural)]
pub enum WaitForMode {
    /// Wait until it is woken.
    Wait,
    /// Wake those who wait.
    Signal,
    /// Lock it.
    Lock,
    /// Unlock it.
    Unlock,
}

/// How a client takes part in control mode.
#[derive(Debug, Clone, Copy, PartialEq, Eq, Structural)]
pub enum ControlMode {
    /// With plain text.
    Plain,
    /// With plain text between a start and an end sequence.
    ControlControl,
}

impl ControlMode {
    /// Whether the text stands between a start and an end sequence.
    pub fn is_control_control(self) -> (r: bool)
        ensures
            r == (self is ControlControl),
    {
        matches!(self, ControlMode::ControlControl)
    }
}

/// Where a subscription to pane output begins.
#[derive(Debug, Clone, Copy, PartialEq, Eq, Structural)]
pub enum PaneOutputSubscriptionStart {
    /// After the newest output that is held.
    Now,
    /// At the oldest output that is held.
    Oldest,
}

/// A request to create a session.
#[derive(Debug, PartialEq, Eq)]
pub struct NewSessionRequest {
    /// The name of the session.
    pub session_name: SessionName,
}

/// A request about a session.
#[derive(Debug, PartialEq, Eq)]
pub struct SessionRequest {
    /// The session.
    pub target: SessionName,
}

/// A request to rename a session.
#[derive(Debug, PartialEq, Eq)]
pub struct RenameSessionRequest {
    /// The session.
    pub target: SessionName,
    /// Its new name.
    pub new_name: SessionName,
}

/// A request about a session, or the current one.
#[derive(Debug, PartialEq, Eq)]
pub struct OptionalSessionRequest {
    /// The session.
    pub target: Option<SessionName>,
}

/// A request about a window.
#[derive(Debug, PartialEq, Eq)]
pub struct WindowRequest {
    /// The window.
    pub target: WindowTarget,
}

/// A request about a pane.
#[derive(Debug, PartialEq, Eq)]
pub struct PaneRequest {
    /// The pane.
    pub target: PaneTarget,
}

/// A request about a pane, or the current one.
#[derive(Debug, PartialEq, Eq)]
pub struct OptionalPaneRequest {
    /// The pane.
    pub target: Option<PaneTarget>,
}

/// A request to end a pane.
#[derive(Debug, PartialEq, Eq)]
pub struct KillPaneRequest {
    /// The pane.
    pub target: PaneTarget,
    /// Whether all other panes are ended instead.
    pub kill_all_except: bool,
}

/// A request to enter copy mode.
#[derive(Debug, PartialEq, Eq)]
pub struct CopyModeRequest {
    /// The pane.
    pub target: Option<PaneTarget>,
    /// Whether to scroll one page down.
    pub page_down: bool,
    /// Whether scrolling to the end leaves the mode.
    pub exit_on_scroll: bool,
    /// Whether the position is hidden.
    pub hide_position: bool,
    /// Whether a mouse drag began it.
    pub mouse_drag_start: bool,
    /// Whether another mode is left.
    pub cancel_mode: bool,
    /// Whether the scroll bar began it.
    pub scrollbar_scroll: bool,
    /// The pane whose contents are shown.
    pub source: Option<PaneTarget>,
    /// Whether to scroll one page up.
    pub page_up: bool,
}

/// A request to paste a buffer.
#[derive(Debug, PartialEq, Eq)]
pub struct PasteBufferRequest {
    /// The buffer.
    pub name: Option<String>,
    /// The pane.
    pub target: PaneTarget,
    /// Whether the buffer goes afterwards.
    pub delete_after: bool,
    /// What takes the place of line ends.
    pub separator: Option<String>,
    /// Whether line ends stay.
    pub linefeed: bool,
    /// Whether bytes are sent as they are.
    pub raw: bool,
    /// Whether paste marks are sent around it.
    pub bracketed: bool,
}

/// A request to clear the history of a pane.
#[derive(Debug, PartialEq, Eq)]
pub struct ClearHistoryRequest {
    /// The pane.
    pub target: PaneTarget,
    /// Whether hyperlinks go too.
    pub reset_hyperlinks: bool,
}

/// A request to show pane numbers.
#[derive(Debug, PartialEq, Eq)]
pub struct DisplayPanesRequest {
    /// The session.
    pub target: SessionName,
    /// For how long.
    pub duration_ms: Option<u64>,
    /// Whether other input stays possible.
    pub non_blocking: bool,
    /// Whether no command is run.
    pub no_command: bool,
    /// The command to run.
    pub template: Option<String>,
}

/// A request to show a message.
#[derive(Debug, PartialEq, Eq)]
pub struct DisplayMessageRequest {
    /// Where.
    pub target: Option<Target>,
    /// Whether it is printed instead.
    pub print: bool,
    /// The message.
    pub message: Option<String>,
}

/// A request to show the message log.
#[derive(Debug, PartialEq, Eq)]
pub struct ShowMessagesRequest {
    /// Whether jobs are shown.
    pub jobs: bool,
    /// Whether terminals are shown.
    pub terminals: bool,
    /// The client.
    pub target_client: Option<String>,
}

/// A request about a scope.
#[derive(Debug, PartialEq, Eq)]
pub struct ScopeRequest {
    /// The scope.
    pub scope: ScopeSelector,
}

/// A request about options at a scope.
#[derive(Debug, PartialEq, Eq)]
pub struct OptionScopeRequest {
    /// The scope.
    pub scope: OptionScopeSelector,
}

/// A request to lay out a window in a named way.
#[derive(Debug, PartialEq, Eq)]
pub struct SelectLayoutRequest {
    /// What to lay out.
    pub target: SelectLayoutTarget,
    /// The layout.
    pub layout: LayoutName,
}

/// A request to lay out a window as described.
#[derive(Debug, PartialEq, Eq)]
pub struct SelectCustomLayoutRequest {
    /// What to lay out.
    pub target: SelectLayoutTarget,
    /// The description.
    pub layout: String,
}

/// A request to set a paste buffer.
#[derive(Debug, PartialEq, Eq)]
pub struct SetBufferRequest {
    /// The buffer.
    pub name: Option<String>,
    /// What it holds.
    pub content: Vec<u8>,
    /// Whether it is added to.
    pub append: bool,
    /// The new name of the buffer.
    pub new_name: Option<String>,
    /// Whether the clipboard is set too.
    pub set_clipboard: bool,
}

/// A request about a paste buffer.
#[derive(Debug, PartialEq, Eq)]
pub struct BufferRequest {
    /// The buffer.
    pub name: Option<String>,
}

/// A request to list the paste buffers.
#[derive(Debug, PartialEq, Eq)]
pub struct ListBuffersRequest {
    /// How each is shown.
    pub format: Option<String>,
    /// Which are shown.
    pub filter: Option<String>,
    /// In which order.
    pub sort_order: Option<String>,
    /// Whether the order is turned round.
    pub reversed: bool,
}

/// A request to load a paste buffer.
#[derive(Debug, PartialEq, Eq)]
pub struct LoadBufferRequest {
    /// The file.
    pub path: String,
    /// The buffer.
    pub name: Option<String>,
    /// Whether the clipboard is set too.
    pub set_clipboard: bool,
}

/// A request to save a paste buffer.
#[derive(Debug, PartialEq, Eq)]
pub struct SaveBufferRequest {
    /// The file.
    pub path: String,
    /// The buffer.
    pub name: Option<String>,
    /// Whether the file is added to.
    pub append: bool,
}

/// A request to run a shell command.
#[derive(Debug, PartialEq, Eq)]
pub struct RunShellRequest {
    /// The command.
    pub command: String,
    /// Whether it runs in the background.
    pub background: bool,
    /// Whether the text holds commands of the server.
    pub as_commands: bool,
    /// Whether error output is shown.
    pub show_stderr: bool,
    /// How long to wait first.
    pub delay_ms: Option<u64>,
    /// Where it runs.
    pub start_directory: Option<String>,
    /// The pane.
    pub target: Option<PaneTarget>,
}

/// A request to run a command if a condition holds.
#[derive(Debug, PartialEq, Eq)]
pub struct IfShellRequest {
    /// The condition.
    pub condition: String,
    /// Whether the condition is a format.
    pub format_mode: bool,
    /// The command if it holds.
    pub then_command: String,
    /// The command if it does not.
    pub else_command: Option<String>,
    /// Where.
    pub target: Option<Target>,
    /// The directory of the caller.
    pub caller_cwd: Option<String>,
    /// Whether it runs in the background.
    pub background: bool,
}

/// A request to wait for a channel.
#[derive(Debug, PartialEq, Eq)]
pub struct WaitForRequest {
    /// The channel.
    pub channel: String,
    /// What to do with it.
    pub mode: WaitForMode,
}

/// A request to run the commands of files.
#[derive(Debug, PartialEq, Eq)]
pub struct SourceFileRequest {
    /// The files.
    pub paths: Vec<String>,
    /// Whether missing files are passed over.
    pub quiet: bool,
    /// Whether nothing is run.
    pub parse_only: bool,
    /// Whether the commands are printed.
    pub verbose: bool,
    /// Whether paths are formats.
    pub expand_paths: bool,
    /// The pane.
    pub target: Option<PaneTarget>,
    /// The directory of the caller.
    pub caller_cwd: Option<String>,
    /// What the standard input holds.
    pub stdin: Option<String>,
}

/// A request to upgrade to control mode.
#[derive(Debug, PartialEq, Eq)]
pub struct ControlModeRequest {
    /// The mode.
    pub mode: ControlMode,
    /// The terminal of the client.
    pub client_terminal: ClientTerminalContext,
}

/// A request to subscribe to the output of a pane.
#[derive(Debug, PartialEq, Eq)]
pub struct SubscribePaneOutputRequest {
    /// The pane.
    pub target: PaneTarget,
    /// Where to begin.
    pub start: PaneOutputSubscriptionStart,
}

/// A request for the next pane output.
#[derive(Debug, PartialEq, Eq)]
pub struct PaneOutputCursorRequest {
    /// The subscription.
    pub subscription_id: u64,
    /// How many events at most.
    pub max_events: Option<u16>,
}

/// A request to end a subscription.
#[derive(Debug, PartialEq, Eq)]
pub struct UnsubscribePaneOutputRequest {
    /// The subscription.
    pub subscription_id: u64,
}

/// An answer about a session.
#[derive(Debug, PartialEq, Eq)]
pub struct SessionResponse {
    /// The session.
    pub session_name: SessionName,
}

/// An answer about a window.
#[derive(Debug, PartialEq, Eq)]
pub struct WindowResponse {
    /// The window.
    pub target: WindowTarget,
}

/// The windows of a session.
#[derive(Debug, PartialEq, Eq)]
pub struct ListWindowsResponse {
    /// The windows.
    pub windows: Vec<WindowTarget>,
    /// What is printed.
    pub output: CommandOutput,
}

/// The clients.
#[derive(Debug, PartialEq, Eq)]
pub struct ListClientsResponse {
    /// What is printed.
    pub output: CommandOutput,
    /// How many there are.
    pub match_count: usize,
}

/// What a command prints.
#[derive(Debug, PartialEq, Eq)]
pub struct OutputResponse {
    /// What is printed.
    pub output: CommandOutput,
}

/// What a command prints, if anything.
#[derive(Debug, PartialEq, Eq)]
pub struct OptionalOutputResponse {
    /// What is printed.
    pub output: Option<CommandOutput>,
}

/// Whether a session exists.
#[derive(Debug, PartialEq, Eq)]
pub struct HasSessionResponse {
    /// Whether it does.
    pub exists: bool,
}

/// What a target means.
#[derive(Debug, PartialEq, Eq)]
pub struct ResolveTargetResponse {
    /// What it means.
    pub target: Target,
}

/// That control mode is on.
#[derive(Debug, PartialEq, Eq)]
pub struct ControlModeResponse {
    /// The mode.
    pub mode: ControlMode,
}

/// A subscription.
#[derive(Debug, PartialEq, Eq)]
pub struct SubscribePaneOutputResponse {
    /// The subscription.
    pub subscription_id: u64,
}

/// Bytes that a pane wrote.
#[derive(Debug, PartialEq, Eq)]
pub struct PaneOutputEvent {
    /// The place in the order of all.
    pub sequence: u64,
    /// The bytes.
    pub bytes: Vec<u8>,
}

/// Pane output, in order.
#[derive(Debug, PartialEq, Eq)]
pub struct PaneOutputCursorResponse {
    /// The subscription.
    pub subscription_id: u64,
    /// The output.
    pub events: Vec<PaneOutputEvent>,
}

/// Bytes of a pane that are still held.
#[derive(Debug, PartialEq, Eq)]
pub struct RecentOutput {
    /// The bytes.
    pub bytes: Vec<u8>,
    /// The first place that they come from.
    pub oldest_sequence: Option<u64>,
    /// The last place that they come from.
    pub newest_sequence: Option<u64>,
}

/// That pane output was lost.
#[derive(Debug, PartialEq, Eq)]
pub struct PaneOutputLagNotice {
    /// The place that was expected.
    pub expected_sequence: u64,
    /// The place at which it goes on.
    pub resume_sequence: u64,
    /// How much was lost.
    pub missed_events: u64,
    /// The last place of all.
    pub newest_sequence: u64,
    /// What is still held.
    pub recent: RecentOutput,
}

/// That pane output was lost.
#[derive(Debug, PartialEq, Eq)]
pub struct PaneOutputLagResponse {
    /// The subscription.
    pub subscription_id: u64,
    /// What was lost.
    pub lag: PaneOutputLagNotice,
}

/// That a subscription was ended.
#[derive(Debug, PartialEq, Eq)]
pub struct UnsubscribePaneOutputResponse {
    /// The subscription.
    pub subscription_id: u64,
    /// Whether there was one.
    pub removed: bool,
}

/// That a command failed.
#[derive(Debug, PartialEq, Eq)]
pub struct ErrorResponse {
    /// Why.
    pub error: ProtoError,
}

/// What is known of the terminal of a client.
#[derive(Debug, PartialEq, Eq)]
pub struct ClientTerminalContext {
    /// What the terminal can do.
    pub terminal_features: Vec<String>,
    /// Whether it takes UTF-8.
    pub utf8: bool,
}

/// What a client asks.
#[derive(Debug, PartialEq, Eq)]
pub enum Request {
    /// Create a session.
    NewSession(NewSessionRequest),
    /// Attach to a session.
    AttachSession(SessionRequest),
    /// Ask whether a session exists.
    HasSession(SessionRequest),
    /// End a session.
    KillSession(SessionRequest),
    /// Give a session another name.
    RenameSession(RenameSessionRequest),
    /// Create a window in a session.
    NewWindow(SessionRequest),
    /// End a window.
    KillWindow(WindowRequest),
    /// Link a window to a position.
    LinkWindow(WindowRequest),
    /// Unlink a window.
    UnlinkWindow(WindowRequest),
    /// List the windows of a session.
    ListWindows(SessionRequest),
    /// Rotate the panes of a window.
    RotateWindow(WindowRequest),
    /// Resize a window.
    ResizeWindow(WindowRequest),
    /// Start a window again.
    RespawnWindow(WindowRequest),
    /// Move a pane.
    MovePane(PaneRequest),
    /// Pipe the output of a pane.
    PipePane(PaneRequest),
    /// Start a pane again.
    RespawnPane(PaneRequest),
    /// Send keys to a pane.
    SendKeys(PaneRequest),
    /// Send keys to a pane or the current one.
    SendKeysExt(OptionalPaneRequest),
    /// Send the prefix key.
    SendPrefix(OptionalPaneRequest),
    /// Enter copy mode.
    CopyMode(CopyModeRequest),
    /// Show a clock.
    ClockMode(OptionalPaneRequest),
    /// End a pane.
    KillPane(KillPaneRequest),
    /// Resize a pane.
    ResizePane(PaneRequest),
    /// Capture the contents of a pane.
    CapturePane(PaneRequest),
    /// Capture the cells of a pane.
    PaneSnapshot(PaneRequest),
    /// Paste a buffer into a pane.
    PasteBuffer(PasteBufferRequest),
    /// Clear the history of a pane.
    ClearHistory(ClearHistoryRequest),
    /// Show pane numbers.
    DisplayPanes(DisplayPanesRequest),
    /// List the panes of a session.
    ListPanes(SessionRequest),
    /// List the sessions.
    ListSessions,
    /// List the clients.
    ListClients,
    /// End the server.
    KillServer,
    /// Switch a client to a session.
    SwitchClientExt(OptionalSessionRequest),
    /// Show a message.
    DisplayMessage(DisplayMessageRequest),
    /// Show the message log.
    ShowMessages(ShowMessagesRequest),
    /// Set an option.
    SetOption(ScopeRequest),
    /// Set an environment variable.
    SetEnvironment(ScopeRequest),
    /// Set a hook.
    SetHook(ScopeRequest),
    /// Change a hook.
    SetHookMutation(ScopeRequest),
    /// Show the environment.
    ShowEnvironment(ScopeRequest),
    /// Show the hooks.
    ShowHooks(ScopeRequest),
    /// Show the options.
    ShowOptions(OptionScopeRequest),
    /// Set an option by its name.
    SetOptionByName(OptionScopeRequest),
    /// Lay out a window in a named way.
    SelectLayout(SelectLayoutRequest),
    /// Lay out a window as described.
    SelectCustomLayout(SelectCustomLayoutRequest),
    /// Go on to the next layout.
    NextLayout(WindowRequest),
    /// Go back to the previous layout.
    PreviousLayout(WindowRequest),
    /// Set a paste buffer.
    SetBuffer(SetBufferRequest),
    /// Show a paste buffer.
    ShowBuffer(BufferRequest),
    /// Delete a paste buffer.
    DeleteBuffer(BufferRequest),
    /// List the paste buffers.
    ListBuffers(ListBuffersRequest),
    /// Load a paste buffer from a file.
    LoadBuffer(LoadBufferRequest),
    /// Save a paste buffer to a file.
    SaveBuffer(SaveBufferRequest),
    /// Run a shell command.
    RunShell(RunShellRequest),
    /// Run a command if a condition holds.
    IfShell(IfShellRequest),
    /// Wait for a channel.
    WaitFor(WaitForRequest),
    /// Run the commands of files.
    SourceFile(SourceFileRequest),
    /// Upgrade to control mode.
    ControlMode(ControlModeRequest),
    /// Subscribe to the output of a pane.
    SubscribePaneOutput(SubscribePaneOutputRequest),
    /// Ask for the next pane output.
    PaneOutputCursor(PaneOutputCursorRequest),
    /// End a subscription.
    UnsubscribePaneOutput(UnsubscribePaneOutputRequest),
}

/// What the server answers.
#[derive(Debug, PartialEq, Eq)]
pub enum Response {
    /// A session was created.
    NewSession(SessionResponse),
    /// A session has another name.
    RenameSession(SessionResponse),
    /// A window was created.
    NewWindow(WindowResponse),
    /// The next window is active.
    NextWindow(WindowResponse),
    /// The previous window is active.
    PreviousWindow(WindowResponse),
    /// The last window is active.
    LastWindow(WindowResponse),
    /// A window is active.
    SelectWindow(WindowResponse),
    /// A window has another name.
    RenameWindow(WindowResponse),
    /// A window was linked.
    LinkWindow(WindowResponse),
    /// A window was unlinked.
    UnlinkWindow(WindowResponse),
    /// The panes of a window rotated.
    RotateWindow(RotateWindowResponse),
    /// A window moved.
    MoveWindow(MoveWindowResponse),
    /// Two windows changed places.
    SwapWindow(SwapWindowResponse),
    /// A pane was created.
    SplitWindow(SplitWindowResponse),
    /// Two panes changed places.
    SwapPane(SwapPaneResponse),
    /// The last pane is active.
    LastPane(LastPaneResponse),
    /// A pane is active.
    SelectPane(SelectPaneResponse),
    /// A pane joined a window.
    JoinPane(JoinPaneResponse),
    /// A pane moved.
    MovePane(MovePaneResponse),
    /// A pane has a window of its own.
    BreakPane(BreakPaneResponse),
    /// A pane was ended.
    KillPane(KillPaneResponse),
    /// A pane was resized.
    ResizePane(ResizePaneResponse),
    /// Pane numbers are shown.
    DisplayPanes(DisplayPanesResponse),
    /// The output of a pane is piped.
    PipePane(PipePaneResponse),
    /// A pane was started again.
    RespawnPane(RespawnPaneResponse),
    /// Keys were sent.
    SendKeys(SendKeysResponse),
    /// The cells of a pane.
    PaneSnapshot(PaneSnapshotResponse),
    /// The panes of a session.
    ListPanes(ListPanesResponse),
    /// The windows of a session.
    ListWindows(ListWindowsResponse),
    /// The sessions.
    ListSessions(OutputResponse),
    /// The clients.
    ListClients(ListClientsResponse),
    /// Whether a session exists.
    HasSession(HasSessionResponse),
    /// The server ends.
    KillServer,
    /// A shell command was run.
    RunShell(OptionalOutputResponse),
    /// A conditional command was run.
    IfShell(OptionalOutputResponse),
    /// Files were run.
    SourceFile(OptionalOutputResponse),
    /// What a command prints.
    Output(OutputResponse),
    /// What a target means.
    ResolveTarget(ResolveTargetResponse),
    /// Control mode is on.
    ControlMode(ControlModeResponse),
    /// A subscription was made.
    SubscribePaneOutput(SubscribePaneOutputResponse),
    /// Pane output, in order.
    PaneOutputCursor(PaneOutputCursorResponse),
    /// Pane output was lost.
    PaneOutputLag(PaneOutputLagResponse),
    /// A subscription was ended.
    UnsubscribePaneOutput(UnsubscribePaneOutputResponse),
    /// The command was carried out.
    Done,
    /// The command failed.
    Error(ErrorResponse),
}

impl Response {
    /// What the command prints, where it prints something.
    pub open spec fn spec_output(self) -> Option<Seq<u8>> {
        match self {
            Response::BreakPane(r) => match r.output {
                Some(output) => Some(output@),
                None => None,
            },
            Response::ListPanes(r) => Some(r.output@),
            Response::ListWindows(r) => Some(r.output@),
            Response::ListSessions(r) => Some(r.output@),
            Response::ListClients(r) => Some(r.output@),
            Response::Output(r) => Some(r.output@),
            Response::RunShell(r) | Response::IfShell(r) | Response::SourceFile(r) => match r.output {
                Some(output) => Some(output@),
                None => None,
            },
            _ => None,
        }
    }

    /// What the command prints, where it prints something.
    pub fn command_output(&self) -> (r: Option<&CommandOutput>)
        ensures
            match r {
                Some(output) => self.spec_output() == Some(output@),
                None => self.spec_output() is None,
            },
    {
        match self {
            Response::BreakPane(r) => r.command_output(),
            Response::ListPanes(r) => Some(r.command_output()),
            Response::ListWindows(r) => Some(&r.output),
            Response::ListSessions(r) => Some(&r.output),
            Response::ListClients(r) => Some(&r.output),
            Response::Output(r) => Some(&r.output),
            Response::RunShell(r) | Response::IfShell(r) | Response::SourceFile(r) => r.output.as_ref(),
            _ => None,
        }
    }
}

} // verus!
