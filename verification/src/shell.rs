//! The commands `run-shell` and `if-shell`: what they ask of the system, and what
//! they answer.
use vstd::prelude::*;

use crate::names::{ErrorView, PaneTarget, ProtoError, SessionName, Target};
use crate::protocol::{
    ErrorResponse, IfShellRequest, OptionalOutputResponse, Response, RunShellRequest,
};
use crate::queue::{
    same_target, same_text, unless_silent, QueueCommandAction, QueueExecutionContext,
};
use crate::response::CommandOutput;
use crate::state::HandlerState;
use crate::text;

verus! {

/// A template to render.
#[derive(Debug, PartialEq, Eq)]
pub struct Rendering {
    /// The template.
    pub template: String,
    /// What it is rendered about; nothing in particular where there is none.
    pub target: Option<Target>,
    /// The file that the template stands in.
    pub current_file: Option<String>,
}

impl Rendering {
    /// The session whose clients are counted for the rendering.
    pub fn counted_session(&self) -> (r: Option<&SessionName>)
        ensures
            match self.target {
                Some(target) => r matches Some(name) && *name == target.spec_session_name(),
                None => r is None,
            },
    {
        match &self.target {
            Some(target) => Some(target.session_name()),
            None => None,
        }
    }
}

/// A shell that is to run something.
#[derive(Debug, PartialEq, Eq)]
pub struct ShellProfile {
    /// The session whose environment and options count, with its identity.
    pub session: Option<(SessionName, u32)>,
    /// The directory that was asked for.
    pub directory: Option<String>,
    /// Whether no configuration is being loaded.
    pub configured: bool,
}

/// The session of a target, with its identity, where that session exists.
pub fn profile_session(state: &HandlerState, target: Option<&SessionName>) -> (r: Option<
    (SessionName, u32),
>)
    ensures
        match target {
            Some(name) => if state@.sessions.contains_key(name@) {
                r == Some((*name, state@.sessions[name@].id))
            } else {
                r is None
            },
            None => r is None,
        },
{
    match target {
        Some(name) => match state.sessions.get(name) {
            Some(session) => Some((name.clone(), session.id)),
            None => None,
        },
        None => None,
    }
}

/// What a shell command left.
#[derive(Debug, PartialEq, Eq)]
pub struct ShellOutput {
    /// Whether it succeeded.
    pub success: bool,
    /// How it ended, in words.
    pub status: String,
    /// What it printed.
    pub stdout: Vec<u8>,
    /// What it printed as errors.
    pub stderr: Vec<u8>,
}

/// The words for a shell command that failed, given how it ended and what it
/// printed as errors.
pub open spec fn failure_words(status: Seq<char>, stderr: Seq<char>) -> Seq<char> {
    let said = text::trimmed(stderr);
    if said.len() == 0 {
        "run-shell command exited with "@ + status
    } else {
        "run-shell command exited with "@ + status + ": "@ + said
    }
}

/// Computes [`failure_words`].
pub fn failure_text(status: &str, stderr: &str) -> (r: String)
    ensures
        r@ == failure_words(status@, stderr@),
{
    let said = text::trim(stderr);
    let mut out = "run-shell command exited with ".to_owned();
    out.append(status);
    if !said.as_str().is_empty() {
        out.append(": ");
        out.append(&said);
    }
    out
}

/// The words for a shell command that failed.
pub fn run_shell_status_error(output: &ShellOutput) -> (r: String)
    ensures
        r@ == failure_words(output.status@, text::rendered(output.stderr@)),
{
    let stderr = text::render(&output.stderr);
    failure_text(&output.status, &stderr)
}

/// What `run-shell` asks of the system.
#[derive(Debug, PartialEq, Eq)]
pub enum RunShellWork {
    /// Nothing: there is no command.
    Nothing,
    /// Commands of the server: the text is parsed, and what comes out is run in
    /// the context.
    Commands(String, QueueExecutionContext),
    /// A shell command: the text is rendered, and the shell runs what comes out.
    Shell(Rendering, ShellProfile),
}

/// Computes [`as_target`].
pub(crate) fn pane_target(target: &Option<PaneTarget>) -> (r: Option<Target>)
    ensures
        r == as_target(*target),
{
    match target {
        Some(pane) => Some(Target::Pane(pane.clone())),
        None => None,
    }
}

/// The target that a pane is.
pub open spec fn as_target(target: Option<PaneTarget>) -> Option<Target> {
    match target {
        Some(pane) => Some(Target::Pane(pane)),
        None => None,
    }
}

/// The text of a shell command, to be rendered about its pane.
pub fn expand_run_shell_command(command: &String, target: &Option<PaneTarget>) -> (r: Rendering)
    ensures
        r == (Rendering { template: *command, target: as_target(*target), current_file: None }),
{
    Rendering { template: command.clone(), target: pane_target(target), current_file: None }
}

/// The shell that runs a shell command.
pub fn run_shell_profile(
    state: &HandlerState,
    request: &RunShellRequest,
    config_loading: bool,
) -> (r: ShellProfile)
    ensures
        r.directory == request.start_directory,
        r.configured == !config_loading,
        match request.target {
            Some(pane) => if state@.sessions.contains_key(pane.session_name@) {
                r.session == Some((pane.session_name, state@.sessions[pane.session_name@].id))
            } else {
                r.session is None
            },
            None => r.session is None,
        },
{
    let session = match &request.target {
        Some(pane) => profile_session(state, Some(&pane.session_name)),
        None => None,
    };
    ShellProfile {
        session,
        directory: same_text(&request.start_directory),
        configured: !config_loading,
    }
}

/// How many milliseconds `run-shell` waits before its work is decided on.
pub fn run_shell_wait(request: &RunShellRequest) -> (r: Option<u64>)
    ensures
        r == request.delay_ms,
{
    request.delay_ms
}

/// The work of `run-shell`, given the state after its wait.
pub fn run_shell_task(
    state: &HandlerState,
    request: &RunShellRequest,
    config_loading: bool,
) -> (r: RunShellWork)
    ensures
        if request.command@.len() == 0 {
            r is Nothing
        } else if request.as_commands {
            r matches RunShellWork::Commands(command, context) && command == request.command
                && context == (QueueExecutionContext {
                caller_cwd: request.start_directory,
                source_file_depth: 0,
                current_file: None,
                current_target: as_target(request.target),
                mouse_target: None,
            })
        } else {
            r matches RunShellWork::Shell(rendering, profile) && rendering == (Rendering {
                template: request.command,
                target: as_target(request.target),
                current_file: None,
            }) && profile.directory == request.start_directory && profile.configured == !config_loading
                && match request.target {
                Some(pane) => if state@.sessions.contains_key(pane.session_name@) {
                    profile.session == Some(
                        (pane.session_name, state@.sessions[pane.session_name@].id),
                    )
                } else {
                    profile.session is None
                },
                None => profile.session is None,
            }
        },
{
    if request.command.as_str().is_empty() {
        RunShellWork::Nothing
    } else if request.as_commands {
        let context = QueueExecutionContext::new(
            same_text(&request.start_directory),
        ).with_current_target(pane_target(&request.target));
        RunShellWork::Commands(request.command.clone(), context)
    } else {
        RunShellWork::Shell(
            expand_run_shell_command(&request.command, &request.target),
            run_shell_profile(state, request, config_loading),
        )
    }
}

/// What commands that were run leave: what they print, unless it is nothing.
pub fn commands_result(output: Result<CommandOutput, ProtoError>) -> (r: Result<
    Option<CommandOutput>,
    ProtoError,
>)
    ensures
        match output {
            Ok(output) => r matches Ok(kept) && kept.deep_view() == unless_silent(Some(output@)),
            Err(error) => r matches Err(other) && other == error,
        },
{
    match output {
        Ok(output) => if output.stdout().len() > 0 {
            Ok(Some(output))
        } else {
            Ok(None)
        },
        Err(error) => Err(error),
    }
}

impl ShellOutput {
    /// What is printed of a shell command: its output, and behind it what it
    /// printed as errors, where that is shown.
    pub open spec fn shown(self, show_stderr: bool) -> Seq<u8> {
        if show_stderr {
            self.stdout@ + self.stderr@
        } else {
            self.stdout@
        }
    }
}

/// What a shell command leaves: an error where it failed, and else what is
/// printed of it, unless it is nothing.
pub fn shell_result(output: ShellOutput, show_stderr: bool) -> (r: Result<
    Option<CommandOutput>,
    ProtoError,
>)
    ensures
        if output.success {
            r matches Ok(kept) && kept.deep_view() == unless_silent(
                Some(output.shown(show_stderr)),
            )
        } else {
            r matches Err(error) && error@ == ErrorView::Server(
                failure_words(output.status@, text::rendered(output.stderr@)),
            )
        },
{
    if !output.success {
        return Err(ProtoError::Server(run_shell_status_error(&output)));
    }
    let mut stdout = output.stdout;
    if show_stderr {
        stdout.extend_from_slice(output.stderr.as_slice());
    }
    assert(stdout@ =~= output.shown(show_stderr));
    if stdout.len() > 0 {
        Ok(Some(CommandOutput::from_stdout(stdout)))
    } else {
        Ok(None)
    }
}

/// What is answered to `run-shell`: in the background, nothing; else what the
/// command left, given it.
pub fn handle_run_shell(
    background: bool,
    result: Option<Result<Option<CommandOutput>, ProtoError>>,
) -> (r: Option<Response>)
    ensures
        if background {
            r == Some(Response::RunShell(OptionalOutputResponse { output: None }))
        } else {
            match result {
                Some(Ok(output)) => r == Some(Response::RunShell(OptionalOutputResponse { output })),
                Some(Err(error)) => r == Some(Response::Error(ErrorResponse { error })),
                None => r is None,
            }
        },
{
    if background {
        return Some(Response::RunShell(OptionalOutputResponse { output: None }));
    }
    match result {
        Some(Ok(output)) => Some(Response::RunShell(OptionalOutputResponse { output })),
        Some(Err(error)) => Some(Response::Error(ErrorResponse { error })),
        None => None,
    }
}

/// What is answered to `if-shell`: in the background, nothing; else what the
/// chosen command left, given it, but no output that is empty.
pub fn handle_if_shell(
    background: bool,
    result: Option<Result<Option<CommandOutput>, ProtoError>>,
) -> (r: Option<Response>)
    ensures
        if background {
            r == Some(Response::IfShell(OptionalOutputResponse { output: None }))
        } else {
            match result {
                Some(Ok(output)) => r matches Some(Response::IfShell(answer))
                    && answer.output.deep_view() == unless_silent(output.deep_view()),
                Some(Err(error)) => r == Some(Response::Error(ErrorResponse { error })),
                None => r is None,
            }
        },
{
    if background {
        return Some(Response::IfShell(OptionalOutputResponse { output: None }));
    }
    match result {
        Some(Ok(Some(output))) => {
            let output = if output.stdout().len() > 0 {
                Some(output)
            } else {
                None
            };
            Some(Response::IfShell(OptionalOutputResponse { output }))
        },
        Some(Ok(None)) => Some(Response::IfShell(OptionalOutputResponse { output: None })),
        Some(Err(error)) => Some(Response::Error(ErrorResponse { error })),
        None => None,
    }
}

/// The condition of `if-shell`, to be rendered about its target.
pub fn expand_if_shell_condition(request: &IfShellRequest) -> (r: Rendering)
    ensures
        r == (Rendering {
            template: request.condition,
            target: request.target,
            current_file: None,
        }),
{
    Rendering {
        template: request.condition.clone(),
        target: same_target(&request.target),
        current_file: None,
    }
}

/// The shell that runs the condition of `if-shell`.
pub fn if_shell_profile(
    state: &HandlerState,
    request: &IfShellRequest,
    config_loading: bool,
) -> (r: ShellProfile)
    ensures
        r.directory == request.caller_cwd,
        r.configured == !config_loading,
        match request.target {
            Some(target) => {
                let name = target.spec_session_name();
                if state@.sessions.contains_key(name@) {
                    r.session == Some((name, state@.sessions[name@].id))
                } else {
                    r.session is None
                }
            },
            None => r.session is None,
        },
{
    let session = match &request.target {
        Some(target) => profile_session(state, Some(target.session_name())),
        None => None,
    };
    ShellProfile {
        session,
        directory: same_text(&request.caller_cwd),
        configured: !config_loading,
    }
}

/// How a rendered condition is decided.
#[derive(Debug, PartialEq, Eq)]
pub enum ConditionCheck {
    /// By the text itself: whether it counts as true.
    Text(String),
    /// By a shell command: whether it succeeds.
    Shell(String),
}

/// How the condition of `if-shell` is decided, given its rendered text.
pub fn condition_check(format_mode: bool, expanded: String) -> (r: ConditionCheck)
    ensures
        r == if format_mode {
            ConditionCheck::Text(expanded)
        } else {
            ConditionCheck::Shell(expanded)
        },
{
    if format_mode {
        ConditionCheck::Text(expanded)
    } else {
        ConditionCheck::Shell(expanded)
    }
}

/// What `if-shell` does once its condition is decided: the text of the commands
/// to run, with their context, or nothing.
pub fn if_shell_task(request: IfShellRequest, condition_is_true: bool) -> (r: Option<
    (String, QueueExecutionContext),
>)
    ensures
        ({
            let context = QueueExecutionContext {
                caller_cwd: request.caller_cwd,
                source_file_depth: 0,
                current_file: None,
                current_target: request.target,
                mouse_target: None,
            };
            r == if condition_is_true {
                Some((request.then_command, context))
            } else {
                match request.else_command {
                    Some(command) => Some((command, context)),
                    None => None,
                }
            }
        }),
{
    let selected = if condition_is_true {
        Some(request.then_command)
    } else {
        request.else_command
    };
    match selected {
        Some(command) => Some(
            (
                command,
                QueueExecutionContext::new(request.caller_cwd).with_current_target(request.target),
            ),
        ),
        None => None,
    }
}

/// Commands that are an argument of another command.
#[derive(Debug, PartialEq, Eq)]
pub enum CommandListArgument<C> {
    /// They are parsed.
    Parsed(C),
    /// They are a text.
    String(String),
}

/// A queued `if-shell`.
#[derive(Debug, PartialEq, Eq)]
pub struct ParsedIfShellCommand<C> {
    /// The condition.
    pub condition: String,
    /// Whether the condition is a format.
    pub format_mode: bool,
    /// The commands if it holds.
    pub then_commands: CommandListArgument<C>,
    /// The commands if it does not.
    pub else_commands: Option<CommandListArgument<C>>,
    /// Where.
    pub target: Option<Target>,
    /// The directory of the caller.
    pub caller_cwd: Option<String>,
    /// Whether it runs in the background.
    pub background: bool,
}

/// What a queued `if-shell` does next.
#[derive(Debug, PartialEq, Eq)]
pub enum QueuedIfShellStep {
    /// The queue goes on; the command is worked through in the background, from
    /// [`execute_queued_if_shell_background`] on.
    Background,
    /// The shell is prepared.
    FindProfile,
    /// The condition is rendered.
    Expand(Rendering),
    /// The condition is decided.
    Check(ConditionCheck),
    /// The command ends with an error.
    Fail(ProtoError),
}

/// How a queued `if-shell` ends.
#[derive(Debug, PartialEq, Eq)]
pub enum QueuedIfShellEnd<C> {
    /// Nothing is to be run.
    Nothing,
    /// These commands are to be run.
    Commands(C),
    /// The text is parsed, and what comes out is to be run.
    Parse(String),
    /// The command ends with an error.
    Fail(ProtoError),
}

impl<C> ParsedIfShellCommand<C> {
    /// The target of the command: its own, or else the current one.
    pub open spec fn effective_target(self, context: QueueExecutionContext) -> Option<Target> {
        match self.target {
            Some(target) => Some(target),
            None => context.current_target,
        }
    }

    /// The condition, to be rendered.
    pub open spec fn condition_rendering(self, context: QueueExecutionContext) -> Rendering {
        Rendering {
            template: self.condition,
            target: self.effective_target(context),
            current_file: None,
        }
    }

    /// The condition, to be rendered.
    fn expand(&self, context: &QueueExecutionContext) -> (r: Rendering)
        ensures
            r == self.condition_rendering(*context),
    {
        let target = match &self.target {
            Some(target) => Some(target.clone()),
            None => same_target(&context.current_target),
        };
        let request = IfShellRequest {
            condition: self.condition.clone(),
            format_mode: self.format_mode,
            then_command: String::new(),
            else_command: None,
            target,
            caller_cwd: same_text(&self.caller_cwd),
            background: false,
        };
        expand_if_shell_condition(&request)
    }

    /// What is done first for the condition: where it is a shell command, the shell
    /// comes before it.
    fn begin(&self, context: &QueueExecutionContext) -> (r: QueuedIfShellStep)
        ensures
            r == if self.format_mode {
                QueuedIfShellStep::Expand(self.condition_rendering(*context))
            } else {
                QueuedIfShellStep::FindProfile
            },
    {
        if self.format_mode {
            QueuedIfShellStep::Expand(self.expand(context))
        } else {
            QueuedIfShellStep::FindProfile
        }
    }

    /// The shell that runs the condition: the target of the command itself
    /// counts, not the current one.
    pub fn queued_if_shell_profile(&self, state: &HandlerState, config_loading: bool) -> (r:
        ShellProfile)
        ensures
            r.directory == self.caller_cwd,
            r.configured == !config_loading,
            match self.target {
                Some(target) => {
                    let name = target.spec_session_name();
                    if state@.sessions.contains_key(name@) {
                        r.session == Some((name, state@.sessions[name@].id))
                    } else {
                        r.session is None
                    }
                },
                None => r.session is None,
            },
    {
        let session = match &self.target {
            Some(target) => profile_session(state, Some(target.session_name())),
            None => None,
        };
        ShellProfile {
            session,
            directory: same_text(&self.caller_cwd),
            configured: !config_loading,
        }
    }

    /// What the command does once the shell is prepared.
    pub fn profiled(
        &self,
        context: &QueueExecutionContext,
        outcome: Result<(), ProtoError>,
    ) -> (r: QueuedIfShellStep)
        ensures
            r == match outcome {
                Ok(_) => QueuedIfShellStep::Expand(self.condition_rendering(*context)),
                Err(error) => QueuedIfShellStep::Fail(error),
            },
    {
        match outcome {
            Ok(_) => QueuedIfShellStep::Expand(self.expand(context)),
            Err(error) => QueuedIfShellStep::Fail(error),
        }
    }

    /// What the command does once its condition is rendered.
    pub fn expanded(&self, outcome: Result<String, ProtoError>) -> (r: QueuedIfShellStep)
        ensures
            r == match outcome {
                Ok(text) => QueuedIfShellStep::Check(
                    if self.format_mode {
                        ConditionCheck::Text(text)
                    } else {
                        ConditionCheck::Shell(text)
                    },
                ),
                Err(error) => QueuedIfShellStep::Fail(error),
            },
    {
        match outcome {
            Ok(text) => QueuedIfShellStep::Check(condition_check(self.format_mode, text)),
            Err(error) => QueuedIfShellStep::Fail(error),
        }
    }

    /// How the command ends once its condition is decided.
    pub fn decided(self, outcome: Result<bool, ProtoError>) -> (r: QueuedIfShellEnd<C>)
        ensures
            r == match outcome {
                Ok(true) => argument_end(self.then_commands),
                Ok(false) => match self.else_commands {
                    Some(commands) => argument_end(commands),
                    None => QueuedIfShellEnd::Nothing,
                },
                Err(error) => QueuedIfShellEnd::Fail(error),
            },
    {
        let selected = match outcome {
            Ok(true) => Some(self.then_commands),
            Ok(false) => self.else_commands,
            Err(error) => {
                return QueuedIfShellEnd::Fail(error);
            },
        };
        match selected {
            Some(commands) => resolve_command_list_argument(commands),
            None => QueuedIfShellEnd::Nothing,
        }
    }
}

/// What becomes of commands that are an argument: parsed ones are run as they
/// are, and a text is parsed first.
pub open spec fn argument_end<C>(argument: CommandListArgument<C>) -> QueuedIfShellEnd<C> {
    match argument {
        CommandListArgument::Parsed(commands) => QueuedIfShellEnd::Commands(commands),
        CommandListArgument::String(command) => QueuedIfShellEnd::Parse(command),
    }
}

/// Computes [`argument_end`].
pub fn resolve_command_list_argument<C>(argument: CommandListArgument<C>) -> (r: QueuedIfShellEnd<
    C,
>)
    ensures
        r == argument_end(argument),
{
    match argument {
        CommandListArgument::Parsed(commands) => QueuedIfShellEnd::Commands(commands),
        CommandListArgument::String(command) => QueuedIfShellEnd::Parse(command),
    }
}

/// What a queued `if-shell` does first.
pub fn execute_queued_if_shell<C>(
    command: &ParsedIfShellCommand<C>,
    context: &QueueExecutionContext,
) -> (r: QueuedIfShellStep)
    ensures
        r == if command.background {
            QueuedIfShellStep::Background
        } else if command.format_mode {
            QueuedIfShellStep::Expand(command.condition_rendering(*context))
        } else {
            QueuedIfShellStep::FindProfile
        },
{
    if command.background {
        QueuedIfShellStep::Background
    } else {
        command.begin(context)
    }
}

/// What a queued `if-shell` in the background does first.
pub fn execute_queued_if_shell_background<C>(
    command: &ParsedIfShellCommand<C>,
    context: &QueueExecutionContext,
) -> (r: QueuedIfShellStep)
    ensures
        r == if command.format_mode {
            QueuedIfShellStep::Expand(command.condition_rendering(*context))
        } else {
            QueuedIfShellStep::FindProfile
        },
{
    command.begin(context)
}

/// What a queued `if-shell` leaves for the queue, given what is to be run, where
/// anything is: the commands come next, in the same context.
pub fn queued_if_shell_action<C>(
    commands: Option<C>,
    context: &QueueExecutionContext,
) -> (r: QueueCommandAction<C>)
    ensures
        match commands {
            Some(commands) => r matches QueueCommandAction::InsertAfter { batches, output, error }
                && batches@ == seq![(commands, *context)] && output is None && error is None,
            None => r.is_quiet(),
        },
{
    match commands {
        Some(commands) => {
            let mut batches: Vec<(C, QueueExecutionContext)> = Vec::new();
            let ghost batch = (commands, *context);
            batches.push((commands, context.clone()));
            assert(batches@ =~= seq![batch]);
            QueueCommandAction::InsertAfter { batches, output: None, error: None }
        },
        None => QueueCommandAction::Normal { output: None, error: None },
    }
}

/// The error of a shell command that could not be started, in words.
pub fn run_shell_failure(joined: bool, error: &str) -> (r: ProtoError)
    ensures
        r@ == ErrorView::Server(
            if joined {
                "failed to run shell command: "@ + error@
            } else {
                "run-shell task failed: "@ + error@
            },
        ),
{
    let mut out = if joined {
        "failed to run shell command: ".to_owned()
    } else {
        "run-shell task failed: ".to_owned()
    };
    out.append(error);
    ProtoError::Server(out)
}

/// The error of a condition that could not be run, in words.
pub fn if_shell_failure(joined: bool, error: &str) -> (r: ProtoError)
    ensures
        r@ == ErrorView::Server(
            if joined {
                "failed to run if-shell condition: "@ + error@
            } else {
                "if-shell condition task failed: "@ + error@
            },
        ),
{
    let mut out = if joined {
        "failed to run if-shell condition: ".to_owned()
    } else {
        "if-shell condition task failed: ".to_owned()
    };
    out.append(error);
    ProtoError::Server(out)
}

} // verus!
