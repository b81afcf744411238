//! The command `source-file` and the configuration at startup: which files are
//! read, and what becomes of the commands in them.
use std::collections::VecDeque;

use vstd::prelude::*;

use crate::names::{ErrorView, PaneTarget, ProtoError, SessionName, Target};
use crate::protocol::{OptionalOutputResponse, Response};
use crate::queue::{same_text, unless_silent, QueueCommandAction, QueueExecutionContext};
use crate::response::CommandOutput;
use crate::shell::{as_target, pane_target, Rendering};
use crate::state::HandlerState;
use crate::targets::active_session_target;
use crate::text;

verus! {

/// A `source-file` command.
#[derive(Debug, PartialEq, Eq)]
pub struct ParsedSourceFileCommand {
    /// The files.
    pub paths: Vec<String>,
    /// Whether missing files are passed over.
    pub quiet: bool,
    /// Whether nothing is run.
    pub parse_only: bool,
    /// Whether the commands are printed.
    pub verbose: bool,
    /// Whether paths are templates.
    pub expand_paths: bool,
    /// The pane.
    pub target: Option<PaneTarget>,
    /// The directory of the caller.
    pub caller_cwd: Option<String>,
    /// What the standard input holds.
    pub stdin: Option<String>,
    /// The file that the command stands in.
    pub current_file: Option<String>,
}

/// What a file holds.
#[derive(Debug, PartialEq, Eq)]
pub struct SourceInput {
    /// The file.
    pub current_file: String,
    /// Its text.
    pub contents: String,
}

/// The commands that a file holds, once parsed.
#[derive(Debug, PartialEq, Eq)]
pub struct ParsedInput<C> {
    /// The commands.
    pub commands: C,
    /// Whether there are none.
    pub is_empty: bool,
    /// The commands as they are printed.
    pub printed: String,
}

/// Commands with the file that they come from.
#[derive(Debug, PartialEq, Eq)]
pub struct SourcedParsedCommands<C> {
    /// The commands.
    pub commands: C,
    /// The file.
    pub current_file: Option<String>,
}

/// What was read from files.
#[derive(Debug, PartialEq, Eq)]
pub struct LoadedSourceFile<C> {
    /// The commands, file by file.
    pub commands: Vec<SourcedParsedCommands<C>>,
    /// What is printed.
    pub stdout: Vec<u8>,
    /// What went wrong, in order.
    pub errors: Vec<ProtoError>,
}

impl<C> LoadedSourceFile<C> {
    /// Nothing was read.
    pub fn new() -> (r: Self)
        ensures
            r.commands@.len() == 0,
            r.stdout@.len() == 0,
            r.errors@.len() == 0,
    {
        LoadedSourceFile { commands: Vec::new(), stdout: Vec::new(), errors: Vec::new() }
    }

    /// Whether there are no commands to run.
    pub fn is_empty(&self) -> (r: bool)
        ensures
            r == (self.commands@.len() == 0),
    {
        self.commands.len() == 0
    }
}

/// What is printed, with some commands behind it: their text on a line of its
/// own, unless there are none.
pub open spec fn with_commands(stdout: Seq<u8>, is_empty: bool, printed: Seq<char>) -> Seq<u8> {
    if is_empty {
        stdout
    } else {
        (stdout + text::bytes(printed)).push(0x0a)
    }
}

/// Prints commands; see [`with_commands`].
pub fn append_verbose_commands<C>(stdout: &mut Vec<u8>, parsed: &ParsedInput<C>)
    ensures
        final(stdout)@ == with_commands(old(stdout)@, parsed.is_empty, parsed.printed@),
{
    if parsed.is_empty {
        return;
    }
    let printed = text::to_bytes(&parsed.printed);
    let ghost before = stdout@;
    stdout.extend_from_slice(printed.as_slice());
    assert(stdout@ =~= before + printed@);
    stdout.push(0x0a);
}

/// What is printed, unless it is nothing.
pub fn nonempty_stdout(stdout: Vec<u8>) -> (r: Option<CommandOutput>)
    ensures
        r.deep_view() == unless_silent(Some(stdout@)),
{
    if stdout.len() == 0 {
        None
    } else {
        Some(CommandOutput::from_stdout(stdout))
    }
}

/// A path to read.
#[derive(Debug, PartialEq, Eq)]
pub struct ReadRequest {
    /// The path.
    pub path: String,
    /// The directory of the caller.
    pub caller_cwd: Option<String>,
    /// Whether a missing file is passed over.
    pub quiet: bool,
    /// What the standard input holds.
    pub stdin: Option<String>,
}

/// A file to parse.
#[derive(Debug, PartialEq, Eq)]
pub struct ParseRequest {
    /// Its text.
    pub contents: String,
    /// What its templates are rendered about.
    pub target: Option<Target>,
    /// The file, which its templates can name.
    pub current_file: String,
}

/// A file to parse, about the pane of its command.
pub fn parse_source_input(input: &SourceInput, target: &Option<PaneTarget>) -> (r: ParseRequest)
    ensures
        r == (ParseRequest {
            contents: input.contents,
            target: as_target(*target),
            current_file: input.current_file,
        }),
{
    ParseRequest {
        contents: input.contents.clone(),
        target: pane_target(target),
        current_file: input.current_file.clone(),
    }
}

/// What reading files asks for next.
#[derive(Debug, PartialEq, Eq)]
pub enum LoadStep {
    /// The path at this place is rendered.
    Render(Rendering),
    /// The files of a path are read.
    Read(ReadRequest),
    /// The first of the files at hand is parsed.
    Parse(ParseRequest),
    /// Everything has been read.
    Done,
}

/// Files that are being read.
#[derive(Debug, PartialEq, Eq)]
pub struct SourceLoad<C> {
    /// The command.
    pub command: ParsedSourceFileCommand,
    /// How many paths have been read.
    pub done: usize,
    /// The files of the last path that are still to be parsed.
    pub inputs: VecDeque<SourceInput>,
    /// What has been read.
    pub loaded: LoadedSourceFile<C>,
}

/// Starts to read files; see [`SourceLoad::next`]. Files that stand in each other
/// too deeply are an error.
pub fn load_source_file_command<C>(
    command: ParsedSourceFileCommand,
    depth: usize,
    limit: usize,
) -> (r: Result<SourceLoad<C>, ProtoError>)
    ensures
        if depth > limit {
            r matches Err(error) && error@ == ErrorView::Server("too many nested files"@)
        } else {
            r matches Ok(load) && load.command == command && load.done == 0 && load.inputs@.len()
                == 0 && load.loaded.commands@.len() == 0 && load.loaded.stdout@.len() == 0
                && load.loaded.errors@.len() == 0 && load.wf()
        },
{
    if depth > limit {
        return Err(ProtoError::Server("too many nested files".to_owned()));
    }
    Ok(SourceLoad { command, done: 0, inputs: VecDeque::new(), loaded: LoadedSourceFile::new() })
}

impl ParsedSourceFileCommand {
    /// The request to read the files of a path.
    pub open spec fn read_request(self, path: String) -> ReadRequest {
        ReadRequest { path, caller_cwd: self.caller_cwd, quiet: self.quiet, stdin: self.stdin }
    }

    /// The request to read the files of a path.
    fn read(&self, path: String) -> (r: ReadRequest)
        ensures
            r == self.read_request(path),
    {
        ReadRequest {
            path,
            caller_cwd: same_text(&self.caller_cwd),
            quiet: self.quiet,
            stdin: same_text(&self.stdin),
        }
    }
}

/// A path of `source-file`, to be rendered about its pane.
pub fn render_source_file_path(
    path: &String,
    target: &Option<PaneTarget>,
    current_file: &Option<String>,
) -> (r: Rendering)
    ensures
        r == (Rendering {
            template: *path,
            target: as_target(*target),
            current_file: *current_file,
        }),
{
    Rendering {
        template: path.clone(),
        target: pane_target(target),
        current_file: same_text(current_file),
    }
}

impl<C> SourceLoad<C> {
    /// No more paths have been read than there are.
    pub open spec fn wf(self) -> bool {
        self.done <= self.command.paths@.len()
    }

    /// The step that comes next: the files at hand are parsed before another path
    /// is read, and a path is rendered first where paths are templates.
    pub open spec fn spec_next(self) -> LoadStep {
        if self.inputs@.len() > 0 {
            let input = self.inputs@[0];
            LoadStep::Parse(
                ParseRequest {
                    contents: input.contents,
                    target: as_target(self.command.target),
                    current_file: input.current_file,
                },
            )
        } else if self.done < self.command.paths@.len() {
            let path = self.command.paths@[self.done as int];
            if self.command.expand_paths {
                LoadStep::Render(
                    Rendering {
                        template: path,
                        target: as_target(self.command.target),
                        current_file: self.command.current_file,
                    },
                )
            } else {
                LoadStep::Read(self.command.read_request(path))
            }
        } else {
            LoadStep::Done
        }
    }

    /// The step that comes next; see [`SourceLoad::spec_next`].
    pub fn next(&self) -> (r: LoadStep)
        ensures
            r == self.spec_next(),
    {
        if self.inputs.len() > 0 {
            return LoadStep::Parse(parse_source_input(&self.inputs[0], &self.command.target));
        }
        if self.done >= self.command.paths.len() {
            return LoadStep::Done;
        }
        let path = self.command.paths[self.done].clone();
        if self.command.expand_paths {
            LoadStep::Render(
                render_source_file_path(&path, &self.command.target, &self.command.current_file),
            )
        } else {
            LoadStep::Read(self.command.read(path))
        }
    }

    /// What follows once a path is rendered: its files are read. An error ends
    /// the command.
    pub fn rendered(&self, outcome: Result<String, ProtoError>) -> (r: Result<
        ReadRequest,
        ProtoError,
    >)
        ensures
            match outcome {
                Ok(path) => r == Ok::<ReadRequest, ProtoError>(self.command.read_request(path)),
                Err(error) => r == Err::<ReadRequest, ProtoError>(error),
            },
    {
        match outcome {
            Ok(path) => Ok(self.command.read(path)),
            Err(error) => Err(error),
        }
    }

    /// Takes the files of a path. An error is kept, and the other paths are still
    /// read.
    pub fn take_inputs(&mut self, outcome: Result<Vec<SourceInput>, ProtoError>)
        requires
            old(self).wf(),
            old(self).inputs@.len() == 0,
            old(self).done < old(self).command.paths@.len(),
        ensures
            final(self).wf(),
            final(self).command == old(self).command,
            final(self).done == old(self).done + 1,
            final(self).loaded.commands == old(self).loaded.commands,
            final(self).loaded.stdout == old(self).loaded.stdout,
            match outcome {
                Ok(inputs) => final(self).inputs@ == inputs@ && final(self).loaded.errors == old(
                    self,
                ).loaded.errors,
                Err(error) => final(self).inputs@.len() == 0 && final(self).loaded.errors@ == old(
                    self,
                ).loaded.errors@.push(error),
            },
    {
        let total: usize = self.command.paths.len();
        assert(self.done < total);
        self.done = self.done + 1;
        match outcome {
            Ok(inputs) => {
                let ghost all = inputs@;
                let mut rest = inputs;
                let mut queue: VecDeque<SourceInput> = VecDeque::new();
                assert(all.take(rest@.len() as int) =~= rest@);
                assert(all.skip(rest@.len() as int) =~= queue@);
                while rest.len() > 0
                    invariant
                        rest@.len() <= all.len(),
                        rest@ == all.take(rest@.len() as int),
                        queue@ == all.skip(rest@.len() as int),
                    decreases rest.len(),
                {
                    let ghost n = rest@.len();
                    if let Some(input) = rest.pop() {
                        queue.push_front(input);
                        assert(rest@ =~= all.take(n - 1));
                        assert(queue@ =~= all.skip(n - 1));
                    }
                }
                assert(queue@ =~= all);
                self.inputs = queue;
            },
            Err(error) => {
                self.loaded.errors.push(error);
            },
        }
    }

    /// Takes what came of parsing the first file at hand. An error is kept, and
    /// the other files are still parsed. The commands are printed where that was
    /// asked for, and kept unless nothing is to be run.
    pub fn take_parsed(&mut self, outcome: Result<ParsedInput<C>, ProtoError>)
        requires
            old(self).wf(),
            old(self).inputs@.len() > 0,
        ensures
            final(self).wf(),
            final(self).command == old(self).command,
            final(self).done == old(self).done,
            final(self).inputs@ == old(self).inputs@.skip(1),
            match outcome {
                Ok(parsed) => {
                    &&& final(self).loaded.errors == old(self).loaded.errors
                    &&& final(self).loaded.stdout@ == if old(self).command.verbose {
                        with_commands(old(self).loaded.stdout@, parsed.is_empty, parsed.printed@)
                    } else {
                        old(self).loaded.stdout@
                    }
                    &&& final(self).loaded.commands@ == if old(self).command.parse_only {
                        old(self).loaded.commands@
                    } else {
                        old(self).loaded.commands@.push(
                            SourcedParsedCommands {
                                commands: parsed.commands,
                                current_file: Some(old(self).inputs@[0].current_file),
                            },
                        )
                    }
                },
                Err(error) => {
                    &&& final(self).loaded.errors@ == old(self).loaded.errors@.push(error)
                    &&& final(self).loaded.stdout == old(self).loaded.stdout
                    &&& final(self).loaded.commands == old(self).loaded.commands
                },
            },
    {
        let ghost before = self.inputs@;
        let input = self.inputs.pop_front();
        assert(self.inputs@ =~= before.skip(1));
        match outcome {
            Ok(parsed) => {
                if self.command.verbose {
                    append_verbose_commands(&mut self.loaded.stdout, &parsed);
                }
                if !self.command.parse_only {
                    if let Some(input) = input {
                        self.loaded.commands.push(
                            SourcedParsedCommands {
                                commands: parsed.commands,
                                current_file: Some(input.current_file),
                            },
                        );
                    }
                }
            },
            Err(error) => {
                self.loaded.errors.push(error);
            },
        }
    }
}

/// The contexts of commands that were read from files.
pub open spec fn batches<C>(
    commands: Seq<SourcedParsedCommands<C>>,
    context: QueueExecutionContext,
    depth: usize,
) -> Seq<(C, QueueExecutionContext)> {
    commands.map_values(
        |batch: SourcedParsedCommands<C>|
            (batch.commands, context.sourced(depth, batch.current_file)),
    )
}

/// Gives commands that were read from files their contexts; see [`batches`].
pub fn sourced_batches<C>(
    commands: Vec<SourcedParsedCommands<C>>,
    context: &QueueExecutionContext,
    depth: usize,
) -> (r: Vec<(C, QueueExecutionContext)>)
    ensures
        r@ == batches(commands@, *context, depth),
{
    let ghost all = batches(commands@, *context, depth);
    let ghost given = commands@;
    let mut rest = commands;
    let mut reversed: Vec<(C, QueueExecutionContext)> = Vec::new();
    assert(given.take(rest@.len() as int) =~= rest@);
    assert(reversed@ =~= all.skip(rest@.len() as int).reverse());
    while rest.len() > 0
        invariant
            all == batches(given, *context, depth),
            rest@.len() <= given.len(),
            rest@ == given.take(rest@.len() as int),
            reversed@ == all.skip(rest@.len() as int).reverse(),
        decreases rest.len(),
    {
        let ghost n = rest@.len();
        if let Some(batch) = rest.pop() {
            reversed.push((batch.commands, context.for_sourced_commands(depth, batch.current_file)));
            assert(rest@ =~= given.take(n - 1));
            assert(reversed@ =~= all.skip(n - 1).reverse());
        }
    }
    let mut out: Vec<(C, QueueExecutionContext)> = Vec::new();
    assert(reversed@ =~= all.reverse());
    assert(reversed@.take(reversed@.len() as int) =~= reversed@);
    assert(out@ =~= all.take(0));
    while reversed.len() > 0
        invariant
            reversed@.len() + out@.len() == all.len(),
            reversed@ == all.reverse().take(reversed@.len() as int),
            out@ == all.take(out@.len() as int),
        decreases reversed.len(),
    {
        let ghost n = out@.len();
        let ghost m = reversed@.len();
        if let Some(batch) = reversed.pop() {
            assert(batch == all[n as int]);
            out.push(batch);
            assert(reversed@ =~= all.reverse().take(m - 1));
            assert(out@ =~= all.take(n as int + 1));
        }
    }
    assert(out@ =~= all);
    out
}

/// What a queued `source-file` leaves for the queue once its files are read: what
/// was read comes next, one file deeper than the command itself.
pub fn execute_queued_source_file<C>(
    parse_only: bool,
    loaded: LoadedSourceFile<C>,
    context: &QueueExecutionContext,
    error: Option<ProtoError>,
) -> (r: QueueCommandAction<C>)
    ensures
        if parse_only || loaded.commands@.len() == 0 {
            r matches QueueCommandAction::Normal { output, error: said } && output.deep_view()
                == unless_silent(Some(loaded.stdout@)) && said == error
        } else {
            r matches QueueCommandAction::InsertAfter { batches: next, output, error: said }
                && next@ == batches(
                loaded.commands@,
                *context,
                queued_depth(*context),
            ) && output.deep_view() == unless_silent(Some(loaded.stdout@)) && said == error
        },
{
    if parse_only || loaded.is_empty() {
        return QueueCommandAction::Normal { output: nonempty_stdout(loaded.stdout), error };
    }
    let depth = context.source_file_depth.saturating_add(1);
    QueueCommandAction::InsertAfter {
        batches: sourced_batches(loaded.commands, context, depth),
        output: nonempty_stdout(loaded.stdout),
        error,
    }
}

/// The depth of files that a queued command reads: one more than its own, as far
/// as that can be counted.
pub open spec fn queued_depth(context: QueueExecutionContext) -> usize {
    if context.source_file_depth < usize::MAX {
        (context.source_file_depth + 1) as usize
    } else {
        usize::MAX
    }
}

/// Starts to read the files of a queued `source-file`, which knows the file that
/// it stands in.
pub fn load_queued_source_file<C>(
    command: ParsedSourceFileCommand,
    context: &QueueExecutionContext,
    limit: usize,
) -> (r: Result<SourceLoad<C>, ProtoError>)
    ensures
        if queued_depth(*context) > limit {
            r matches Err(error) && error@ == ErrorView::Server("too many nested files"@)
        } else {
            r matches Ok(load) && load.command == (ParsedSourceFileCommand {
                current_file: context.current_file,
                ..command
            }) && load.done == 0 && load.inputs@.len() == 0 && load.loaded.commands@.len() == 0
                && load.loaded.stdout@.len() == 0 && load.loaded.errors@.len() == 0 && load.wf()
        },
{
    let mut command = command;
    command.current_file = same_text(&context.current_file);
    load_source_file_command(command, context.source_file_depth.saturating_add(1), limit)
}

/// The errors among some outcomes, in order.
pub open spec fn errors_of(outcomes: Seq<Result<CommandOutput, ProtoError>>) -> Seq<ProtoError>
    decreases outcomes.len(),
{
    if outcomes.len() == 0 {
        Seq::empty()
    } else {
        let before = errors_of(outcomes.drop_last());
        match outcomes.last() {
            Ok(_) => before,
            Err(error) => before.push(error),
        }
    }
}

/// What some outcomes print, one behind the other.
pub open spec fn printed_by(outcomes: Seq<Result<CommandOutput, ProtoError>>) -> Seq<u8>
    decreases outcomes.len(),
{
    if outcomes.len() == 0 {
        Seq::empty()
    } else {
        let before = printed_by(outcomes.drop_last());
        match outcomes.last() {
            Ok(output) => before + output@,
            Err(_) => before,
        }
    }
}

/// What came of running the commands of files, given the outcome for each file:
/// every file is run, whatever came of the others, and any error counts against
/// them all.
pub fn execute_loaded_source_file(outcomes: &Vec<Result<CommandOutput, ProtoError>>) -> (r: Result<
    CommandOutput,
    Vec<ProtoError>,
>)
    ensures
        match r {
            Ok(output) => errors_of(outcomes@).len() == 0 && output@ == printed_by(outcomes@),
            Err(errors) => errors@.len() > 0 && errors@ == errors_of(outcomes@),
        },
{
    let mut stdout: Vec<u8> = Vec::new();
    let mut errors: Vec<ProtoError> = Vec::new();
    let mut i: usize = 0;
    assert(outcomes@.take(0).len() == 0);
    while i < outcomes.len()
        invariant
            i <= outcomes@.len(),
            stdout@ == printed_by(outcomes@.take(i as int)),
            errors@ == errors_of(outcomes@.take(i as int)),
        decreases outcomes.len() - i,
    {
        assert(outcomes@.take(i + 1).drop_last() =~= outcomes@.take(i as int));
        assert(outcomes@.take(i + 1).last() == outcomes@[i as int]);
        let ghost before = stdout@;
        match &outcomes[i] {
            Ok(output) => {
                stdout.extend_from_slice(output.stdout().as_slice());
                assert(stdout@ =~= before + output@);
            },
            Err(error) => {
                errors.push(error.clone());
            },
        }
        i = i + 1;
    }
    assert(outcomes@.take(i as int) =~= outcomes@);
    if errors.len() > 0 {
        Err(errors)
    } else {
        Ok(CommandOutput::from_stdout(stdout))
    }
}

/// What is answered to `source-file`.
#[derive(Debug, PartialEq, Eq)]
pub enum SourceReply {
    /// Errors, to be reported together.
    Errors(Vec<ProtoError>),
    /// A response.
    Answer(Response),
}

/// What is answered to `source-file`, given what was read and, unless nothing was
/// to be run, what came of it: the errors of reading before those of running, or
/// else what is printed, in the same order.
pub fn handle_source_file<C>(
    loaded: LoadedSourceFile<C>,
    executed: Option<Result<CommandOutput, Vec<ProtoError>>>,
) -> (r: SourceReply)
    ensures
        ({
            let errors = loaded.errors@ + match executed {
                Some(Err(more)) => more@,
                _ => Seq::empty(),
            };
            let printed = loaded.stdout@ + match executed {
                Some(Ok(output)) => output@,
                _ => Seq::empty(),
            };
            if errors.len() > 0 {
                r matches SourceReply::Errors(said) && said@ == errors
            } else {
                r matches SourceReply::Answer(Response::SourceFile(answer))
                    && answer.output.deep_view() == unless_silent(Some(printed))
            }
        }),
{
    let mut errors = loaded.errors;
    let mut stdout = loaded.stdout;
    match executed {
        Some(Ok(output)) => {
            stdout.extend_from_slice(output.stdout().as_slice());
            assert(stdout@ =~= loaded.stdout@ + output@);
        },
        Some(Err(more)) => {
            let mut more = more;
            errors.append(&mut more);
        },
        None => {},
    }
    if errors.len() > 0 {
        return SourceReply::Errors(errors);
    }
    SourceReply::Answer(
        Response::SourceFile(OptionalOutputResponse { output: nonempty_stdout(stdout) }),
    )
}

/// The context in which the files of a `source-file` request are run.
pub fn source_file_context(command: &ParsedSourceFileCommand) -> (r: QueueExecutionContext)
    ensures
        r == (QueueExecutionContext {
            caller_cwd: command.caller_cwd,
            source_file_depth: 0,
            current_file: None,
            current_target: as_target(command.target),
            mouse_target: None,
        }),
{
    QueueExecutionContext::new(same_text(&command.caller_cwd)).with_current_target(
        pane_target(&command.target),
    )
}

/// The pane of a `source-file` request that names none: the active pane of the
/// session of the client, or else of the preferred session.
pub fn implicit_source_file_target(
    state: &HandlerState,
    candidate: Option<&SessionName>,
    preferred: Option<&SessionName>,
) -> (r: Option<PaneTarget>)
    ensures
        ({
            let name = match candidate {
                Some(name) => Some(name@),
                None => match preferred {
                    Some(name) => Some(name@),
                    None => None,
                },
            };
            match name {
                Some(name) => match state@.session_focus(name) {
                    Some(crate::names::TargetView::Pane(spot)) => r matches Some(pane) && pane@
                        == spot,
                    _ => r is None,
                },
                None => r is None,
            }
        }),
{
    let name = match candidate {
        Some(name) => name,
        None => match preferred {
            Some(name) => name,
            None => {
                return None;
            },
        },
    };
    match active_session_target(state, name) {
        Some(Target::Pane(pane)) => Some(pane),
        _ => None,
    }
}

/// A `source-file` request with the pane that it is about: its own, or else the
/// implicit one.
pub fn aimed_source_file(command: ParsedSourceFileCommand, implicit: Option<PaneTarget>) -> (r:
    ParsedSourceFileCommand)
    ensures
        r == (ParsedSourceFileCommand {
            target: if command.target is Some {
                command.target
            } else {
                implicit
            },
            ..command
        }),
{
    if command.target.is_some() {
        command
    } else {
        ParsedSourceFileCommand { target: implicit, ..command }
    }
}

/// Which files are read at startup.
#[derive(Debug, PartialEq, Eq)]
pub enum ConfigFileSelection {
    /// None.
    Disabled,
    /// The usual ones.
    Default,
    /// These.
    Files(Vec<String>),
}

/// What the startup does next.
#[derive(Debug, PartialEq, Eq)]
pub enum StartupStep<C> {
    /// Files are read with this command.
    Load(ParsedSourceFileCommand),
    /// The commands of files are run, file by file.
    Execute(Vec<(C, QueueExecutionContext)>),
    /// The startup is over. Errors, where there are any, are kept together.
    Done(Vec<ProtoError>),
}

/// The startup, as it waits for something.
#[derive(Debug, PartialEq, Eq)]
pub struct StartupLoad {
    /// Whether errors are kept: not those of files that were asked for by name.
    pub queue_errors: bool,
    /// The files to read where the others give nothing to run.
    pub fallback_paths: Vec<String>,
    /// The directory of the caller.
    pub caller_cwd: Option<String>,
    /// The errors so far.
    pub errors: Vec<ProtoError>,
    /// Whether the fallback files are in use.
    pub is_fallback: bool,
}

/// The command that reads the files of the startup.
pub open spec fn is_startup_command(
    command: ParsedSourceFileCommand,
    paths: Seq<String>,
    cwd: Option<String>,
) -> bool {
    &&& command.paths@ == paths
    &&& command.quiet
    &&& !command.parse_only
    &&& !command.verbose
    &&& !command.expand_paths
    &&& command.target is None
    &&& command.caller_cwd == cwd
    &&& command.stdin is None
    &&& command.current_file is None
}

/// The command that reads the files of the startup.
fn startup_command(paths: Vec<String>, cwd: &Option<String>) -> (r: ParsedSourceFileCommand)
    ensures
        is_startup_command(r, paths@, *cwd),
{
    ParsedSourceFileCommand {
        paths,
        quiet: true,
        parse_only: false,
        verbose: false,
        expand_paths: false,
        target: None,
        caller_cwd: same_text(cwd),
        stdin: None,
        current_file: None,
    }
}

/// Starts the startup, given the files that are read by default and those that
/// are read where these give nothing.
pub fn load_startup_config<C>(
    selection: ConfigFileSelection,
    cwd: Option<String>,
    default_paths: Vec<String>,
    fallback_paths: Vec<String>,
) -> (r: (StartupStep<C>, StartupLoad))
    ensures
        r.1.caller_cwd == cwd,
        r.1.errors@.len() == 0,
        !r.1.is_fallback,
        match selection {
            ConfigFileSelection::Disabled => r.0 matches StartupStep::Done(errors) && errors@.len()
                == 0,
            ConfigFileSelection::Default => r.0 matches StartupStep::Load(command)
                && is_startup_command(command, default_paths@, cwd) && r.1.queue_errors
                && r.1.fallback_paths == fallback_paths,
            ConfigFileSelection::Files(files) => r.0 matches StartupStep::Load(command)
                && is_startup_command(command, files@, cwd) && !r.1.queue_errors
                && r.1.fallback_paths@.len() == 0,
        },
{
    match selection {
        ConfigFileSelection::Disabled => {
            let load = StartupLoad {
                queue_errors: true,
                fallback_paths: Vec::new(),
                caller_cwd: cwd,
                errors: Vec::new(),
                is_fallback: false,
            };
            (StartupStep::Done(Vec::new()), load)
        },
        ConfigFileSelection::Default => {
            let command = startup_command(default_paths, &cwd);
            let load = StartupLoad {
                queue_errors: true,
                fallback_paths,
                caller_cwd: cwd,
                errors: Vec::new(),
                is_fallback: false,
            };
            (StartupStep::Load(command), load)
        },
        ConfigFileSelection::Files(files) => {
            let command = startup_command(files, &cwd);
            let load = StartupLoad {
                queue_errors: false,
                fallback_paths: Vec::new(),
                caller_cwd: cwd,
                errors: Vec::new(),
                is_fallback: false,
            };
            (StartupStep::Load(command), load)
        },
    }
}

impl StartupLoad {
    /// Whether the fallback files are read once files gave these commands.
    pub open spec fn falls_back<C>(self, loaded: LoadedSourceFile<C>) -> bool {
        !self.is_fallback && loaded.commands@.len() == 0 && self.fallback_paths@.len() > 0
    }

    /// The context in which the commands of the startup run.
    pub open spec fn context(self) -> QueueExecutionContext {
        QueueExecutionContext {
            caller_cwd: self.caller_cwd,
            source_file_depth: 0,
            current_file: None,
            current_target: None,
            mouse_target: None,
        }
    }

    /// Takes what was read. Where it is nothing to run, the fallback files are
    /// read in its place, and what was wrong with it is forgotten; else the
    /// commands are run. Files that could not be read at all end the startup:
    /// that is an error, unless they are the fallback files.
    pub fn take_loaded<C>(&mut self, outcome: Result<LoadedSourceFile<C>, ProtoError>) -> (r:
        StartupStep<C>)
        ensures
            final(self).queue_errors == old(self).queue_errors,
            final(self).caller_cwd == old(self).caller_cwd,
            match outcome {
                Err(error) => r matches StartupStep::Done(errors) && errors@ == if old(
                    self,
                ).queue_errors && !old(self).is_fallback {
                    seq![error]
                } else {
                    Seq::empty()
                },
                Ok(loaded) => if old(self).falls_back(loaded) {
                    &&& r matches StartupStep::Load(command) && is_startup_command(
                        command,
                        old(self).fallback_paths@,
                        old(self).caller_cwd,
                    )
                    &&& final(self).is_fallback
                    &&& final(self).errors == old(self).errors
                } else {
                    &&& r matches StartupStep::Execute(next) && next@ == batches(
                        loaded.commands@,
                        old(self).context(),
                        1,
                    )
                    &&& final(self).is_fallback == old(self).is_fallback
                    &&& final(self).errors@ == old(self).errors@ + loaded.errors@
                },
            },
    {
        match outcome {
            Err(error) => {
                let mut errors: Vec<ProtoError> = Vec::new();
                if self.queue_errors && !self.is_fallback {
                    errors.push(error);
                    assert(errors@ =~= seq![error]);
                } else {
                    assert(errors@ =~= Seq::empty());
                }
                StartupStep::Done(errors)
            },
            Ok(loaded) => {
                if !self.is_fallback && loaded.is_empty() && self.fallback_paths.len() > 0 {
                    self.is_fallback = true;
                    let mut paths: Vec<String> = Vec::new();
                    paths.append(&mut self.fallback_paths);
                    return StartupStep::Load(startup_command(paths, &self.caller_cwd));
                }
                let mut errors = loaded.errors;
                self.errors.append(&mut errors);
                let context = QueueExecutionContext::new(same_text(&self.caller_cwd));
                StartupStep::Execute(sourced_batches(loaded.commands, &context, 1))
            },
        }
    }

    /// The errors that the startup ends with, given what came of running the
    /// commands: those of reading, and those of running unless the fallback files
    /// were run. Where errors are not kept, there are none.
    pub open spec fn kept_errors(self, outcome: Result<CommandOutput, Vec<ProtoError>>) -> Seq<
        ProtoError,
    > {
        if !self.queue_errors {
            Seq::empty()
        } else {
            match outcome {
                Err(more) => if self.is_fallback {
                    self.errors@
                } else {
                    self.errors@ + more@
                },
                Ok(_) => self.errors@,
            }
        }
    }

    /// Takes what came of running the commands, and ends the startup; see
    /// [`StartupLoad::kept_errors`].
    pub fn take_executed(self, outcome: Result<CommandOutput, Vec<ProtoError>>) -> (r: Vec<
        ProtoError,
    >)
        ensures
            r@ == self.kept_errors(outcome),
    {
        if !self.queue_errors {
            return Vec::new();
        }
        let mut errors = self.errors;
        if let Err(more) = outcome {
            if !self.is_fallback {
                let mut more = more;
                errors.append(&mut more);
            }
        }
        errors
    }
}

/// How many configurations are being loaded once another one is.
pub fn enter_config_load(depth: usize) -> (r: usize)
    ensures
        r == depth.wrapping_add(1),
{
    depth.wrapping_add(1)
}

/// How many configurations are being loaded once one is over.
pub fn leave_config_load(depth: usize) -> (r: usize)
    ensures
        r == depth.wrapping_sub(1),
{
    depth.wrapping_sub(1)
}

/// Whether any configuration is being loaded.
pub fn config_loading_active(depth: usize) -> (r: bool)
    ensures
        r == (depth > 0),
{
    depth > 0
}

/// A configuration counts as being loaded until it is over, and then no longer.
pub proof fn law_config_load_is_balanced(depth: usize)
    ensures
        depth < usize::MAX ==> depth.wrapping_add(1) > 0,
        depth.wrapping_add(1).wrapping_sub(1) == depth,
{
}

/// Files that are asked for by name leave no error behind at startup, whatever
/// came of running them.
pub proof fn law_named_files_keep_no_errors(
    load: StartupLoad,
    outcome: Result<CommandOutput, Vec<ProtoError>>,
)
    requires
        !load.queue_errors,
    ensures
        load.kept_errors(outcome).len() == 0,
{
}

/// Reading is over only when every path has been read and every file parsed.
pub proof fn law_load_reads_everything<C>(load: SourceLoad<C>)
    requires
        load.wf(),
        load.spec_next() is Done,
    ensures
        load.done == load.command.paths@.len(),
        load.inputs@.len() == 0,
{
}

/// The fallback files are read once at most: once they are in use, no outcome
/// leads to reading files again.
pub proof fn law_fallback_happens_once<C>(load: StartupLoad, loaded: LoadedSourceFile<C>)
    requires
        load.is_fallback,
    ensures
        !load.falls_back(loaded),
{
}

/// Whatever files hold, running stops at a bounded depth: a queued command that
/// stands as deep as the limit reads nothing.
pub proof fn law_nesting_is_bounded(context: QueueExecutionContext, limit: usize)
    requires
        context.source_file_depth >= limit,
        limit < usize::MAX,
    ensures
        queued_depth(context) > limit,
{
}

} // verus!
