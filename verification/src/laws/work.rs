//! Laws of shell commands, conditions and files of commands.
use vstd::prelude::*;

use crate::names::{ErrorView, PaneTarget, ProtoError, SessionName, Target};
use crate::protocol::{IfShellRequest, Response, RunShellRequest};
use crate::queue::{
    prompt_queue_action_from_result, queue_action_from_response, PromptQueueResult,
    QueueCommandAction, QueueExecutionContext,
};
use crate::response::CommandOutput;
use crate::shell::{
    commands_result, condition_check, execute_queued_if_shell, execute_queued_if_shell_background,
    handle_if_shell, handle_run_shell, if_shell_failure, if_shell_profile, if_shell_task,
    queued_if_shell_action, run_shell_failure, run_shell_profile, run_shell_task, shell_result,
    CommandListArgument, ConditionCheck, ParsedIfShellCommand, QueuedIfShellEnd, QueuedIfShellStep,
    RunShellWork, ShellOutput, ShellProfile,
};
use crate::source::{
    aimed_source_file, batches, execute_loaded_source_file, execute_queued_source_file,
    handle_source_file, implicit_source_file_target, load_queued_source_file,
    load_source_file_command, load_startup_config, ConfigFileSelection, LoadedSourceFile,
    ParsedInput, ParsedSourceFileCommand, SourceInput, SourceLoad, SourceReply, StartupLoad,
    StartupStep,
};
use crate::state::HandlerState;
use crate::text;

verus! {

/// Whether what is kept of an output is the output, and nothing where it is empty.
pub open spec fn keeps(kept: Option<CommandOutput>, bytes: Seq<u8>) -> bool {
    &&& bytes.len() == 0 ==> kept is None
    &&& bytes.len() > 0 ==> kept is Some && kept->0.stdout@ == bytes
}

/// Whether a profile is that of a session, or of none where there is no such session.
pub open spec fn is_profile_of(
    profile: ShellProfile,
    state: &HandlerState,
    name: Option<SessionName>,
) -> bool {
    match name {
        Some(name) => if state@.sessions.contains_key(name@) {
            profile.session == Some((name, state@.sessions[name@].id))
        } else {
            profile.session is None
        },
        None => profile.session is None,
    }
}

/// What a shell request comes to: nothing where it has no text; commands for the
/// queue, from its directory and with its pane as their target; or a shell command,
/// whose formats are filled in first.
pub proof fn law_shell_requests(
    state: &HandlerState,
    request: &RunShellRequest,
    config_loading: bool,
    r: RunShellWork,
    profile: ShellProfile,
)
    requires
        call_ensures(run_shell_task, (state, request, config_loading), r),
        call_ensures(run_shell_profile, (state, request, config_loading), profile),
    ensures
        r is Nothing <==> request.command@.len() == 0,
        r is Commands <==> request.command@.len() > 0 && request.as_commands,
        r is Shell <==> request.command@.len() > 0 && !request.as_commands,
        r matches RunShellWork::Commands(command, context) ==> {
            &&& command == request.command
            &&& context.caller_cwd == request.start_directory
            &&& context.source_file_depth == 0
            &&& context.current_file is None
            &&& context.mouse_target is None
            &&& request.target matches Some(pane) ==> context.current_target == Some(
                Target::Pane(pane),
            )
            &&& request.target is None ==> context.current_target is None
        },
        r matches RunShellWork::Shell(rendering, own) ==> {
            &&& rendering.template == request.command
            &&& rendering.current_file is None
            &&& request.target matches Some(pane) ==> rendering.target == Some(Target::Pane(pane))
            &&& request.target is None ==> rendering.target is None
            &&& own.directory == request.start_directory
            &&& own.configured == !config_loading
            &&& request.target matches Some(pane) ==> is_profile_of(
                own,
                state,
                Some(pane.session_name),
            )
            &&& request.target is None ==> own.session is None
        },
        profile.directory == request.start_directory,
        profile.configured == !config_loading,
        request.target matches Some(pane) ==> is_profile_of(
            profile,
            state,
            Some(pane.session_name),
        ),
        request.target is None ==> profile.session is None,
{
}

/// What a shell command printed is kept where it succeeded, its errors behind it where
/// they are to be shown; where it failed, how it ended and what it said is told.
pub proof fn law_shell_results(
    output: ShellOutput,
    show_stderr: bool,
    r: Result<Option<CommandOutput>, ProtoError>,
    ran: Result<CommandOutput, ProtoError>,
    kept: Result<Option<CommandOutput>, ProtoError>,
)
    requires
        call_ensures(shell_result, (output, show_stderr), r),
        call_ensures(commands_result, (ran,), kept),
    ensures
        r is Ok <==> output.success,
        output.success && show_stderr ==> keeps(r->Ok_0, output.stdout@ + output.stderr@),
        output.success && !show_stderr ==> keeps(r->Ok_0, output.stdout@),
        (!output.success && text::trimmed(text::rendered(output.stderr@)).len() == 0)
            ==> r->Err_0@ == ErrorView::Server(
            "run-shell command exited with "@ + output.status@,
        ),
        (!output.success && text::trimmed(text::rendered(output.stderr@)).len() > 0)
            ==> r->Err_0@ == ErrorView::Server(
            "run-shell command exited with "@ + output.status@ + ": "@ + text::trimmed(
                text::rendered(output.stderr@),
            ),
        ),
        kept is Ok <==> ran is Ok,
        ran matches Ok(printed) ==> keeps(kept->Ok_0, printed.stdout@),
        ran matches Err(error) ==> kept->Err_0 == error,
{
    if let Ok(Some(out)) = r {
        assert(r->Ok_0.deep_view() == Some(out.stdout@));
    }
    if let Ok(Some(out)) = kept {
        assert(kept->Ok_0.deep_view() == Some(out.stdout@));
    }
}

/// A request in the background is answered at once and without output; any other with
/// what came of it, once that is known.
pub proof fn law_shell_answers(
    background: bool,
    result: Option<Result<Option<CommandOutput>, ProtoError>>,
    run: Option<Response>,
    decided: Option<Response>,
)
    requires
        call_ensures(handle_run_shell, (background, result), run),
        call_ensures(handle_if_shell, (background, result), decided),
    ensures
        background ==> run is Some && run->0 is RunShell && run->0->RunShell_0.output is None,
        background ==> decided is Some && decided->0 is IfShell
            && decided->0->IfShell_0.output is None,
        !background && result is None ==> run is None && decided is None,
        (!background && result matches Some(Ok(output))) ==> {
            let output = result->0->Ok_0;
            &&& run matches Some(Response::RunShell(answer)) && answer.output == output
            &&& decided matches Some(Response::IfShell(answer)) && {
                &&& output matches Some(out) ==> keeps(answer.output, out.stdout@)
                &&& output is None ==> answer.output is None
            }
        },
        (!background && result matches Some(Err(error))) ==> {
            let error = result->0->Err_0;
            &&& run matches Some(Response::Error(answer)) && answer.error == error
            &&& decided matches Some(Response::Error(answer)) && answer.error == error
        },
{
    if let Some(Response::IfShell(answer)) = decided {
        if let Some(out) = answer.output {
            assert(answer.output.deep_view() == Some(out.stdout@));
        }
        if let Some(Ok(Some(out))) = result {
            assert(result->0->Ok_0.deep_view() == Some(out.stdout@));
        }
    }
}

/// What a condition runs: the first command where it holds and the second where it
/// does not, if there is one, from the directory and about the target of the request.
pub proof fn law_conditions(
    request: IfShellRequest,
    holds: bool,
    r: Option<(String, QueueExecutionContext)>,
    format_mode: bool,
    expanded: String,
    check: ConditionCheck,
)
    requires
        call_ensures(if_shell_task, (request, holds), r),
        call_ensures(condition_check, (format_mode, expanded), check),
    ensures
        holds ==> (r matches Some(run) && run.0 == request.then_command),
        !holds && request.else_command is None ==> r is None,
        (!holds && request.else_command is Some) ==> (r matches Some(run) && Some(run.0)
            == request.else_command),
        r matches Some((_, context)) ==> {
            &&& context.caller_cwd == request.caller_cwd
            &&& context.current_target == request.target
            &&& context.source_file_depth == 0
            &&& context.current_file is None && context.mouse_target is None
        },
        format_mode ==> check == ConditionCheck::Text(expanded),
        !format_mode ==> check == ConditionCheck::Shell(expanded),
{
}

/// The profile of a condition is that of the session of its target.
pub proof fn law_condition_profiles<C>(
    state: &HandlerState,
    request: &IfShellRequest,
    loading: bool,
    r: ShellProfile,
    command: &ParsedIfShellCommand<C>,
    queued: ShellProfile,
)
    requires
        call_ensures(if_shell_profile, (state, request, loading), r),
        call_ensures(
            ParsedIfShellCommand::<C>::queued_if_shell_profile,
            (command, state, loading),
            queued,
        ),
    ensures
        r.directory == request.caller_cwd,
        r.configured == !loading,
        request.target matches Some(target) ==> is_profile_of(
            r,
            state,
            Some(target.spec_session_name()),
        ),
        request.target is None ==> r.session is None,
        queued.directory == command.caller_cwd,
        queued.configured == !loading,
        command.target matches Some(target) ==> is_profile_of(
            queued,
            state,
            Some(target.spec_session_name()),
        ),
        command.target is None ==> queued.session is None,
{
}

/// A queued condition: in the background it is only begun; else a format is filled in
/// at once, and a shell command once its profile is found.
pub proof fn law_queued_conditions_begin<C>(
    command: &ParsedIfShellCommand<C>,
    context: &QueueExecutionContext,
    r: QueuedIfShellStep,
    apart: QueuedIfShellStep,
    outcome: Result<(), ProtoError>,
    profiled: QueuedIfShellStep,
    filled: Result<String, ProtoError>,
    expanded: QueuedIfShellStep,
)
    requires
        call_ensures(execute_queued_if_shell::<C>, (command, context), r),
        call_ensures(execute_queued_if_shell_background::<C>, (command, context), apart),
        call_ensures(ParsedIfShellCommand::<C>::profiled, (command, context, outcome), profiled),
        call_ensures(ParsedIfShellCommand::<C>::expanded, (command, filled), expanded),
    ensures
        r is Background <==> command.background,
        !command.background ==> (r is Expand <==> command.format_mode),
        !command.background ==> (r is FindProfile <==> !command.format_mode),
        apart is Expand <==> command.format_mode,
        apart is FindProfile <==> !command.format_mode,
        r matches QueuedIfShellStep::Expand(rendering) ==> rendering.template == command.condition,
        outcome is Ok ==> (profiled matches QueuedIfShellStep::Expand(rendering)
            && rendering.template == command.condition),
        outcome matches Err(error) ==> profiled == QueuedIfShellStep::Fail(error),
        filled matches Ok(words) ==> expanded == QueuedIfShellStep::Check(
            if command.format_mode {
                ConditionCheck::Text(words)
            } else {
                ConditionCheck::Shell(words)
            },
        ),
        filled matches Err(error) ==> expanded == QueuedIfShellStep::Fail(error),
{
}

/// A queued condition ends with its first commands where it holds, with its second
/// ones where it does not, and with an error where that could not be found out.
pub proof fn law_queued_conditions_end<C>(
    command: ParsedIfShellCommand<C>,
    outcome: Result<bool, ProtoError>,
    r: QueuedIfShellEnd<C>,
    commands: Option<C>,
    context: &QueueExecutionContext,
    action: QueueCommandAction<C>,
)
    requires
        call_ensures(ParsedIfShellCommand::<C>::decided, (command, outcome), r),
        call_ensures(queued_if_shell_action::<C>, (commands, context), action),
    ensures
        outcome matches Err(error) ==> r == QueuedIfShellEnd::<C>::Fail(error),
        outcome == Ok::<bool, ProtoError>(true) ==> match command.then_commands {
            CommandListArgument::Parsed(list) => r == QueuedIfShellEnd::Commands(list),
            CommandListArgument::String(words) => r == QueuedIfShellEnd::<C>::Parse(words),
        },
        (outcome == Ok::<bool, ProtoError>(false) && command.else_commands is None)
            ==> r is Nothing,
        (outcome == Ok::<bool, ProtoError>(false) && command.else_commands is Some)
            ==> match command.else_commands->0 {
            CommandListArgument::Parsed(list) => r == QueuedIfShellEnd::Commands(list),
            CommandListArgument::String(words) => r == QueuedIfShellEnd::<C>::Parse(words),
        },
        commands matches Some(list) ==> (action matches QueueCommandAction::InsertAfter {
            batches: next,
            output,
            error,
        } && next@.len() == 1 && next@[0] == (list, *context) && output is None && error is None),
        commands is None ==> action == (QueueCommandAction::<C>::Normal {
            output: None,
            error: None,
        }),
{
}

/// What is said of shell commands that could not be run.
pub proof fn law_shell_failures(
    joined: bool,
    error: &str,
    run: ProtoError,
    condition: ProtoError,
)
    requires
        call_ensures(run_shell_failure, (joined, error), run),
        call_ensures(if_shell_failure, (joined, error), condition),
    ensures
        joined ==> run@ == ErrorView::Server("failed to run shell command: "@ + error@),
        !joined ==> run@ == ErrorView::Server("run-shell task failed: "@ + error@),
        joined ==> condition@ == ErrorView::Server("failed to run if-shell condition: "@ + error@),
        !joined ==> condition@ == ErrorView::Server("if-shell condition task failed: "@ + error@),
{
}

/// Files can be nested up to the limit; a load begins with nothing done. A queued one
/// is one deeper than the command that asks for it, and knows the file it is in.
pub proof fn law_loads_begin<C>(
    command: ParsedSourceFileCommand,
    depth: usize,
    limit: usize,
    r: Result<SourceLoad<C>, ProtoError>,
    context: &QueueExecutionContext,
    queued: Result<SourceLoad<C>, ProtoError>,
)
    requires
        call_ensures(load_source_file_command::<C>, (command, depth, limit), r),
        call_ensures(load_queued_source_file::<C>, (command, context, limit), queued),
    ensures
        r is Err <==> depth > limit,
        r matches Err(error) ==> error@ == ErrorView::Server("too many nested files"@),
        r matches Ok(load) ==> load.command == command && load.done == 0 && load.inputs@.len() == 0
            && load.loaded.commands@.len() == 0 && load.loaded.stdout@.len() == 0
            && load.loaded.errors@.len() == 0,
        context.source_file_depth < usize::MAX ==> (queued is Err <==> context.source_file_depth + 1
            > limit),
        queued matches Err(error) ==> error@ == ErrorView::Server("too many nested files"@),
        queued matches Ok(load) ==> load.command.current_file == context.current_file
            && load.command.paths == command.paths && load.command.target == command.target
            && load.done == 0 && load.inputs@.len() == 0,
{
}

/// The inputs of a path wait to be read; a path that has none is an error, and the
/// next path is gone on to.
pub proof fn law_inputs_are_taken<C>(
    load: &mut SourceLoad<C>,
    outcome: Result<Vec<SourceInput>, ProtoError>,
    r: (),
)
    requires
        call_ensures(SourceLoad::<C>::take_inputs, (load, outcome), r),
    ensures
        final(load).done == old(load).done + 1,
        outcome matches Ok(inputs) ==> final(load).inputs@ == inputs@
            && final(load).loaded.errors == old(load).loaded.errors,
        outcome matches Err(error) ==> final(load).inputs@.len() == 0
            && final(load).loaded.errors@ == old(load).loaded.errors@.push(error),
        final(load).loaded.commands == old(load).loaded.commands,
        final(load).loaded.stdout == old(load).loaded.stdout,
{
}

/// The commands of an input are kept behind the others, together with the name of its
/// file, unless they are only to be read; where that is asked for they are printed. An
/// input that cannot be read is an error.
pub proof fn law_commands_are_taken<C>(
    load: &mut SourceLoad<C>,
    outcome: Result<ParsedInput<C>, ProtoError>,
    r: (),
)
    requires
        old(load).inputs@.len() > 0,
        call_ensures(SourceLoad::<C>::take_parsed, (load, outcome), r),
    ensures
        final(load).inputs@ == old(load).inputs@.skip(1),
        final(load).done == old(load).done,
        outcome matches Ok(parsed) ==> {
            let before = old(load).loaded;
            let after = final(load).loaded;
            &&& after.errors == before.errors
            &&& old(load).command.parse_only ==> after.commands@ == before.commands@
            &&& !old(load).command.parse_only ==> {
                &&& after.commands@.len() == before.commands@.len() + 1
                &&& after.commands@.drop_last() == before.commands@
                &&& after.commands@.last().commands == parsed.commands
                &&& after.commands@.last().current_file == Some(
                    old(load).inputs@[0].current_file,
                )
            }
            &&& !old(load).command.verbose || parsed.is_empty ==> after.stdout@ == before.stdout@
            &&& old(load).command.verbose && !parsed.is_empty ==> after.stdout@ == before.stdout@
                + text::bytes(parsed.printed@) + seq![10u8]
        },
        outcome matches Err(error) ==> {
            &&& final(load).loaded.errors@ == old(load).loaded.errors@.push(error)
            &&& final(load).loaded.commands == old(load).loaded.commands
            &&& final(load).loaded.stdout == old(load).loaded.stdout
        },
{
    if let Ok(parsed) = outcome {
        assert(final(load).loaded.commands@.drop_last() =~= old(load).loaded.commands@
            || old(load).command.parse_only);
        assert((old(load).loaded.stdout@ + text::bytes(parsed.printed@)).push(0x0a)
            =~= old(load).loaded.stdout@ + text::bytes(parsed.printed@) + seq![10u8]);
    }
}

/// The commands of a queued file are queued behind it, unless there are none or they
/// are only to be read; what was printed and the error that was met are kept.
pub proof fn law_queued_files<C>(
    parse_only: bool,
    loaded: LoadedSourceFile<C>,
    context: &QueueExecutionContext,
    error: Option<ProtoError>,
    r: QueueCommandAction<C>,
)
    requires
        call_ensures(
            execute_queued_source_file::<C>,
            (parse_only, loaded, context, error),
            r,
        ),
    ensures
        r is Normal <==> parse_only || loaded.commands@.len() == 0,
        r matches QueueCommandAction::Normal { output, error: said } ==> said == error && keeps(
            output,
            loaded.stdout@,
        ),
        r matches QueueCommandAction::InsertAfter { batches: next, output, error: said } ==> {
            &&& said == error
            &&& keeps(output, loaded.stdout@)
            &&& next@.len() == loaded.commands@.len()
            &&& forall|i: int|
                0 <= i < next@.len() ==> (#[trigger] next@[i]).0 == loaded.commands@[i].commands
                    && next@[i].1.current_file == loaded.commands@[i].current_file
            &&& context.source_file_depth < usize::MAX ==> forall|i: int|
                0 <= i < next@.len() ==> (#[trigger] next@[i]).1.source_file_depth
                    == context.source_file_depth + 1
        },
{
    match r {
        QueueCommandAction::Normal { output, error: said } => {
            if let Some(out) = output {
                assert(output.deep_view() == Some(out.stdout@));
            }
        },
        QueueCommandAction::InsertAfter { batches: next, output, error: said } => {
            if let Some(out) = output {
                assert(output.deep_view() == Some(out.stdout@));
            }
        },
    }
}

/// Commands of a file that all went well give what they printed; else all their errors
/// are told.
pub proof fn law_executed_files(
    outcomes: &Vec<Result<CommandOutput, ProtoError>>,
    r: Result<CommandOutput, Vec<ProtoError>>,
)
    requires
        call_ensures(execute_loaded_source_file, (outcomes,), r),
    ensures
        r is Ok ==> forall|i: int| 0 <= i < outcomes@.len() ==> (#[trigger] outcomes@[i]) is Ok,
        r is Err ==> exists|i: int| 0 <= i < outcomes@.len() && (#[trigger] outcomes@[i]) is Err,
{
    lemma_errors(outcomes@);
}

/// There are errors where an outcome is one.
proof fn lemma_errors(outcomes: Seq<Result<CommandOutput, ProtoError>>)
    ensures
        crate::source::errors_of(outcomes).len() > 0 <==> exists|i: int|
            0 <= i < outcomes.len() && (#[trigger] outcomes[i]) is Err,
    decreases outcomes.len(),
{
    if outcomes.len() > 0 {
        let fewer = outcomes.drop_last();
        lemma_errors(fewer);
        assert(outcomes[outcomes.len() - 1] == outcomes.last());
        if exists|i: int| 0 <= i < fewer.len() && (#[trigger] fewer[i]) is Err {
            let i = choose|i: int| 0 <= i < fewer.len() && (#[trigger] fewer[i]) is Err;
            assert(outcomes[i] is Err);
        }
        if exists|i: int| 0 <= i < outcomes.len() && (#[trigger] outcomes[i]) is Err {
            let i = choose|i: int| 0 <= i < outcomes.len() && (#[trigger] outcomes[i]) is Err;
            if i < fewer.len() {
                assert(fewer[i] is Err);
            }
        }
    }
}

/// A file is answered with the errors of reading it and of running it, in this order;
/// without any, with what was printed while reading it and then while running it.
pub proof fn law_file_answers<C>(
    loaded: LoadedSourceFile<C>,
    executed: Option<Result<CommandOutput, Vec<ProtoError>>>,
    r: SourceReply,
)
    requires
        call_ensures(handle_source_file::<C>, (loaded, executed), r),
    ensures
        (executed matches Some(Err(more)) && loaded.errors@.len() + more@.len() > 0)
            ==> r is Errors && r->Errors_0@ == loaded.errors@ + executed->0->Err_0@,
        (!(executed matches Some(Err(_))) && loaded.errors@.len() > 0) ==> r is Errors
            && r->Errors_0@ == loaded.errors@,
        (executed matches Some(Ok(output)) && loaded.errors@.len() == 0) ==> (
        r matches SourceReply::Answer(Response::SourceFile(answer)) && keeps(
            answer.output,
            loaded.stdout@ + executed->0->Ok_0.stdout@,
        )),
        (executed is None && loaded.errors@.len() == 0) ==> (r matches SourceReply::Answer(
            Response::SourceFile(answer),
        ) && keeps(answer.output, loaded.stdout@)),
{
    assert(loaded.errors@ + Seq::<ProtoError>::empty() =~= loaded.errors@);
    assert(loaded.stdout@ + Seq::<u8>::empty() =~= loaded.stdout@);
    if let SourceReply::Answer(Response::SourceFile(answer)) = r {
        if let Some(out) = answer.output {
            assert(answer.output.deep_view() == Some(out.stdout@));
        }
    }
}

/// A file without a target is about the active pane of the session that is named, or
/// else of the preferred one; its own target counts before that.
pub proof fn law_file_targets(
    state: &HandlerState,
    candidate: Option<&SessionName>,
    preferred: Option<&SessionName>,
    r: Option<PaneTarget>,
    command: ParsedSourceFileCommand,
    aimed: ParsedSourceFileCommand,
)
    requires
        call_ensures(implicit_source_file_target, (state, candidate, preferred), r),
        call_ensures(aimed_source_file, (command, r), aimed),
    ensures
        candidate is None && preferred is None ==> r is None,
        candidate matches Some(name) ==> match crate::laws::targets::pane_in_session(
            state@,
            name@,
        ) {
            Some(crate::names::TargetView::Pane(spot)) => r is Some && r->0@ == spot,
            _ => r is None,
        },
        (candidate is None && preferred is Some) ==> match crate::laws::targets::pane_in_session(
            state@,
            preferred->0@,
        ) {
            Some(crate::names::TargetView::Pane(spot)) => r is Some && r->0@ == spot,
            _ => r is None,
        },
        command.target is Some ==> aimed == command,
        command.target is None ==> aimed.target == r && aimed.paths == command.paths
            && aimed.current_file == command.current_file && aimed.stdin == command.stdin,
{
}

/// At the start no file is read where that is switched off; the usual ones are, with
/// their errors kept and others to fall back on; or those that are named, without
/// either.
pub proof fn law_startup_selection<C>(
    selection: ConfigFileSelection,
    cwd: Option<String>,
    usual: Vec<String>,
    fallback: Vec<String>,
    r: (StartupStep<C>, StartupLoad),
)
    requires
        call_ensures(load_startup_config::<C>, (selection, cwd, usual, fallback), r),
    ensures
        selection is Disabled ==> r.0 is Done && r.0->Done_0@.len() == 0,
        selection is Default ==> {
            &&& r.0 matches StartupStep::Load(command) && command.paths@ == usual@
                && command.caller_cwd == cwd
            &&& r.1.queue_errors
            &&& r.1.fallback_paths == fallback
        },
        selection matches ConfigFileSelection::Files(files) ==> {
            &&& r.0 matches StartupStep::Load(command) && command.paths@ == files@
                && command.caller_cwd == cwd
            &&& !r.1.queue_errors
            &&& r.1.fallback_paths@.len() == 0
        },
        !r.1.is_fallback && r.1.errors@.len() == 0 && r.1.caller_cwd == cwd,
{
}

/// What comes after the files of the start were read: the others are tried where these
/// had no commands, and else their commands are run, at the first depth.
pub proof fn law_startup_goes_on<C>(
    load: &mut StartupLoad,
    outcome: Result<LoadedSourceFile<C>, ProtoError>,
    r: StartupStep<C>,
)
    requires
        call_ensures(StartupLoad::take_loaded::<C>, (load, outcome), r),
    ensures
        (outcome matches Err(error) && old(load).queue_errors && !old(load).is_fallback)
            ==> r is Done && r->Done_0@ == seq![outcome->Err_0],
        (outcome is Err && !(old(load).queue_errors && !old(load).is_fallback)) ==> r is Done
            && r->Done_0@.len() == 0,
        (outcome matches Ok(loaded) && !old(load).is_fallback && loaded.commands@.len() == 0
            && old(load).fallback_paths@.len() > 0) ==> {
            &&& r matches StartupStep::Load(command) && command.paths@ == old(
                load,
            ).fallback_paths@ && command.caller_cwd == old(load).caller_cwd
            &&& final(load).is_fallback
        },
        (outcome matches Ok(loaded) && (old(load).is_fallback || loaded.commands@.len() > 0 || old(
            load,
        ).fallback_paths@.len() == 0)) ==> {
            let loaded = outcome->Ok_0;
            &&& r is Execute
            &&& r->Execute_0@.len() == loaded.commands@.len()
            &&& forall|i: int|
                0 <= i < loaded.commands@.len() ==> (#[trigger] r->Execute_0@[i]).0
                    == loaded.commands@[i].commands && r->Execute_0@[i].1.source_file_depth == 1
            &&& final(load).errors@ == old(load).errors@ + loaded.errors@
            &&& final(load).is_fallback == old(load).is_fallback
        },
{
}

/// An answer that is an error is one for the queue; any other gives it what it prints.
pub proof fn law_queued_answers<C>(
    response: Response,
    r: Result<QueueCommandAction<C>, ProtoError>,
    result: PromptQueueResult<C>,
    action: QueueCommandAction<C>,
)
    requires
        call_ensures(queue_action_from_response::<C>, (response,), r),
        call_ensures(prompt_queue_action_from_result::<C>, (result,), action),
    ensures
        r is Err <==> response is Error,
        response matches Response::Error(answer) ==> r->Err_0 == answer.error,
        r matches Ok(QueueCommandAction::Normal { output, error }) ==> error is None
            && match response.spec_output() {
            Some(bytes) => keeps(output, bytes),
            None => output is None,
        },
        r is Ok ==> r->Ok_0 is Normal,
        result.inserted matches Some(batch) ==> (action matches QueueCommandAction::InsertAfter {
            batches: next,
            output,
            error,
        } && next@.len() == 1 && next@[0] == batch && output is None && error == result.error),
        result.inserted is None ==> action == (QueueCommandAction::<C>::Normal {
            output: None,
            error: result.error,
        }),
{
    if let Ok(QueueCommandAction::Normal { output, error }) = r {
        if let Some(out) = output {
            assert(output.deep_view() == Some(out.stdout@));
        }
    }
}

} // verus!
