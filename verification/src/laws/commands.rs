//! Laws of commands, programs and messages.
use vstd::prelude::*;

use crate::error::RmuxError;
use crate::names::{ErrorView, ProtoError, Slot, Target};
use crate::process::{
    file_name, first_word, last_segment, name_from_cmdline, program_name, until_zero,
    without_dashes,
};
use crate::protocol::{Request, Response};
use crate::queue::{
    other_contexts, other_groups, unless_silent, QueueCommandAction, QueueExecutionContext,
};
use crate::response::CommandOutput;
use crate::shell::{
    argument_end, failure_words, CommandListArgument, ParsedIfShellCommand, QueuedIfShellEnd,
    ShellOutput,
};
use crate::source::{
    batches, errors_of, is_startup_command, printed_by, queued_depth, with_commands, LoadStep,
    LoadedSourceFile, ParsedSourceFileCommand, ReadRequest, SourceLoad, SourcedParsedCommands,
    StartupLoad,
};
use crate::text;
use crate::windows_runtime::{is_minimal_answer, TaskEnd};
use crate::xtask::{lines_about, parsed, Command};

verus! {

/// What errors say.
pub proof fn law_messages(error: ErrorView, slot: Slot)
    ensures
        crate::names::slot_text(slot) == slot.0 + ":"@ + text::decimal(slot.1 as nat),
        error.message() == match error {
            ErrorView::Server(message) => message,
            ErrorView::InvalidTarget(value, reason) => "invalid target '"@ + value + "': "@
                + reason,
            ErrorView::SessionNotFound(name) => "session not found: "@ + name,
            ErrorView::InvalidSetOption(message) => message,
            ErrorView::IncompleteFrame(expected, received) => "incomplete frame: expected "@
                + text::decimal(expected as nat) + " bytes, received "@ + text::decimal(
                received as nat,
            ),
            ErrorView::Decode(message) => "failed to decode frame: "@ + message,
        },
{
}

/// What an error says to a caller: what is missing and what to do, or what the server
/// said.
pub proof fn law_error_words(error: RmuxError)
    ensures
        error matches RmuxError::Unsupported { feature, hint } ==> error.spec_message()
            == "unsupported feature `"@ + feature@ + "`\nhint: "@ + hint@,
        error matches RmuxError::Protocol { source } ==> error.spec_message()
            == source@.message(),
{
}

/// What stands behind the last slash of a path.
proof fn lemma_behind_last_slash(front: Seq<char>, name: Seq<char>)
    requires
        !name.contains('/'),
        front.len() == 0 || front.last() == '/',
    ensures
        last_segment(front + name) == name,
    decreases name.len(),
{
    let path = front + name;
    if name.len() == 0 {
        assert(path =~= front);
    } else {
        assert(name.contains(name.last()));
        assert(path.last() == name.last());
        assert(path.drop_last() =~= front + name.drop_last());
        assert(!name.drop_last().contains('/')) by {
            if name.drop_last().contains('/') {
                let i = choose|i: int| 0 <= i < name.len() - 1 && name.drop_last()[i] == '/';
                assert(name[i] == '/');
            }
        }
        lemma_behind_last_slash(front, name.drop_last());
        assert(name.drop_last().push(name.last()) =~= name);
    }
}

/// The name of a file is what stands behind the last slash of its path; slashes at
/// the end do not count, and dots alone are no name.
pub proof fn law_file_names(front: Seq<char>, name: Seq<char>, path: Seq<char>)
    requires
        !name.contains('/'),
        front.len() == 0 || front.last() == '/',
    ensures
        (name.len() > 0 && name != seq!['.'] && name != seq!['.', '.']) ==> file_name(front + name)
            == Some(name),
        name == seq!['.', '.'] ==> file_name(front + name) is None,
        name == seq!['.'] && front.len() > 0 ==> file_name(front + name) == file_name(
            front.drop_last(),
        ),
        file_name(path.push('/')) == file_name(path),
        file_name(Seq::empty()) is None,
{
    reveal_strlit(".");
    reveal_strlit("..");
    assert("."@ =~= seq!['.']);
    assert(".."@ =~= seq!['.', '.']);
    lemma_behind_last_slash(front, name);
    let whole = front + name;
    if name == seq!['.', '.'] {
        assert(last_segment(whole) == ".."@);
    }
    if name == seq!['.'] && front.len() > 0 {
        assert(seq!['.'].len() != seq!['.', '.'].len());
        assert(whole.take(whole.len() - 2) =~= front.drop_last());
    }
    let none: Seq<char> = Seq::empty();
    assert(!none.contains('/'));
    lemma_behind_last_slash(path.push('/'), none);
    assert(path.push('/') + none =~= path.push('/'));
    assert(path.push('/').take(path.len() as int) =~= path);
    assert(none.len() != seq!['.', '.'].len());
    lemma_behind_last_slash(none, none);
    assert(none + none =~= none);
}

/// Dashes in front go.
proof fn lemma_dashes_go(dashes: Seq<char>, s: Seq<char>)
    requires
        forall|i: int| 0 <= i < dashes.len() ==> #[trigger] dashes[i] == '-',
        s.len() == 0 || s[0] != '-',
    ensures
        without_dashes(dashes + s) == s,
    decreases dashes.len(),
{
    let whole = dashes + s;
    if dashes.len() > 0 {
        assert(whole[0] == dashes[0]);
        assert(whole.skip(1) =~= dashes.skip(1) + s);
        lemma_dashes_go(dashes.skip(1), s);
    } else {
        assert(whole =~= s);
    }
}

/// The name of a program is that of its file without the dashes in front, with which
/// login shells are marked; dashes alone are no name.
pub proof fn law_program_names(front: Seq<char>, dashes: Seq<char>, name: Seq<char>)
    requires
        front.len() == 0 || front.last() == '/',
        forall|i: int| 0 <= i < dashes.len() ==> #[trigger] dashes[i] == '-',
        !name.contains('/'),
        name.len() == 0 || name[0] != '-',
    ensures
        (name.len() > 0 && !(dashes.len() == 0 && (name == seq!['.'] || name == seq!['.', '.'])))
            ==> program_name(front + (dashes + name)) == Some(name),
        name.len() == 0 && dashes.len() > 0 ==> program_name(front + dashes) is None,
{
    let file = dashes + name;
    assert(!file.contains('/')) by {
        if file.contains('/') {
            let i = choose|i: int| 0 <= i < file.len() && file[i] == '/';
            if i >= dashes.len() {
                assert(name[i - dashes.len()] == '/');
            } else {
                assert(dashes[i] == '-');
            }
        }
    }
    law_file_names(front, file, front);
    lemma_dashes_go(dashes, name);
    if dashes.len() > 0 {
        assert(file[0] == dashes[0]);
        assert(seq!['.'][0] == '.');
        assert(seq!['.', '.'][0] == '.');
    } else {
        assert(file =~= name);
    }
    if name.len() == 0 {
        assert(file =~= dashes);
    }
}

/// What stands before the first zero.
proof fn lemma_before_zero(word: Seq<u8>, rest: Seq<u8>)
    requires
        !word.contains(0),
        rest.len() == 0 || rest[0] == 0,
    ensures
        until_zero(word + rest) == word,
    decreases word.len(),
{
    let whole = word + rest;
    if word.len() == 0 {
        assert(whole =~= rest);
        assert(until_zero(whole) =~= word);
    } else {
        assert(word.contains(word[0]));
        assert(whole[0] == word[0]);
        assert(whole.skip(1) =~= word.skip(1) + rest);
        assert(!word.skip(1).contains(0)) by {
            if word.skip(1).contains(0) {
                let i = choose|i: int| 0 <= i < word.len() - 1 && word.skip(1)[i] == 0;
                assert(word[i + 1] == 0);
            }
        }
        lemma_before_zero(word.skip(1), rest);
        assert(seq![word[0]] + word.skip(1) =~= word);
    }
}

/// The first word of a command line stands between zeros; the program is named after
/// it, where it is a text.
pub proof fn law_command_lines_name_programs(zeros: Seq<u8>, word: Seq<u8>, rest: Seq<u8>)
    requires
        forall|i: int| 0 <= i < zeros.len() ==> #[trigger] zeros[i] == 0,
        word.len() > 0,
        !word.contains(0),
        rest.len() == 0 || rest[0] == 0,
    ensures
        first_word(zeros + (word + rest)) == Some(word),
        first_word(zeros) is None,
        vstd::utf8::valid_utf8(word) ==> name_from_cmdline(zeros + (word + rest)) == program_name(
            vstd::utf8::decode_utf8(word),
        ),
        !vstd::utf8::valid_utf8(word) ==> name_from_cmdline(zeros + (word + rest)) is None,
    decreases zeros.len(),
{
    let whole = zeros + (word + rest);
    if zeros.len() == 0 {
        assert(whole =~= word + rest);
        assert(word.contains(word[0]));
        assert(whole[0] == word[0]);
        lemma_before_zero(word, rest);
    } else {
        assert(whole[0] == zeros[0]);
        assert(whole.skip(1) =~= zeros.skip(1) + (word + rest));
        law_command_lines_name_programs(zeros.skip(1), word, rest);
    }
}

/// What is said of a command that failed: how it ended, and what it wrote as an error.
pub proof fn law_failures_are_told(status: Seq<char>, stderr: Seq<char>)
    ensures
        text::trimmed(stderr).len() == 0 ==> failure_words(status, stderr)
            == "run-shell command exited with "@ + status,
        text::trimmed(stderr).len() > 0 ==> failure_words(status, stderr)
            == "run-shell command exited with "@ + status + ": "@ + text::trimmed(stderr),
{
}

/// What a command printed, with its errors behind it where those are to be shown.
pub proof fn law_shell_output(output: ShellOutput)
    ensures
        output.shown(true) == output.stdout@ + output.stderr@,
        output.shown(false) == output.stdout@,
{
}

/// The target of a queued condition: its own, or the current one.
pub proof fn law_condition_target<C>(
    command: ParsedIfShellCommand<C>,
    context: QueueExecutionContext,
)
    ensures
        command.target is Some ==> command.effective_target(context) == command.target,
        command.target is None ==> command.effective_target(context) == context.current_target,
        command.condition_rendering(context).template == command.condition,
        command.condition_rendering(context).target == command.effective_target(context),
        command.condition_rendering(context).current_file is None,
{
}

/// Commands that were read already are run; a text is read first.
pub proof fn law_arguments<C>(argument: CommandListArgument<C>)
    ensures
        argument matches CommandListArgument::Parsed(commands) ==> argument_end(argument)
            == QueuedIfShellEnd::Commands(commands),
        argument matches CommandListArgument::String(command) ==> argument_end(argument)
            == QueuedIfShellEnd::<C>::Parse(command),
{
}

/// Commands are printed on lines of their own, and a file without any prints nothing.
pub proof fn law_printed_commands(stdout: Seq<u8>, printed: Seq<char>)
    ensures
        with_commands(stdout, true, printed) == stdout,
        with_commands(stdout, false, printed) == stdout + text::bytes(printed).push(10),
{
    assert((stdout + text::bytes(printed)).push(10) =~= stdout + text::bytes(printed).push(10));
}

/// Each batch of commands of a file runs in the context of the command that named the
/// file, at the next depth, and knows its file.
pub proof fn law_batches<C>(
    commands: Seq<SourcedParsedCommands<C>>,
    context: QueueExecutionContext,
    depth: usize,
    i: int,
)
    requires
        0 <= i < commands.len(),
    ensures
        batches(commands, context, depth).len() == commands.len(),
        ({
            let (run, inner) = batches(commands, context, depth)[i];
            &&& run == commands[i].commands
            &&& inner.source_file_depth == depth
            &&& inner.current_file == commands[i].current_file
            &&& inner.caller_cwd == context.caller_cwd
            &&& inner.current_target == context.current_target
            &&& inner.mouse_target == context.mouse_target
        }),
        context.source_file_depth < usize::MAX ==> queued_depth(context)
            == context.source_file_depth + 1,
{
}

/// The errors of commands are kept in their order, and so is what they printed; an
/// error prints nothing, and what is printed is no error.
pub proof fn law_outcomes(
    outcomes: Seq<Result<CommandOutput, ProtoError>>,
    outcome: Result<CommandOutput, ProtoError>,
)
    ensures
        errors_of(Seq::empty()).len() == 0,
        printed_by(Seq::empty()).len() == 0,
        outcome matches Ok(output) ==> errors_of(outcomes.push(outcome)) == errors_of(outcomes)
            && printed_by(outcomes.push(outcome)) == printed_by(outcomes) + output.stdout@,
        outcome matches Err(error) ==> errors_of(outcomes.push(outcome)) == errors_of(
            outcomes,
        ).push(error) && printed_by(outcomes.push(outcome)) == printed_by(outcomes),
{
    assert(outcomes.push(outcome).drop_last() =~= outcomes);
}

/// What a load of files does next: it reads the first input that waits; where none
/// waits it goes to the next path, whose formats are filled in first where that is
/// asked for; and it ends behind the last path.
pub proof fn law_load_steps<C>(load: SourceLoad<C>)
    ensures
        load.inputs@.len() > 0 ==> {
            &&& load.spec_next() is Parse
            &&& load.spec_next()->Parse_0.contents == load.inputs@[0].contents
            &&& load.spec_next()->Parse_0.current_file == load.inputs@[0].current_file
            &&& load.command.target matches Some(pane) ==> load.spec_next()->Parse_0.target == Some(
                Target::Pane(pane),
            )
            &&& load.command.target is None ==> load.spec_next()->Parse_0.target is None
        },
        (load.inputs@.len() == 0 && load.done < load.command.paths@.len()) ==> {
            let path = load.command.paths@[load.done as int];
            &&& !load.command.expand_paths ==> load.spec_next() == LoadStep::Read(
                ReadRequest {
                    path,
                    caller_cwd: load.command.caller_cwd,
                    quiet: load.command.quiet,
                    stdin: load.command.stdin,
                },
            )
            &&& load.command.expand_paths ==> {
                &&& load.spec_next() is Render
                &&& load.spec_next()->Render_0.template == path
                &&& load.spec_next()->Render_0.current_file == load.command.current_file
            }
        },
        (load.inputs@.len() == 0 && load.done >= load.command.paths@.len())
            ==> load.spec_next() is Done,
{
}

/// At the start, the second list of files is tried once, where the first had no
/// commands at all. The commands run without a target, at the outermost depth. Errors
/// are kept where they are asked for, those of the commands only for the first list.
pub proof fn law_startup_files<C>(
    load: StartupLoad,
    loaded: LoadedSourceFile<C>,
    more: Vec<ProtoError>,
    output: CommandOutput,
)
    ensures
        load.falls_back(loaded) <==> !load.is_fallback && loaded.commands@.len() == 0
            && load.fallback_paths@.len() > 0,
        load.context().caller_cwd == load.caller_cwd,
        load.context().source_file_depth == 0,
        load.context().current_file is None,
        load.context().current_target is None,
        load.context().mouse_target is None,
        !load.queue_errors ==> load.kept_errors(Ok(output)).len() == 0 && load.kept_errors(
            Err(more),
        ).len() == 0,
        load.queue_errors ==> load.kept_errors(Ok(output)) == load.errors@,
        load.queue_errors && !load.is_fallback ==> load.kept_errors(Err(more)) == load.errors@
            + more@,
        load.queue_errors && load.is_fallback ==> load.kept_errors(Err(more)) == load.errors@,
{
}

/// What a server without sessions answers.
pub proof fn law_minimal_answers(request: Request, response: Response)
    requires
        is_minimal_answer(request, response),
    ensures
        request is KillServer ==> response is KillServer,
        request is HasSession ==> response is HasSession && !response->HasSession_0.exists,
        request is ListSessions ==> response is ListSessions
            && response->ListSessions_0.output.stdout@.len() == 0,
        request is ListWindows ==> response is ListWindows
            && response->ListWindows_0.windows@.len() == 0
            && response->ListWindows_0.output.stdout@.len() == 0,
        request is ListPanes ==> response is ListPanes
            && response->ListPanes_0.output.stdout@.len() == 0,
        request is ListClients ==> response is ListClients && response->ListClients_0.match_count
            == 0 && response->ListClients_0.output.stdout@.len() == 0,
        request matches Request::KillSession(asked) ==> response is Error
            && response->Error_0.error@ == ErrorView::SessionNotFound(asked.target.value@),
        !(request is KillServer || request is HasSession || request is ListSessions
            || request is ListWindows || request is ListPanes || request is ListClients
            || request is KillSession) ==> response is Error && response->Error_0.error@
            == ErrorView::Server(crate::windows_runtime::WINDOWS_RUNTIME_UNSUPPORTED@),
{
}

/// What is said of a connection that ended badly.
pub proof fn law_connection_warnings(end: TaskEnd)
    ensures
        end is Finished ==> end.warning() is None,
        end matches TaskEnd::Failed(error) ==> end.warning() == Some(
            "windows connection error: "@ + error@,
        ),
        end matches TaskEnd::Broken(error) ==> end.warning() == Some(
            "windows connection task failed: "@ + error@,
        ),
{
}

/// The arguments of the task runner: help on its own, an inventory that is made, or
/// checked where that is asked for, and nothing else.
pub proof fn law_task_arguments(word: Seq<char>, other: Seq<char>, rest: Seq<Seq<char>>)
    ensures
        parsed(Seq::empty()) == Ok::<Command, Seq<char>>(Command::Help),
        (word == "--help"@ || word == "-h"@ || word == "help"@) ==> {
            &&& parsed(seq![word]) == Ok::<Command, Seq<char>>(Command::Help)
            &&& parsed(seq![word, other] + rest) == Err::<Command, Seq<char>>(
                "unexpected xtask argument after "@ + word + ": "@ + other,
            )
        },
        parsed(seq!["feature-inventory"@]) == Ok::<Command, Seq<char>>(
            Command::FeatureInventory { check: false },
        ),
        parsed(seq!["feature-inventory"@, "--check"@]) == Ok::<Command, Seq<char>>(
            Command::FeatureInventory { check: true },
        ),
        other != "--check"@ ==> parsed(seq!["feature-inventory"@, other] + rest) == Err::<
            Command,
            Seq<char>,
        >("unknown feature-inventory argument: "@ + other),
        (word != "--help"@ && word != "-h"@ && word != "help"@ && word != "feature-inventory"@)
            ==> parsed(seq![word] + rest) == Err::<Command, Seq<char>>(
            "unknown xtask command: "@ + word,
        ),
{
    reveal_strlit("feature-inventory");
    reveal_strlit("--help");
    reveal_strlit("-h");
    reveal_strlit("help");
    reveal_with_fuel(crate::xtask::first_stranger, 3);
    let fi = "feature-inventory"@;
    assert(fi.len() == 17 && "--help"@.len() == 6 && "-h"@.len() == 2 && "help"@.len() == 4);
    assert((seq![word, other] + rest)[0] == word);
    assert((seq![word, other] + rest)[1] == other);
    assert((seq![fi, other] + rest)[0] == fi);
    assert((seq![fi, other] + rest)[1] == other);
    assert((seq![word] + rest)[0] == word);
    assert(crate::xtask::first_stranger(seq![fi], 1) is None);
    assert(crate::xtask::first_stranger(seq![fi, "--check"@], 2) is None);
    assert(crate::xtask::first_stranger(seq![fi, "--check"@], 1) is None);
}

/// The files of the start are read quietly, as they are named, and are run.
pub proof fn law_startup_command(
    command: ParsedSourceFileCommand,
    paths: Seq<String>,
    cwd: Option<String>,
)
    requires
        is_startup_command(command, paths, cwd),
    ensures
        command.paths@ == paths,
        command.caller_cwd == cwd,
        command.quiet,
        !command.parse_only && !command.verbose && !command.expand_paths,
        command.target is None && command.stdin is None && command.current_file is None,
{
}

/// The session of a target is that of its window, or of its pane.
pub proof fn law_session_of_target(target: Target)
    ensures
        target matches Target::Session(name) ==> target.spec_session_name() == name,
        target matches Target::Window(window) ==> target.spec_session_name()
            == window.session_name,
        target matches Target::Pane(pane) ==> target.spec_session_name() == pane.session_name,
{
}

/// Nothing that was printed is no output.
pub proof fn law_silence(bytes: Seq<u8>)
    ensures
        unless_silent(None) is None,
        bytes.len() == 0 ==> unless_silent(Some(bytes)) is None,
        bytes.len() > 0 ==> unless_silent(Some(bytes)) == Some(bytes),
{
}

/// How truth is written.
pub proof fn law_truth(value: bool)
    ensures
        value ==> text::truth(value) == seq!['t', 'r', 'u', 'e'],
        !value ==> text::truth(value) == seq!['f', 'a', 'l', 's', 'e'],
{
    reveal_strlit("true");
    reveal_strlit("false");
    assert("true"@ =~= seq!['t', 'r', 'u', 'e']);
    assert("false"@ =~= seq!['f', 'a', 'l', 's', 'e']);
}

/// One line for each path, in their order, with a word in front.
pub proof fn law_lines_about(word: Seq<char>, paths: Seq<Seq<char>>, i: int)
    ensures
        lines_about(word, paths).len() == paths.len(),
        0 <= i < paths.len() ==> lines_about(word, paths)[i] == word + paths[i],
{
}

/// What an answer has to print: that of lists, of texts that were asked for, and of
/// commands that printed something.
pub proof fn law_outputs(response: Response)
    ensures
        match response {
            Response::BreakPane(r) => match r.output {
                Some(output) => response.spec_output() == Some(output.stdout@),
                None => response.spec_output() is None,
            },
            Response::ListPanes(r) => response.spec_output() == Some(r.output.stdout@),
            Response::ListWindows(r) => response.spec_output() == Some(r.output.stdout@),
            Response::ListSessions(r) => response.spec_output() == Some(r.output.stdout@),
            Response::ListClients(r) => response.spec_output() == Some(r.output.stdout@),
            Response::Output(r) => response.spec_output() == Some(r.output.stdout@),
            Response::RunShell(r) => match r.output {
                Some(output) => response.spec_output() == Some(output.stdout@),
                None => response.spec_output() is None,
            },
            Response::IfShell(r) => match r.output {
                Some(output) => response.spec_output() == Some(output.stdout@),
                None => response.spec_output() is None,
            },
            Response::SourceFile(r) => match r.output {
                Some(output) => response.spec_output() == Some(output.stdout@),
                None => response.spec_output() is None,
            },
            _ => response.spec_output() is None,
        },
{
}

/// Taking a group out of the queue leaves the other items where they are, with their
/// contexts.
pub proof fn law_other_items_stay(
    groups: Seq<u64>,
    contexts: Seq<QueueExecutionContext>,
    group: u64,
    first: u64,
    context: QueueExecutionContext,
)
    ensures
        other_groups(Seq::empty(), group).len() == 0,
        first == group ==> other_groups(seq![first] + groups, group) == other_groups(groups, group)
            && other_contexts(seq![first] + groups, seq![context] + contexts, group)
            == other_contexts(groups, contexts, group),
        first != group ==> other_groups(seq![first] + groups, group) == seq![first] + other_groups(
            groups,
            group,
        ) && other_contexts(seq![first] + groups, seq![context] + contexts, group) == seq![context]
            + other_contexts(groups, contexts, group),
{
    assert((seq![first] + groups)[0] == first);
    assert((seq![first] + groups).skip(1) =~= groups);
    assert((seq![context] + contexts)[0] == context);
    assert((seq![context] + contexts).skip(1) =~= contexts);
}

/// A command that did nothing says nothing: it printed nothing and met no error.
pub proof fn law_quiet_commands<C>(action: QueueCommandAction<C>)
    ensures
        action.is_quiet() <==> action is Normal && action->Normal_output is None
            && action->Normal_error is None,
{
}

/// Every argument behind the inventory must be a check; the first that is not is told.
pub proof fn law_inventory_arguments(other: Seq<char>, rest: Seq<Seq<char>>)
    requires
        other != "--check"@,
    ensures
        parsed(seq!["feature-inventory"@, "--check"@, other] + rest) == Err::<Command, Seq<char>>(
            "unknown feature-inventory argument: "@ + other,
        ),
        parsed(seq!["feature-inventory"@, "--check"@, "--check"@]) == Ok::<Command, Seq<char>>(
            Command::FeatureInventory { check: true },
        ),
{
    reveal_strlit("feature-inventory");
    reveal_strlit("--help");
    reveal_strlit("-h");
    reveal_strlit("help");
    reveal_with_fuel(crate::xtask::first_stranger, 4);
    let fi = "feature-inventory"@;
    assert(fi.len() == 17 && "--help"@.len() == 6 && "-h"@.len() == 2 && "help"@.len() == 4);
    let args = seq![fi, "--check"@, other] + rest;
    assert(args[0] == fi && args[1] == "--check"@ && args[2] == other);
    assert(crate::xtask::first_stranger(args, 2) == Some(other));
    assert(crate::xtask::first_stranger(args, 1) == Some(other));
    let two = seq![fi, "--check"@, "--check"@];
    assert(crate::xtask::first_stranger(two, 3) is None);
    assert(crate::xtask::first_stranger(two, 2) is None);
    assert(crate::xtask::first_stranger(two, 1) is None);
}

} // verus!
