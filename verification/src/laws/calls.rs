//! Laws of what functions around processes, clients and the command line return.
use std::collections::VecDeque;

use vstd::prelude::*;

use crate::cli::{
    display_panes_response, display_panes_unresolved, dispatch_command_queue,
    finish_command_success, stdin_failure, unexpected_response, write_command_output, Command,
    CommandRun, DisplayPanesFailure, ExitFailure,
};
use crate::client::{
    finish_control_mode, poll_input_thread, ControlFinish, ControlTransition, InputPoll,
    PendingUpgrade,
};
use crate::error::RmuxError;
use crate::listener::LocalListener;
use crate::names::ProtoError;
use crate::process::{command_name, current_path, foreground_pid, name_from_cmdline, program_name};
use crate::protocol::{ControlMode, Request, Response};
use crate::response::CommandOutput;
use crate::spawn::{
    attribute_words, command_line, kill_child, line_of, spawn_child, try_wait_child, wait_child,
    wide, ChildCommand, KillAction, Signal, SpawnStage, SpawnStep, WaitVerdict,
};
use crate::startup::{
    bad_pipe, connect_or_start, connect_or_start_with, poll_sleep, wait_for_daemon, IoFailure,
    Startup, StartupError, StartupErrorView, WaitStep,
};
use crate::text;
use crate::windows_runtime::{
    after_read, is_minimal_answer, read_request, serve_connection, ReadStep, Served,
};
use crate::xtask::{run_feature_inventory, InventoryReport};

verus! {

/// An interrupt is typed; any other signal ends all processes of the job, or the one
/// process where there is no job.
pub proof fn law_signals(signal: Signal, has_job: bool, r: KillAction)
    requires
        call_ensures(kill_child, (signal, has_job), r),
    ensures
        r is TypeInterrupt <==> signal is INT,
        r is TerminateJob <==> !(signal is INT) && has_job,
        r is TerminateProcess <==> !(signal is INT) && !has_job,
{
}

/// What the answers to a wait mean: zero that the child has ended, 258 that it still
/// runs, and all ones that the system failed. A wait without end takes all but the
/// last for an end.
pub proof fn law_waits_for_children(answer: u32, tried: WaitVerdict, waited: WaitVerdict)
    requires
        call_ensures(try_wait_child, (answer,), tried),
        call_ensures(wait_child, (answer,), waited),
    ensures
        tried is Ended <==> answer == 0,
        tried is Running <==> answer == 258,
        tried is SystemError <==> answer == 0xffff_ffff,
        tried matches WaitVerdict::Unexpected(failure) ==> failure.code is None
            && failure.message@ == "unexpected process wait result"@,
        waited is SystemError <==> answer == 0xffff_ffff,
        waited is Ended <==> answer != 0xffff_ffff,
{
}

/// As many words as are needed for so many bytes, and no more.
pub proof fn law_attribute_words(size: usize, word: usize, r: Option<usize>)
    requires
        word > 0,
        call_ensures(attribute_words, (size, word), r),
    ensures
        size == 0 <==> r is None,
        r matches Some(words) ==> words * word >= size && (words - 1) * word < size,
{
}

/// A child is made step by step; where a step fails the start fails, and a process
/// that is there already is ended.
pub proof fn law_spawn_steps(stage: SpawnStage, succeeded: bool, r: SpawnStep)
    requires
        call_ensures(spawn_child, (stage, succeeded), r),
    ensures
        succeeded && stage is MakeJob ==> r == SpawnStep::Go(SpawnStage::MakeAttributes),
        succeeded && stage is MakeAttributes ==> r == SpawnStep::Go(SpawnStage::CreateProcess),
        succeeded && stage is CreateProcess ==> r == SpawnStep::Go(SpawnStage::AssignJob),
        succeeded && stage is AssignJob ==> r == SpawnStep::Go(SpawnStage::Resume),
        succeeded && stage is Resume ==> r == SpawnStep::Go(SpawnStage::TakeId),
        r is Running <==> succeeded && stage is TakeId,
        r is TerminateAndFail <==> !succeeded && (stage is AssignJob || stage is Resume),
        r is Fail <==> !succeeded && !(stage is AssignJob || stage is Resume),
{
}

/// The command line of a child ends with a zero, and has its words in front of it.
pub proof fn law_command_lines_end(command: &ChildCommand, r: Vec<u16>)
    requires
        call_ensures(command_line, (command,), r),
    ensures
        r@.len() > 0,
        r@.last() == 0,
        r@.drop_last() == wide(line_of(command.words())),
{
    assert(r@.drop_last() =~= wide(line_of(command.words())));
}

/// The process in front is that of the group, where there is one.
pub proof fn law_process_in_front(group: Option<i32>, r: Option<u32>)
    requires
        call_ensures(foreground_pid, (group,), r),
    ensures
        r is Some <==> group is Some && group->0 >= 0,
        r matches Some(pid) ==> pid as int == group->0 as int,
{
}

/// The name of a program comes from its command line; where that gives none, from the
/// name that the system keeps, without white space around it.
pub proof fn law_program_is_named(
    cmdline: Option<Vec<u8>>,
    comm: Option<String>,
    r: Option<String>,
    link: Option<Vec<u8>>,
    path: Option<String>,
)
    requires
        call_ensures(command_name, (cmdline, comm), r),
        call_ensures(current_path, (link,), path),
    ensures
        (cmdline matches Some(bytes) && name_from_cmdline(bytes@) is Some) ==> r is Some && r->0@
            == name_from_cmdline(cmdline->0@)->0,
        (!(cmdline matches Some(bytes) && name_from_cmdline(bytes@) is Some) && comm is Some
            && program_name(text::trimmed(comm->0@)) is Some) ==> r is Some
            && r->0@ == program_name(text::trimmed(comm->0@))->0,
        (!(cmdline matches Some(bytes) && name_from_cmdline(bytes@) is Some) && (comm is None
            || program_name(text::trimmed(comm->0@)) is None)) ==> r is None,
        link is None <==> path is None,
        link matches Some(bytes) ==> path->0@ == text::rendered(bytes@),
{
    if let Some(name) = r {
        assert(r.deep_view() == Some(name@));
    }
    if let Some(place) = path {
        assert(path.deep_view() == Some(place@));
    }
}

/// Only the answer for control mode upgrades a connection; any other is handed back.
pub proof fn law_upgrades(pending: PendingUpgrade, response: Response, r: ControlTransition)
    requires
        call_ensures(PendingUpgrade::receive, (pending, response), r),
    ensures
        r is Upgraded <==> response is ControlMode,
        response matches Response::ControlMode(answer) ==> r->Upgraded_0.response == answer,
        !(response is ControlMode) ==> r == ControlTransition::Rejected(response),
{
}

/// How control mode ends: its input is waited for where it has finished, and what it
/// came to is kept; an input that was lost is an error. The closing bytes go out only
/// behind output that was copied.
pub proof fn law_control_mode_ends(
    mode: ControlMode,
    copy_result: Result<(), IoFailure>,
    poll: InputPoll,
    r: Result<ControlFinish, IoFailure>,
    polled: Result<Option<Result<(), IoFailure>>, IoFailure>,
)
    requires
        call_ensures(finish_control_mode, (mode, copy_result, poll), r),
        call_ensures(poll_input_thread, (poll,), polled),
    ensures
        r is Err <==> poll is Lost,
        polled is Err <==> poll is Lost,
        r matches Err(failure) ==> failure.message@
            == "control input thread terminated unexpectedly"@,
        polled matches Err(failure) ==> failure.message@
            == "control input thread terminated unexpectedly"@,
        poll is Running ==> polled->Ok_0 is None,
        poll matches InputPoll::Finished(result) ==> polled->Ok_0 == Some(result),
        r matches Ok(finish) ==> {
            &&& finish.join_input <==> poll is Finished
            &&& finish.input_result is Some <==> poll is Finished
            &&& poll matches InputPoll::Finished(result) ==> finish.input_result == Some(result)
            &&& finish.copy_result == copy_result
            &&& copy_result is Err || mode is Plain ==> finish.suffix@.len() == 0
            &&& copy_result is Ok && mode is ControlControl ==> finish.suffix@ == text::bytes(
                seq!['\u{1b}', '\\'],
            )
        },
{
    reveal_strlit("\u{1b}\\");
    assert("\u{1b}\\"@ =~= seq!['\u{1b}', '\\']);
}

/// What control mode comes to: an input that panicked is an error; else the failure to
/// copy counts, and then that of the input.
pub proof fn law_control_mode_result(finish: ControlFinish, joined: bool, r: Result<(), IoFailure>)
    requires
        call_ensures(ControlFinish::conclude, (finish, joined), r),
    ensures
        finish.join_input && !joined ==> r is Err && r->Err_0.message@
            == "control input thread panicked"@,
        (!(finish.join_input && !joined) && finish.copy_result is Err) ==> r == finish.copy_result,
        (!(finish.join_input && !joined)
            && finish.copy_result is Ok) ==> match finish.input_result {
            Some(result) => r == result,
            None => r is Ok,
        },
{
}

/// Waiting for a server: one that answers is there; an error other than a busy pipe
/// ends the wait, and so does the end of the time; else it goes on.
pub proof fn law_waiting_for_servers<S>(
    probed: Result<Option<S>, StartupError>,
    elapsed: u64,
    deadline: u64,
    poll: u64,
    name: &str,
    r: WaitStep<S>,
)
    requires
        call_ensures(wait_for_daemon::<S>, (probed, elapsed, deadline, poll, name), r),
    ensures
        probed matches Ok(Some(stream)) ==> r == WaitStep::Ready(stream),
        (probed matches Err(error) && !(error is PipeBusy)) ==> r == WaitStep::<S>::Failed(
            probed->Err_0,
        ),
        (probed matches Ok(None) && elapsed < deadline) ==> r == WaitStep::<S>::Sleep(
            poll_sleep(elapsed, deadline, poll),
        ),
        (probed matches Err(error) && error is PipeBusy && elapsed < deadline) ==> r is Sleep,
        (probed matches Ok(None) && elapsed >= deadline) ==> r is Failed && r->Failed_0@
            == StartupErrorView::StartupTimeout(name@, elapsed),
        (probed matches Err(error) && error is PipeBusy && elapsed >= deadline) ==> r is Failed
            && r->Failed_0@ == StartupErrorView::StartupTimeout(name@, elapsed),
{
}

/// A start begins by trying the pipe, has five seconds and waits 50 milliseconds at a
/// time, unless it is told otherwise; a bad pipe is refused.
pub proof fn law_starts_begin(
    name: &str,
    deadline: u64,
    poll: u64,
    usual: Result<Startup, StartupError>,
    r: Result<Startup, StartupError>,
)
    requires
        call_ensures(connect_or_start, (name,), usual),
        call_ensures(connect_or_start_with, (name, deadline, poll), r),
    ensures
        usual is Ok <==> bad_pipe(name@) is None,
        r is Ok <==> bad_pipe(name@) is None,
        usual matches Ok(start) ==> start.pipe_name@ == name@ && start.phase is Probing
            && start.deadline == 5000 && start.poll == 50,
        r matches Ok(start) ==> start.pipe_name@ == name@ && start.phase is Probing
            && start.deadline == deadline && start.poll == poll,
        usual matches Err(error) ==> bad_pipe(name@) == Some(error@),
        r matches Err(error) ==> bad_pipe(name@) == Some(error@),
{
}

/// Without a client panes are shown where the target that was given says; other
/// failures, and other answers, are handed on.
pub proof fn law_panes_without_client(
    raw_target: Option<String>,
    error: ExitFailure,
    response: Response,
    unresolved: DisplayPanesFailure,
    r: Result<Response, DisplayPanesFailure>,
)
    requires
        call_ensures(display_panes_unresolved, (raw_target, error), unresolved),
        call_ensures(display_panes_response, (raw_target, response), r),
    ensures
        raw_target matches Some(target) ==> unresolved == DisplayPanesFailure::NoClient(target),
        raw_target is None ==> unresolved == DisplayPanesFailure::Other(error),
        r is Err <==> raw_target is Some && (response matches Response::Error(answer)
            && answer.error@.message() == "no current client"@),
        r matches Err(failure) ==> failure == DisplayPanesFailure::NoClient(raw_target->0),
        r matches Ok(answer) ==> answer == response,
{
}

/// Commands are run in their order; without any a session is made. The last exit code
/// counts, and a failure ends the run.
pub proof fn law_commands_are_run_in_order(
    commands: VecDeque<Command>,
    begun: CommandRun,
    run: &mut CommandRun,
    command: Option<Command>,
)
    requires
        call_ensures(dispatch_command_queue, (commands,), begun),
        call_ensures(CommandRun::next, (run,), command),
    ensures
        begun.exit_code == 0,
        commands@.len() > 0 ==> begun.rest@ == commands@,
        commands@.len() == 0 ==> begun.rest@.len() == 1 && begun.rest@[0] is NewSession,
        old(run).rest@.len() > 0 ==> command == Some(old(run).rest@[0]) && final(run).rest@
            == old(run).rest@.skip(1),
        old(run).rest@.len() == 0 ==> command is None,
        final(run).exit_code == old(run).exit_code,
{
}

/// What a command came to is kept.
pub proof fn law_exit_codes_are_kept(
    run: CommandRun,
    outcome: Result<i32, ExitFailure>,
    r: Result<CommandRun, ExitFailure>,
)
    requires
        call_ensures(CommandRun::record, (run, outcome), r),
    ensures
        outcome is Ok <==> r is Ok,
        outcome matches Ok(code) ==> r->Ok_0.exit_code == code && r->Ok_0.rest == run.rest,
        outcome matches Err(failure) ==> r->Err_0 == failure,
{
}

/// How answers are shown: what they print, unless they were not the ones that were
/// expected. A reader that has gone away is no failure.
pub proof fn law_answers_are_shown(
    response: &Response,
    expected: Result<(), ExitFailure>,
    r: Result<Option<CommandOutput>, ExitFailure>,
    written: Result<(), IoFailure>,
    shown: Result<(), ExitFailure>,
)
    requires
        call_ensures(finish_command_success, (response, expected), r),
        call_ensures(write_command_output, (written,), shown),
    ensures
        expected is Ok <==> r is Ok,
        expected matches Err(failure) ==> r->Err_0 == failure,
        expected is Ok ==> r->Ok_0.deep_view() == response.spec_output(),
        shown is Err <==> (written matches Err(failure) && !(failure.kind is BrokenPipe)),
        shown matches Err(failure) ==> failure.exit_code == 1 && failure.message@
            == "failed to write command output: "@ + written->Err_0.message@,
{
}

/// What is said of answers that were not expected, and of an input that cannot be
/// read.
pub proof fn law_client_failures(
    command: &str,
    answer: &str,
    unexpected: ExitFailure,
    error: &str,
    unread: ExitFailure,
)
    requires
        call_ensures(unexpected_response, (command, answer), unexpected),
        call_ensures(stdin_failure, (error,), unread),
    ensures
        unexpected.exit_code == 1,
        unexpected.message@ == "protocol error: unexpected '"@ + answer@ + "' response for "@
            + command@,
        unread.exit_code == 1,
        unread.message@ == "failed to read stdin: "@ + error@,
{
}

/// A connection is served what it asks; it reads on where a request is not whole, and
/// is refused what cannot be read. An end of input closes it, and the end of the
/// server is what ends all.
pub proof fn law_connections(
    decoded: Result<Option<Request>, ProtoError>,
    r: ReadStep,
    count: usize,
    after: Option<ReadStep>,
    request: &Request,
    served: Served,
)
    requires
        call_ensures(read_request, (decoded,), r),
        call_ensures(after_read, (count,), after),
        call_ensures(serve_connection, (request,), served),
    ensures
        decoded matches Ok(Some(asked)) ==> r == ReadStep::Serve(asked),
        decoded matches Ok(None) ==> r is ReadMore,
        decoded matches Err(error) ==> r is Refuse && r->Refuse_0 is Error
            && r->Refuse_0->Error_0.error == error,
        count == 0 ==> after == Some(ReadStep::Close),
        count > 0 ==> after is None,
        is_minimal_answer(*request, served.response),
        served.shutdown <==> *request is KillServer,
{
}

/// What the task runner prints about the files of the inventory.
pub proof fn law_inventory_lines(
    report: Result<InventoryReport, String>,
    r: Result<Vec<String>, String>,
    i: int,
)
    requires
        call_ensures(run_feature_inventory, (report,), r),
    ensures
        report is Ok <==> r is Ok,
        report matches Err(error) ==> r->Err_0@ == "xtask feature-inventory failed: "@ + error@,
        report matches Ok(told) ==> {
            let n = told.changed@.len();
            let lines = r->Ok_0@;
            &&& lines.len() == n + told.unchanged@.len()
            &&& 0 <= i < n ==> lines[i]@ == "feature-inventory: wrote "@ + told.changed@[i]@
            &&& n <= i < lines.len() ==> lines[i]@ == "feature-inventory: unchanged "@
                + told.unchanged@[i - n]@
        },
{
    if let (Ok(told), Ok(lines)) = (report, r) {
        assert(lines.deep_view().len() == lines@.len());
        if 0 <= i < lines@.len() {
            assert(lines.deep_view()[i] == lines@[i]@);
        }
    }
}

/// A pipe that waits is taken once; until there is another, no connection is accepted.
pub proof fn law_accepts<S>(listener: &mut LocalListener<S>, r: Result<S, IoFailure>)
    requires
        call_ensures(LocalListener::<S>::accept, (listener,), r),
    ensures
        old(listener).pending matches Some(server) ==> r is Ok && r->Ok_0 == server,
        old(listener).pending is None ==> r is Err && r->Err_0.message@
            == "named-pipe accept already in progress"@,
        final(listener).pending is None,
        final(listener).pipe_name == old(listener).pipe_name,
{
}

/// What is missing, and what to do about it, is told for what is not supported.
pub proof fn law_hints(error: &RmuxError, hint: Option<&str>, feature: Option<&str>)
    requires
        call_ensures(RmuxError::hint, (error,), hint),
        call_ensures(RmuxError::feature, (error,), feature),
    ensures
        hint is Some <==> *error is Unsupported,
        feature is Some <==> *error is Unsupported,
        *error matches RmuxError::Unsupported { feature: named, hint: told } ==> feature->0@
            == named@ && hint->0@ == told@,
{
}

} // verus!
