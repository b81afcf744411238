//! Laws of starting a server.
use vstd::prelude::*;

use crate::laws::texts::law_lowercase;
use crate::paths::last_component;
use crate::startup::{
    advanced, awaited, bad_pipe, connect_failure, has_pipe_prefix, lock_failure,
    mutex_failure, mutex_name, poll_sleep, probe_failure, probe_next, FailureView,
    IoKind, MutexThread, NamedMutexError, ProbeEvent, ProbeFrame, ProbeStep, ProbeStepView,
    Startup, StartupAction, StartupError, StartupErrorView, StartupEvent, StartupOutcome,
    StartupPhase,
};
use crate::text;

verus! {

/// What is said of a start that failed.
pub proof fn law_startup_messages(
    pipe: Seq<char>,
    reason: Seq<char>,
    source: FailureView,
    waited: u64,
)
    ensures
        StartupErrorView::InvalidPipeName(reason, pipe).message()
            == "rmux startup rejected pipe '"@ + pipe + "': "@ + reason,
        StartupErrorView::InvalidMutexName(reason, pipe).message()
            == "rmux startup rejected mutex name for '"@ + pipe + "': "@ + reason,
        StartupErrorView::Mutex(pipe, source).message() == "rmux startup mutex for '"@ + pipe
            + "' failed: "@ + source.message,
        StartupErrorView::MutexTimeout(pipe, waited).message() == "rmux startup mutex for '"@ + pipe
            + "' timed out after "@ + text::decimal(waited as nat) + "ms"@,
        StartupErrorView::MutexAccessDenied(pipe, source).message() == "rmux startup mutex for '"@
            + pipe + "' denied for current user: "@ + source.message,
        StartupErrorView::PipeBusy(pipe).message() == "rmux pipe '"@ + pipe
            + "' is busy on every instance"@,
        StartupErrorView::PipeNotFound(pipe).message() == "rmux pipe '"@ + pipe
            + "' is not currently served"@,
        StartupErrorView::PipeNoData(pipe).message() == "rmux pipe '"@ + pipe
            + "' closed mid-handshake"@,
        StartupErrorView::PipeAccessDenied(pipe).message() == "rmux pipe '"@ + pipe
            + "' denied current user access"@,
        StartupErrorView::PipeIo(reason, pipe, source).message() == "rmux pipe '"@ + pipe
            + "' failed to "@ + reason + ": "@ + source.message,
        StartupErrorView::Launcher(source).message() == "rmux startup launcher failed: "@
            + source.message,
        StartupErrorView::StartupTimeout(pipe, waited).message() == "rmux startup timed out after "@
            + text::decimal(waited as nat) + "ms waiting for '"@ + pipe + "' to answer"@,
{
}

/// Another try cannot help where a name is bad, where access is denied, or where a
/// pipe fails in some other way; it may help in all other cases. What lies behind an
/// error is kept where there is something.
pub proof fn law_recoverable_errors(error: StartupErrorView)
    ensures
        error.recoverable() <==> !(error is InvalidPipeName || error is InvalidMutexName
            || error is MutexAccessDenied || error is PipeAccessDenied || error is PipeIo),
        error matches StartupErrorView::Mutex(_, source) ==> error.source() == Some(source),
        error matches StartupErrorView::MutexAccessDenied(_, source) ==> error.source() == Some(
            source,
        ),
        error matches StartupErrorView::PipeIo(_, _, source) ==> error.source() == Some(source),
        error matches StartupErrorView::Launcher(source) ==> error.source() == Some(source),
        !(error is Mutex || error is MutexAccessDenied || error is PipeIo || error is Launcher)
            ==> error.source() is None,
{
}

/// Whether a text begins with the place of pipes, in capital or small letters.
pub open spec fn is_pipe(name: Seq<char>) -> bool {
    &&& name.len() >= 9
    &&& name[0] == '\\' && name[1] == '\\' && name[2] == '.' && name[3] == '\\'
    &&& (name[4] == 'p' || name[4] == 'P') && (name[5] == 'i' || name[5] == 'I')
    &&& (name[6] == 'p' || name[6] == 'P') && (name[7] == 'e' || name[7] == 'E')
    &&& name[8] == '\\'
}

/// The place of pipes, as it is read.
proof fn lemma_pipe_prefix(name: Seq<char>)
    ensures
        has_pipe_prefix(name) <==> is_pipe(name),
{
    if name.len() >= 9 {
        let head = name.take(9);
        let low = text::lowercase(head);
        let want = crate::startup::pipe_prefix();
        law_lowercase(head);
        assert(want.len() == 9);
        assert forall|i: int| 0 <= i < 9 implies low[i] as int == if 65 <= name[i] as int <= 90 {
            name[i] as int + 32
        } else {
            name[i] as int
        } by {
            assert(head[i] == name[i]);
        }
        assert(low[0] as int == if 65 <= name[0] as int <= 90 {
            name[0] as int + 32
        } else {
            name[0] as int
        });
        if is_pipe(name) {
            assert forall|i: int| 0 <= i < 9 implies low[i] == want[i] by {
                assert(i == 0 || i == 1 || i == 2 || i == 3 || i == 4 || i == 5 || i == 6 || i == 7
                    || i == 8);
            }
            assert(low =~= want);
        }
        if low == want {
            assert(low[0] == '\\' && low[1] == '\\' && low[2] == '.' && low[3] == '\\');
            assert(low[4] == 'p' && low[5] == 'i' && low[6] == 'p' && low[7] == 'e');
            assert(low[8] == '\\');
        }
    }
}

/// A pipe must have a name, in the place of pipes, with a label behind it.
pub proof fn law_pipe_names(name: Seq<char>)
    ensures
        name.len() == 0 ==> bad_pipe(name) == Some(
            StartupErrorView::InvalidPipeName("pipe name was empty"@, name),
        ),
        name.len() > 0 && !is_pipe(name) ==> bad_pipe(name) == Some(
            StartupErrorView::InvalidPipeName(
                "pipe name must start with \"\\\\\\\\.\\\\pipe\\\\\""@,
                name,
            ),
        ),
        is_pipe(name) && last_component(name.skip(9)) is None ==> bad_pipe(name) == Some(
            StartupErrorView::InvalidPipeName("pipe name has no label component"@, name),
        ),
        is_pipe(name) && last_component(name.skip(9)) is Some ==> bad_pipe(name) is None,
{
    lemma_pipe_prefix(name);
}

/// The lock of a pipe is named after its label in small letters, where that is not
/// too long.
pub proof fn law_mutex_names(name: Seq<char>)
    ensures
        !is_pipe(name) ==> mutex_name(name) == Err::<Seq<char>, StartupErrorView>(
            StartupErrorView::InvalidPipeName(
                "pipe name must start with \"\\\\\\\\.\\\\pipe\\\\\""@,
                name,
            ),
        ),
        is_pipe(name) && name.len() == 9 ==> mutex_name(name) == Err::<
            Seq<char>,
            StartupErrorView,
        >(StartupErrorView::InvalidPipeName("pipe name has no label component"@, name)),
        is_pipe(name) && name.len() > 9 ==> {
            let lock = "Local\\rmux-startup-"@ + text::lowercase(name.skip(9));
            let size = text::bytes(lock).len();
            &&& size <= 260 ==> mutex_name(name) == Ok::<Seq<char>, StartupErrorView>(lock)
            &&& size > 260 ==> mutex_name(name) == Err::<Seq<char>, StartupErrorView>(
                StartupErrorView::InvalidMutexName(
                    "derived mutex name length "@ + text::decimal(size) + " exceeds 260"@,
                    name,
                ),
            )
        },
{
    lemma_pipe_prefix(name);
}

/// What the failures of a lock come to.
pub proof fn law_lock_failures(error: NamedMutexError, name: Seq<char>, deadline: u64)
    ensures
        error is TimedOut ==> mutex_failure(error, name, deadline)
            == StartupErrorView::MutexTimeout(name, deadline),
        error matches NamedMutexError::AccessDenied(source) ==> mutex_failure(error, name, deadline)
            == StartupErrorView::MutexAccessDenied(name, source@),
        error matches NamedMutexError::InvalidName { reason } ==> mutex_failure(
            error,
            name,
            deadline,
        ) == StartupErrorView::InvalidMutexName(reason@, name),
        error matches NamedMutexError::SecurityDescriptor(source) ==> mutex_failure(
            error,
            name,
            deadline,
        ) == StartupErrorView::Mutex(name, source@),
        error matches NamedMutexError::Create(source) ==> mutex_failure(error, name, deadline)
            == StartupErrorView::Mutex(name, source@),
        error matches NamedMutexError::Wait(source) ==> mutex_failure(error, name, deadline)
            == StartupErrorView::Mutex(name, source@),
{
}

/// A lock is had where its thread says so, and in no other case.
pub proof fn law_locks(thread: MutexThread, name: Seq<char>, deadline: u64)
    ensures
        lock_failure(thread, name, deadline) is None <==> (thread matches MutexThread::Reported(
            said,
        ) && said is Ok),
        thread matches MutexThread::NotStarted(source) ==> lock_failure(thread, name, deadline)
            == Some(StartupErrorView::Mutex(name, source@)),
        thread is Silent ==> lock_failure(thread, name, deadline) == Some(
            StartupErrorView::Mutex(
                name,
                FailureView {
                    code: None,
                    kind: IoKind::Other,
                    message: "startup mutex thread exited before reporting an outcome"@,
                },
            ),
        ),
        thread matches MutexThread::Reported(Err(error)) ==> lock_failure(thread, name, deadline)
            == Some(mutex_failure(error, name, deadline)),
{
}

/// What comes of a pipe that does not open: nothing is there, it is busy, it is
/// denied, or something else is wrong. The number of the system counts before the
/// kind of the failure.
pub proof fn law_pipes_that_do_not_open(error: FailureView, name: Seq<char>)
    ensures
        ({
            let code = error.code;
            let gone = code == Some(2i32) || code == Some(232i32) || code == Some(233i32);
            let known = gone || code == Some(231i32) || code == Some(5i32);
            let failure = connect_failure(error, name);
            &&& gone ==> failure is None
            &&& code == Some(231i32) ==> failure == Some(StartupErrorView::PipeBusy(name))
            &&& code == Some(5i32) ==> failure == Some(StartupErrorView::PipeAccessDenied(name))
            &&& !known ==> {
                &&& error.kind is NotFound || error.kind is ConnectionRefused ==> failure is None
                &&& error.kind is TimedOut ==> failure == Some(StartupErrorView::PipeBusy(name))
                &&& error.kind is PermissionDenied ==> failure == Some(
                    StartupErrorView::PipeAccessDenied(name),
                )
                &&& (error.kind is ConnectionReset || error.kind is BrokenPipe
                    || error.kind is UnexpectedEof || error.kind is Other) ==> failure == Some(
                    StartupErrorView::PipeIo("open named pipe"@, name, error),
                )
            }
        }),
{
}

/// What comes of a pipe that fails while it is tried: nothing is there, it is denied,
/// or something else is wrong.
pub proof fn law_pipes_that_fail(error: FailureView, operation: Seq<char>, name: Seq<char>)
    ensures
        ({
            let code = error.code;
            let gone = code == Some(109i32) || code == Some(233i32) || code == Some(232i32) || code
                == Some(2i32);
            let failure = probe_failure(error, operation, name);
            &&& gone ==> failure is None
            &&& code == Some(5i32) ==> failure == Some(StartupErrorView::PipeAccessDenied(name))
            &&& !gone && code != Some(5i32) ==> {
                &&& (error.kind is BrokenPipe || error.kind is ConnectionReset
                    || error.kind is NotFound || error.kind is TimedOut
                    || error.kind is UnexpectedEof) ==> failure is None
                &&& (error.kind is PermissionDenied || error.kind is ConnectionRefused
                    || error.kind is Other) ==> failure == Some(
                    StartupErrorView::PipeIo(operation, name, error),
                )
            }
        }),
{
}

/// How a pipe is tried: it is opened, given its two timeouts, sent a question, and
/// read until an answer is whole. Only the answer to the question shows that a server
/// is there.
pub proof fn law_probe_steps(event: ProbeEvent, name: Seq<char>)
    ensures
        match event {
            ProbeEvent::Opened(Ok(_)) => probe_next(event, name) == ProbeStepView::Go(
                ProbeStep::SetWriteTimeout,
            ),
            ProbeEvent::WriteTimeoutSet(Ok(_)) => probe_next(event, name) == ProbeStepView::Go(
                ProbeStep::SetReadTimeout,
            ),
            ProbeEvent::ReadTimeoutSet(Ok(_)) => probe_next(event, name) == ProbeStepView::Go(
                ProbeStep::Encode,
            ),
            ProbeEvent::Encoded(Ok(_)) => probe_next(event, name) == ProbeStepView::Go(
                ProbeStep::Send,
            ),
            ProbeEvent::Sent(Ok(_)) => probe_next(event, name) == ProbeStepView::Go(
                ProbeStep::Read,
            ),
            ProbeEvent::Read(Ok(n)) => {
                &&& n == 0 ==> probe_next(event, name) == ProbeStepView::Go(ProbeStep::Silent)
                &&& n > 0 ==> probe_next(event, name) == ProbeStepView::Go(ProbeStep::Decode)
            },
            ProbeEvent::Decoded(ProbeFrame::HasSession) => probe_next(event, name)
                == ProbeStepView::Go(ProbeStep::Responsive),
            ProbeEvent::Decoded(ProbeFrame::Incomplete) => probe_next(event, name)
                == ProbeStepView::Go(ProbeStep::Read),
            ProbeEvent::Decoded(ProbeFrame::Malformed) => probe_next(event, name)
                == ProbeStepView::Go(ProbeStep::Silent),
            ProbeEvent::Decoded(ProbeFrame::Unexpected(answer)) => probe_next(event, name)
                == ProbeStepView::Failed(
                StartupErrorView::PipeIo(
                    "validate probe response"@,
                    name,
                    FailureView {
                        code: None,
                        kind: IoKind::Other,
                        message: "unexpected startup probe response: "@ + answer@,
                    },
                ),
            ),
            ProbeEvent::Opened(Err(error)) => probe_next(event, name) == match connect_failure(
                error@,
                name,
            ) {
                Some(failure) => ProbeStepView::Failed(failure),
                None => ProbeStepView::Go(ProbeStep::Silent),
            },
            ProbeEvent::WriteTimeoutSet(Err(error)) => probe_next(event, name)
                == ProbeStepView::Failed(
                StartupErrorView::PipeIo("set probe write timeout"@, name, error@),
            ),
            ProbeEvent::ReadTimeoutSet(Err(error)) => probe_next(event, name)
                == ProbeStepView::Failed(
                StartupErrorView::PipeIo("set probe read timeout"@, name, error@),
            ),
            ProbeEvent::Encoded(Err(error)) => probe_next(event, name) == ProbeStepView::Failed(
                StartupErrorView::PipeIo("encode probe frame"@, name, error@),
            ),
            ProbeEvent::Sent(Err(error)) => probe_next(event, name) == match probe_failure(
                error@,
                "send probe frame"@,
                name,
            ) {
                Some(failure) => ProbeStepView::Failed(failure),
                None => ProbeStepView::Go(ProbeStep::Silent),
            },
            ProbeEvent::Read(Err(error)) => probe_next(event, name) == match probe_failure(
                error@,
                "read probe response"@,
                name,
            ) {
                Some(failure) => ProbeStepView::Failed(failure),
                None => ProbeStepView::Go(ProbeStep::Silent),
            },
        },
{
}

/// A wait lasts as long as it should, but a millisecond at the least, and no longer
/// than what is left of the time.
pub proof fn law_waits(elapsed: u64, deadline: u64, poll: u64)
    requires
        elapsed < deadline,
    ensures
        1 <= poll <= deadline - elapsed ==> poll_sleep(elapsed, deadline, poll) == poll,
        poll > deadline - elapsed ==> poll_sleep(elapsed, deadline, poll) == deadline - elapsed,
        poll == 0 ==> poll_sleep(elapsed, deadline, poll) == 1,
{
}

/// A server that answers is joined, unless it answers only after it was launched: that
/// one was started.
pub proof fn law_answering_servers_are_taken<S>(
    before: Startup,
    stream: S,
    elapsed: u64,
    next: StartupPhase,
    action: StartupAction<S>,
)
    requires
        advanced(before, StartupEvent::Probed(Ok(Some(stream))), elapsed, next, action),
    ensures
        next is Finished,
        before.phase is Probing || before.phase is Reprobing ==> action == StartupAction::Finish(
            Ok::<_, StartupError>(StartupOutcome::JoinedExisting(stream)),
        ),
        before.phase is Waiting ==> action == StartupAction::Finish(
            Ok::<_, StartupError>(StartupOutcome::Started(stream)),
        ),
{
}

/// Whether a start ends in an error.
pub open spec fn ends_in<S>(action: StartupAction<S>, error: StartupErrorView) -> bool {
    &&& action is Finish
    &&& action->Finish_0 is Err
    &&& action->Finish_0->Err_0@ == error
}

/// Where no server answers, the lock is taken and the pipe tried once more before a
/// server is launched; after that it is waited for until the time is up.
pub proof fn law_silent_servers_are_launched<S>(
    before: Startup,
    elapsed: u64,
    next: StartupPhase,
    action: StartupAction<S>,
)
    requires
        advanced(before, StartupEvent::Probed(Ok(None)), elapsed, next, action),
    ensures
        before.phase is Probing ==> match mutex_name(before.pipe_name@) {
            Ok(name) => next is Locking && action is Lock && action->Lock_0@ == name,
            Err(error) => next is Finished && ends_in(action, error),
        },
        before.phase is Reprobing ==> next is Launching && action is Launch,
        before.phase is Waiting && elapsed < before.deadline ==> {
            &&& next is Waiting
            &&& action == StartupAction::<S>::Sleep(
                poll_sleep(elapsed, before.deadline, before.poll),
            )
        },
        before.phase is Waiting && elapsed >= before.deadline ==> {
            &&& next is Finished
            &&& ends_in(action, StartupErrorView::StartupTimeout(before.pipe_name@, elapsed))
        },
{
}

/// A pipe that fails ends the start, except one that is busy while a launched server
/// is waited for.
pub proof fn law_failing_pipes_end_the_start<S>(
    before: Startup,
    error: StartupError,
    elapsed: u64,
    next: StartupPhase,
    action: StartupAction<S>,
)
    requires
        advanced(before, StartupEvent::Probed(Err(error)), elapsed, next, action),
    ensures
        !(before.phase is Waiting && error is PipeBusy) ==> next is Finished && ends_in(
            action,
            error@,
        ),
        (before.phase is Waiting && error is PipeBusy && elapsed < before.deadline)
            ==> next is Waiting && action is Sleep,
        (before.phase is Waiting && error is PipeBusy && elapsed >= before.deadline)
            ==> next is Finished && ends_in(
            action,
            StartupErrorView::StartupTimeout(before.pipe_name@, elapsed),
        ),
{
}

/// With the lock the pipe is tried again, and after the launch too; without either the
/// start ends.
pub proof fn law_locked_and_launched<S>(
    before: Startup,
    event: StartupEvent<S>,
    elapsed: u64,
    next: StartupPhase,
    action: StartupAction<S>,
)
    requires
        advanced(before, event, elapsed, next, action),
    ensures
        event matches StartupEvent::Locked(thread) ==> match lock_failure(
            thread,
            before.pipe_name@,
            before.deadline,
        ) {
            None => next is Reprobing && action is Probe,
            Some(error) => next is Finished && ends_in(action, error),
        },
        event matches StartupEvent::Launched(Ok(_)) ==> next is Waiting && action is Probe,
        event matches StartupEvent::Launched(Err(source)) ==> next is Finished && ends_in(
            action,
            StartupErrorView::Launcher(source@),
        ),
{
}

/// What each phase of a start waits for, and what a server is reached by.
pub proof fn law_awaited_events<S>(phase: StartupPhase, event: StartupEvent<S>, stream: S)
    ensures
        (phase is Probing || phase is Reprobing || phase is Waiting) ==> (awaited(phase, event)
            <==> event is Probed),
        phase is Locking ==> (awaited(phase, event) <==> event is Locked),
        phase is Launching ==> (awaited(phase, event) <==> event is Launched),
        phase is Finished ==> !awaited(phase, event),
        StartupOutcome::Started(stream).spec_stream() == stream,
        StartupOutcome::JoinedExisting(stream).spec_stream() == stream,
{
}

} // verus!
