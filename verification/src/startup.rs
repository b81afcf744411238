//! Starting the daemon behind a named pipe, so that of several callers at most
//! one starts it.
use vstd::prelude::*;

use crate::paths::{has_file_name, last_component};
use crate::text;

verus! {

/// What every pipe name begins with, in any case.
pub const PIPE_PREFIX: &'static str = "\\\\.\\pipe\\";

/// What the name of every startup mutex begins with.
pub const STARTUP_MUTEX_PREFIX: &'static str = "Local\\rmux-startup-";

/// How many bytes the name of a mutex can have.
pub const MAX_NAMED_MUTEX_LEN: usize = 260;

/// The session name that a probe asks for.
pub const PROBE_SESSION_NAME: &'static str = "__rmux_startup_probe__";

/// How long a caller waits for the daemon that it started, in milliseconds.
pub const DEFAULT_STARTUP_DEADLINE: u64 = 5000;

/// How long a caller waits between two probes, in milliseconds.
pub const STARTUP_POLL_INTERVAL: u64 = 50;

/// The system code for a file that does not exist.
pub const ERROR_FILE_NOT_FOUND: i32 = 2;

/// The system code for access that is denied.
pub const ERROR_ACCESS_DENIED: i32 = 5;

/// The system code for a pipe that was broken.
pub const ERROR_BROKEN_PIPE: i32 = 109;

/// The system code for a pipe with no free instance.
pub const ERROR_PIPE_BUSY: i32 = 231;

/// The system code for a pipe that is being closed.
pub const ERROR_NO_DATA: i32 = 232;

/// The system code for a pipe with nobody at the other end.
pub const ERROR_PIPE_NOT_CONNECTED: i32 = 233;

/// What kind of failure an input or output operation had.
#[derive(Debug, Clone, Copy, PartialEq, Eq, Structural)]
pub enum IoKind {
    /// Something was not found.
    NotFound,
    /// Access was denied.
    PermissionDenied,
    /// A connection was refused.
    ConnectionRefused,
    /// A connection was reset.
    ConnectionReset,
    /// A pipe was broken.
    BrokenPipe,
    /// Time ran out.
    TimedOut,
    /// The data ended early.
    UnexpectedEof,
    /// Anything else.
    Other,
}

/// A failure of an input or output operation.
#[derive(Debug, PartialEq, Eq)]
pub struct IoFailure {
    /// The code of the system, where it gave one.
    pub code: Option<i32>,
    /// What kind of failure it was.
    pub kind: IoKind,
    /// The failure in words.
    pub message: String,
}

/// The mathematical value of an [`IoFailure`].
pub struct FailureView {
    /// The code of the system, where it gave one.
    pub code: Option<i32>,
    /// What kind of failure it was.
    pub kind: IoKind,
    /// The failure in words.
    pub message: Seq<char>,
}

impl View for IoFailure {
    type V = FailureView;

    open spec fn view(&self) -> FailureView {
        FailureView { code: self.code, kind: self.kind, message: self.message@ }
    }
}

/// A failure that is known in words only.
pub open spec fn in_words(message: Seq<char>) -> FailureView {
    FailureView { code: None, kind: IoKind::Other, message }
}

impl IoFailure {
    /// A failure that is known in words only.
    pub fn other(message: &str) -> (r: IoFailure)
        ensures
            r@ == in_words(message@),
    {
        IoFailure { code: None, kind: IoKind::Other, message: message.to_owned() }
    }
}

/// The way in which a caller came to its daemon.
#[derive(Debug, PartialEq, Eq)]
pub enum StartupOutcome<S> {
    /// The caller started the daemon that it is connected to.
    Started(S),
    /// The caller found the daemon that it is connected to.
    JoinedExisting(S),
}

impl<S> StartupOutcome<S> {
    /// The connection.
    pub open spec fn spec_stream(self) -> S {
        match self {
            StartupOutcome::Started(stream) => stream,
            StartupOutcome::JoinedExisting(stream) => stream,
        }
    }

    /// The connection.
    pub fn into_stream(self) -> (r: S)
        ensures
            r == self.spec_stream(),
    {
        match self {
            StartupOutcome::Started(stream) => stream,
            StartupOutcome::JoinedExisting(stream) => stream,
        }
    }

    /// Whether the caller is the one that started the daemon.
    pub fn is_owner(&self) -> (r: bool)
        ensures
            r == (self is Started),
    {
        matches!(self, StartupOutcome::Started(_))
    }
}

/// Why a daemon could not be reached or started.
#[derive(Debug, PartialEq, Eq)]
pub enum StartupError {
    /// The pipe name is not one.
    InvalidPipeName {
        /// Why not.
        reason: String,
        /// The pipe name.
        pipe_name: String,
    },
    /// No mutex can have the name that belongs to the pipe.
    InvalidMutexName {
        /// Why not.
        reason: String,
        /// The pipe name.
        pipe_name: String,
    },
    /// The mutex could not be made or waited for.
    Mutex {
        /// The pipe name.
        pipe_name: String,
        /// What failed.
        source: IoFailure,
    },
    /// Another process held the mutex for too long.
    MutexTimeout {
        /// The pipe name.
        pipe_name: String,
        /// The wait in milliseconds.
        waited: u64,
    },
    /// Another user holds the mutex.
    MutexAccessDenied {
        /// The pipe name.
        pipe_name: String,
        /// What failed.
        source: IoFailure,
    },
    /// No instance of the pipe was free.
    PipeBusy {
        /// The pipe name.
        pipe_name: String,
    },
    /// Nobody serves the pipe.
    PipeNotFound {
        /// The pipe name.
        pipe_name: String,
    },
    /// The pipe was closed during the handshake.
    PipeNoData {
        /// The pipe name.
        pipe_name: String,
    },
    /// The pipe does not admit this user.
    PipeAccessDenied {
        /// The pipe name.
        pipe_name: String,
    },
    /// The pipe failed in another way.
    PipeIo {
        /// What was being done.
        operation: &'static str,
        /// The pipe name.
        pipe_name: String,
        /// What failed.
        source: IoFailure,
    },
    /// The daemon could not be launched.
    Launcher {
        /// What failed.
        source: IoFailure,
    },
    /// The daemon did not answer in time.
    StartupTimeout {
        /// The pipe name.
        pipe_name: String,
        /// The wait in milliseconds.
        waited: u64,
    },
}

/// The mathematical value of a [`StartupError`].
pub enum StartupErrorView {
    /// The pipe name is not one.
    InvalidPipeName(Seq<char>, Seq<char>),
    /// No mutex can have the name that belongs to the pipe.
    InvalidMutexName(Seq<char>, Seq<char>),
    /// The mutex could not be made or waited for.
    Mutex(Seq<char>, FailureView),
    /// Another process held the mutex for too long.
    MutexTimeout(Seq<char>, u64),
    /// Another user holds the mutex.
    MutexAccessDenied(Seq<char>, FailureView),
    /// No instance of the pipe was free.
    PipeBusy(Seq<char>),
    /// Nobody serves the pipe.
    PipeNotFound(Seq<char>),
    /// The pipe was closed during the handshake.
    PipeNoData(Seq<char>),
    /// The pipe does not admit this user.
    PipeAccessDenied(Seq<char>),
    /// The pipe failed in another way.
    PipeIo(Seq<char>, Seq<char>, FailureView),
    /// The daemon could not be launched.
    Launcher(FailureView),
    /// The daemon did not answer in time.
    StartupTimeout(Seq<char>, u64),
}

impl View for StartupError {
    type V = StartupErrorView;

    open spec fn view(&self) -> StartupErrorView {
        match *self {
            StartupError::InvalidPipeName { reason, pipe_name } => {
                StartupErrorView::InvalidPipeName(reason@, pipe_name@)
            },
            StartupError::InvalidMutexName { reason, pipe_name } => {
                StartupErrorView::InvalidMutexName(reason@, pipe_name@)
            },
            StartupError::Mutex { pipe_name, source } => {
                StartupErrorView::Mutex(pipe_name@, source@)
            },
            StartupError::MutexTimeout { pipe_name, waited } => {
                StartupErrorView::MutexTimeout(pipe_name@, waited)
            },
            StartupError::MutexAccessDenied { pipe_name, source } => {
                StartupErrorView::MutexAccessDenied(pipe_name@, source@)
            },
            StartupError::PipeBusy { pipe_name } => StartupErrorView::PipeBusy(pipe_name@),
            StartupError::PipeNotFound { pipe_name } => StartupErrorView::PipeNotFound(pipe_name@),
            StartupError::PipeNoData { pipe_name } => StartupErrorView::PipeNoData(pipe_name@),
            StartupError::PipeAccessDenied { pipe_name } => {
                StartupErrorView::PipeAccessDenied(pipe_name@)
            },
            StartupError::PipeIo { operation, pipe_name, source } => {
                StartupErrorView::PipeIo(operation@, pipe_name@, source@)
            },
            StartupError::Launcher { source } => StartupErrorView::Launcher(source@),
            StartupError::StartupTimeout { pipe_name, waited } => {
                StartupErrorView::StartupTimeout(pipe_name@, waited)
            },
        }
    }
}

impl StartupErrorView {
    /// Whether a caller that meets the error may try again.
    pub open spec fn recoverable(self) -> bool {
        ||| self is Mutex
        ||| self is MutexTimeout
        ||| self is PipeBusy
        ||| self is PipeNotFound
        ||| self is PipeNoData
        ||| self is Launcher
        ||| self is StartupTimeout
    }

    /// The error in words.
    pub open spec fn message(self) -> Seq<char> {
        match self {
            StartupErrorView::InvalidPipeName(reason, pipe) => "rmux startup rejected pipe '"@
                + pipe + "': "@ + reason,
            StartupErrorView::InvalidMutexName(reason, pipe) => {
                "rmux startup rejected mutex name for '"@ + pipe + "': "@ + reason
            },
            StartupErrorView::Mutex(pipe, source) => "rmux startup mutex for '"@ + pipe
                + "' failed: "@ + source.message,
            StartupErrorView::MutexTimeout(pipe, waited) => "rmux startup mutex for '"@ + pipe
                + "' timed out after "@ + text::decimal(waited as nat) + "ms"@,
            StartupErrorView::MutexAccessDenied(pipe, source) => "rmux startup mutex for '"@ + pipe
                + "' denied for current user: "@ + source.message,
            StartupErrorView::PipeBusy(pipe) => "rmux pipe '"@ + pipe
                + "' is busy on every instance"@,
            StartupErrorView::PipeNotFound(pipe) => "rmux pipe '"@ + pipe
                + "' is not currently served"@,
            StartupErrorView::PipeNoData(pipe) => "rmux pipe '"@ + pipe
                + "' closed mid-handshake"@,
            StartupErrorView::PipeAccessDenied(pipe) => "rmux pipe '"@ + pipe
                + "' denied current user access"@,
            StartupErrorView::PipeIo(operation, pipe, source) => "rmux pipe '"@ + pipe
                + "' failed to "@ + operation + ": "@ + source.message,
            StartupErrorView::Launcher(source) => "rmux startup launcher failed: "@
                + source.message,
            StartupErrorView::StartupTimeout(pipe, waited) => "rmux startup timed out after "@
                + text::decimal(waited as nat) + "ms waiting for '"@ + pipe + "' to answer"@,
        }
    }

    /// The failure that led to the error, where one did.
    pub open spec fn source(self) -> Option<FailureView> {
        match self {
            StartupErrorView::Mutex(_, source) => Some(source),
            StartupErrorView::MutexAccessDenied(_, source) => Some(source),
            StartupErrorView::PipeIo(_, _, source) => Some(source),
            StartupErrorView::Launcher(source) => Some(source),
            _ => None,
        }
    }
}

/// Puts a pipe name between two pieces of text.
fn around(before: &str, pipe_name: &str, after: &str) -> (r: String)
    ensures
        r@ == before@ + pipe_name@ + after@,
{
    let mut out = before.to_owned();
    out.append(pipe_name);
    out.append(after);
    out
}

impl StartupError {
    /// Whether a caller that meets the error may try again.
    pub fn is_recoverable(&self) -> (r: bool)
        ensures
            r == self@.recoverable(),
    {
        matches!(
            self,
            StartupError::Mutex { .. }
                | StartupError::MutexTimeout { .. }
                | StartupError::PipeBusy { .. }
                | StartupError::PipeNotFound { .. }
                | StartupError::PipeNoData { .. }
                | StartupError::Launcher { .. }
                | StartupError::StartupTimeout { .. }
        )
    }

    /// The error in words.
    pub fn message(&self) -> (r: String)
        ensures
            r@ == self@.message(),
    {
        match self {
            StartupError::InvalidPipeName { reason, pipe_name } => {
                let mut out = around("rmux startup rejected pipe '", pipe_name, "': ");
                out.append(reason);
                out
            },
            StartupError::InvalidMutexName { reason, pipe_name } => {
                let mut out = around("rmux startup rejected mutex name for '", pipe_name, "': ");
                out.append(reason);
                out
            },
            StartupError::Mutex { pipe_name, source } => {
                let mut out = around("rmux startup mutex for '", pipe_name, "' failed: ");
                out.append(&source.message);
                out
            },
            StartupError::MutexTimeout { pipe_name, waited } => {
                let mut out = around("rmux startup mutex for '", pipe_name, "' timed out after ");
                let number = text::decimal_of(*waited);
                out.append(&number);
                out.append("ms");
                out
            },
            StartupError::MutexAccessDenied { pipe_name, source } => {
                let mut out = around(
                    "rmux startup mutex for '",
                    pipe_name,
                    "' denied for current user: ",
                );
                out.append(&source.message);
                out
            },
            StartupError::PipeBusy { pipe_name } => around(
                "rmux pipe '",
                pipe_name,
                "' is busy on every instance",
            ),
            StartupError::PipeNotFound { pipe_name } => around(
                "rmux pipe '",
                pipe_name,
                "' is not currently served",
            ),
            StartupError::PipeNoData { pipe_name } => around(
                "rmux pipe '",
                pipe_name,
                "' closed mid-handshake",
            ),
            StartupError::PipeAccessDenied { pipe_name } => around(
                "rmux pipe '",
                pipe_name,
                "' denied current user access",
            ),
            StartupError::PipeIo { operation, pipe_name, source } => {
                let mut out = around("rmux pipe '", pipe_name, "' failed to ");
                out.append(operation);
                out.append(": ");
                out.append(&source.message);
                out
            },
            StartupError::Launcher { source } => {
                let mut out = "rmux startup launcher failed: ".to_owned();
                out.append(&source.message);
                out
            },
            StartupError::StartupTimeout { pipe_name, waited } => {
                let mut out = "rmux startup timed out after ".to_owned();
                let number = text::decimal_of(*waited);
                out.append(&number);
                out.append("ms waiting for '");
                out.append(pipe_name);
                out.append("' to answer");
                out
            },
        }
    }

    /// The failure that led to the error, where one did.
    pub fn source(&self) -> (r: Option<&IoFailure>)
        ensures
            match r {
                Some(source) => self@.source() == Some(source@),
                None => self@.source() is None,
            },
    {
        match self {
            StartupError::Mutex { source, .. } => Some(source),
            StartupError::MutexAccessDenied { source, .. } => Some(source),
            StartupError::PipeIo { source, .. } => Some(source),
            StartupError::Launcher { source } => Some(source),
            _ => None,
        }
    }
}

/// What every pipe name begins with, in small letters.
pub open spec fn pipe_prefix() -> Seq<char> {
    seq!['\\', '\\', '.', '\\', 'p', 'i', 'p', 'e', '\\']
}

/// Whether a name begins as pipe names do, in any case.
pub open spec fn has_pipe_prefix(name: Seq<char>) -> bool {
    name.len() >= 9 && text::lowercase(name.take(9)) == pipe_prefix()
}

/// The error for a name that is not that of a pipe.
pub open spec fn bad_pipe(name: Seq<char>) -> Option<StartupErrorView> {
    if name.len() == 0 {
        Some(StartupErrorView::InvalidPipeName("pipe name was empty"@, name))
    } else if !has_pipe_prefix(name) {
        Some(
            StartupErrorView::InvalidPipeName(
                "pipe name must start with \"\\\\\\\\.\\\\pipe\\\\\""@,
                name,
            ),
        )
    } else if last_component(name.skip(9)) is None {
        Some(StartupErrorView::InvalidPipeName("pipe name has no label component"@, name))
    } else {
        None
    }
}

/// Whether a name begins as pipe names do.
fn starts_as_pipe(chars: &Vec<char>) -> (r: bool)
    ensures
        r == has_pipe_prefix(chars@),
{
    if chars.len() < 9 {
        return false;
    }
    let head = text::from_range(chars, 0, 9);
    let word = text::to_lower(&head);
    proof {
        reveal_strlit("\\\\.\\pipe\\");
        assert("\\\\.\\pipe\\"@ =~= pipe_prefix());
        assert(chars@.subrange(0, 9) =~= chars@.take(9));
    }
    text::str_eq(&word, PIPE_PREFIX)
}

/// Whether a name is that of a pipe; see [`bad_pipe`].
pub fn validate_pipe_name(pipe_name: &str) -> (r: Result<(), StartupError>)
    ensures
        match bad_pipe(pipe_name@) {
            Some(error) => r is Err && r->Err_0@ == error,
            None => r is Ok,
        },
{
    if pipe_name.is_empty() {
        return Err(
            StartupError::InvalidPipeName {
                reason: "pipe name was empty".to_owned(),
                pipe_name: pipe_name.to_owned(),
            },
        );
    }
    let chars = text::to_chars(pipe_name);
    if !starts_as_pipe(&chars) {
        return Err(
            StartupError::InvalidPipeName {
                reason: "pipe name must start with \"\\\\\\\\.\\\\pipe\\\\\"".to_owned(),
                pipe_name: pipe_name.to_owned(),
            },
        );
    }
    let label = text::to_chars(&text::from_range(&chars, 9, chars.len()));
    assert(label@ =~= pipe_name@.skip(9));
    if !has_file_name(&label) {
        return Err(
            StartupError::InvalidPipeName {
                reason: "pipe name has no label component".to_owned(),
                pipe_name: pipe_name.to_owned(),
            },
        );
    }
    Ok(())
}

/// The name of the mutex that guards a pipe, or why it has none. The label is
/// in small letters, as pipe names mean the same in any case and mutex names do
/// not.
pub open spec fn mutex_name(name: Seq<char>) -> Result<Seq<char>, StartupErrorView> {
    if !has_pipe_prefix(name) {
        Err(
            StartupErrorView::InvalidPipeName(
                "pipe name must start with \"\\\\\\\\.\\\\pipe\\\\\""@,
                name,
            ),
        )
    } else if name.len() == 9 {
        Err(StartupErrorView::InvalidPipeName("pipe name has no label component"@, name))
    } else {
        let candidate = STARTUP_MUTEX_PREFIX@ + text::lowercase(name.skip(9));
        let size = text::bytes(candidate).len();
        if size > MAX_NAMED_MUTEX_LEN {
            Err(
                StartupErrorView::InvalidMutexName(
                    "derived mutex name length "@ + text::decimal(size) + " exceeds 260"@,
                    name,
                ),
            )
        } else {
            Ok(candidate)
        }
    }
}

/// The name of the mutex that guards a pipe; see [`mutex_name`].
pub fn startup_mutex_name(pipe_name: &str) -> (r: Result<String, StartupError>)
    ensures
        match mutex_name(pipe_name@) {
            Ok(name) => r is Ok && r->Ok_0@ == name,
            Err(error) => r is Err && r->Err_0@ == error,
        },
{
    let chars = text::to_chars(pipe_name);
    if !starts_as_pipe(&chars) {
        return Err(
            StartupError::InvalidPipeName {
                reason: "pipe name must start with \"\\\\\\\\.\\\\pipe\\\\\"".to_owned(),
                pipe_name: pipe_name.to_owned(),
            },
        );
    }
    if chars.len() == 9 {
        return Err(
            StartupError::InvalidPipeName {
                reason: "pipe name has no label component".to_owned(),
                pipe_name: pipe_name.to_owned(),
            },
        );
    }
    let label = text::from_range(&chars, 9, chars.len());
    assert(label@ =~= pipe_name@.skip(9));
    let label_lower = text::to_lower(&label);
    let mut candidate = STARTUP_MUTEX_PREFIX.to_owned();
    candidate.append(&label_lower);
    let size: usize = text::to_bytes(&candidate).len();
    if size > MAX_NAMED_MUTEX_LEN {
        let mut reason = "derived mutex name length ".to_owned();
        let number = text::decimal_of(size as u64);
        reason.append(&number);
        reason.append(" exceeds 260");
        return Err(
            StartupError::InvalidMutexName { reason, pipe_name: pipe_name.to_owned() },
        );
    }
    Ok(candidate)
}

/// Two pipe names that differ in case only are guarded by the same mutex, or
/// refused for the same reason.
pub proof fn law_mutex_ignores_case(a: Seq<char>, b: Seq<char>)
    requires
        text::lowercase(a) == text::lowercase(b),
    ensures
        match mutex_name(a) {
            Ok(name) => mutex_name(b) == Ok::<Seq<char>, StartupErrorView>(name),
            Err(StartupErrorView::InvalidPipeName(reason, _)) => mutex_name(b) == Err::<
                Seq<char>,
                StartupErrorView,
            >(StartupErrorView::InvalidPipeName(reason, b)),
            Err(StartupErrorView::InvalidMutexName(reason, _)) => mutex_name(b) == Err::<
                Seq<char>,
                StartupErrorView,
            >(StartupErrorView::InvalidMutexName(reason, b)),
            Err(_) => false,
        },
{
    assert(a.len() == text::lowercase(a).len());
    assert(b.len() == text::lowercase(b).len());
    if a.len() >= 9 {
        assert(text::lowercase(a.take(9)) =~= text::lowercase(a).take(9));
        assert(text::lowercase(b.take(9)) =~= text::lowercase(b).take(9));
        assert(text::lowercase(a.skip(9)) =~= text::lowercase(a).skip(9));
        assert(text::lowercase(b.skip(9)) =~= text::lowercase(b).skip(9));
    }
}

/// Why a mutex could not be had.
#[derive(Debug, PartialEq, Eq)]
pub enum NamedMutexError {
    /// The wait ran out.
    TimedOut,
    /// Another user holds it.
    AccessDenied(IoFailure),
    /// The name cannot be used.
    InvalidName {
        /// Why not.
        reason: String,
    },
    /// Its access rules could not be made.
    SecurityDescriptor(IoFailure),
    /// It could not be made.
    Create(IoFailure),
    /// It could not be waited for.
    Wait(IoFailure),
}

/// The startup error for a mutex error.
pub open spec fn mutex_failure(error: NamedMutexError, name: Seq<char>, deadline: u64) -> StartupErrorView {
    match error {
        NamedMutexError::TimedOut => StartupErrorView::MutexTimeout(name, deadline),
        NamedMutexError::AccessDenied(source) => StartupErrorView::MutexAccessDenied(name, source@),
        NamedMutexError::InvalidName { reason } => StartupErrorView::InvalidMutexName(
            reason@,
            name,
        ),
        NamedMutexError::SecurityDescriptor(source) => StartupErrorView::Mutex(name, source@),
        NamedMutexError::Create(source) => StartupErrorView::Mutex(name, source@),
        NamedMutexError::Wait(source) => StartupErrorView::Mutex(name, source@),
    }
}

/// The startup error for a mutex error.
pub fn map_named_mutex_error(error: NamedMutexError, pipe_name: &str, deadline: u64) -> (r:
    StartupError)
    ensures
        r@ == mutex_failure(error, pipe_name@, deadline),
{
    let pipe_name = pipe_name.to_owned();
    match error {
        NamedMutexError::TimedOut => StartupError::MutexTimeout { pipe_name, waited: deadline },
        NamedMutexError::AccessDenied(source) => StartupError::MutexAccessDenied {
            pipe_name,
            source,
        },
        NamedMutexError::InvalidName { reason } => StartupError::InvalidMutexName {
            reason,
            pipe_name,
        },
        NamedMutexError::SecurityDescriptor(source) => StartupError::Mutex { pipe_name, source },
        NamedMutexError::Create(source) => StartupError::Mutex { pipe_name, source },
        NamedMutexError::Wait(source) => StartupError::Mutex { pipe_name, source },
    }
}

/// What a failure to connect means: that nobody serves the pipe, or an error.
/// The code of the system counts before the kind of the failure.
pub open spec fn connect_failure(error: FailureView, name: Seq<char>) -> Option<StartupErrorView> {
    let code = error.code;
    if code == Some(ERROR_FILE_NOT_FOUND) || code == Some(ERROR_NO_DATA) || code == Some(
        ERROR_PIPE_NOT_CONNECTED,
    ) {
        None
    } else if code == Some(ERROR_PIPE_BUSY) {
        Some(StartupErrorView::PipeBusy(name))
    } else if code == Some(ERROR_ACCESS_DENIED) {
        Some(StartupErrorView::PipeAccessDenied(name))
    } else {
        match error.kind {
            IoKind::NotFound | IoKind::ConnectionRefused => None,
            IoKind::TimedOut => Some(StartupErrorView::PipeBusy(name)),
            IoKind::PermissionDenied => Some(StartupErrorView::PipeAccessDenied(name)),
            _ => Some(StartupErrorView::PipeIo("open named pipe"@, name, error)),
        }
    }
}

/// What came of the thread that waits for the mutex.
#[derive(Debug, PartialEq, Eq)]
pub enum MutexThread {
    /// It could not be started.
    NotStarted(IoFailure),
    /// It ended without a word.
    Silent,
    /// It had the mutex, or not.
    Reported(Result<(), NamedMutexError>),
}

/// Why the mutex was not had, where it was not.
pub open spec fn lock_failure(thread: MutexThread, name: Seq<char>, deadline: u64) -> Option<
    StartupErrorView,
> {
    match thread {
        MutexThread::NotStarted(source) => Some(StartupErrorView::Mutex(name, source@)),
        MutexThread::Silent => Some(
            StartupErrorView::Mutex(
                name,
                in_words("startup mutex thread exited before reporting an outcome"@),
            ),
        ),
        MutexThread::Reported(Ok(_)) => None,
        MutexThread::Reported(Err(error)) => Some(mutex_failure(error, name, deadline)),
    }
}

/// Whether the mutex was had; see [`lock_failure`].
pub fn acquire_startup_mutex(thread: MutexThread, pipe_name: &str, deadline: u64) -> (r: Result<
    (),
    StartupError,
>)
    ensures
        match lock_failure(thread, pipe_name@, deadline) {
            Some(error) => r is Err && r->Err_0@ == error,
            None => r is Ok,
        },
{
    match thread {
        MutexThread::NotStarted(source) => Err(
            StartupError::Mutex { pipe_name: pipe_name.to_owned(), source },
        ),
        MutexThread::Silent => Err(
            StartupError::Mutex {
                pipe_name: pipe_name.to_owned(),
                source: IoFailure::other(
                    "startup mutex thread exited before reporting an outcome",
                ),
            },
        ),
        MutexThread::Reported(Ok(())) => Ok(()),
        MutexThread::Reported(Err(error)) => Err(
            map_named_mutex_error(error, pipe_name, deadline),
        ),
    }
}

/// A mutex that a thread of its own holds: `R` tells it to let go, and `T` is the
/// thread.
#[derive(Debug, PartialEq, Eq)]
pub struct StartupMutexHolder<R, T> {
    /// What tells the thread to let go.
    pub release: Option<R>,
    /// The thread.
    pub thread: Option<T>,
}

impl<R, T> StartupMutexHolder<R, T> {
    /// Lets go of the mutex: the thread, where there still is one, is told to let
    /// go, and then waited for. A second time there is nothing left to do.
    pub fn release(&mut self) -> (r: (Option<R>, Option<T>))
        ensures
            r == (old(self).release, old(self).thread),
            final(self).release is None,
            final(self).thread is None,
    {
        (self.release.take(), self.thread.take())
    }
}

/// What a failure to connect means; see [`connect_failure`].
pub fn classify_connect_error(error: IoFailure, pipe_name: &str) -> (r: Result<(), StartupError>)
    ensures
        match connect_failure(error@, pipe_name@) {
            Some(e) => r is Err && r->Err_0@ == e,
            None => r is Ok,
        },
{
    if let Some(code) = error.code {
        if code == ERROR_FILE_NOT_FOUND {
            return Ok(());
        }
        if code == ERROR_PIPE_BUSY {
            return Err(StartupError::PipeBusy { pipe_name: pipe_name.to_owned() });
        }
        if code == ERROR_NO_DATA || code == ERROR_PIPE_NOT_CONNECTED {
            return Ok(());
        }
        if code == ERROR_ACCESS_DENIED {
            return Err(StartupError::PipeAccessDenied { pipe_name: pipe_name.to_owned() });
        }
    }
    match error.kind {
        IoKind::NotFound | IoKind::ConnectionRefused => Ok(()),
        IoKind::TimedOut => Err(StartupError::PipeBusy { pipe_name: pipe_name.to_owned() }),
        IoKind::PermissionDenied => Err(
            StartupError::PipeAccessDenied { pipe_name: pipe_name.to_owned() },
        ),
        _ => Err(
            StartupError::PipeIo {
                operation: "open named pipe",
                pipe_name: pipe_name.to_owned(),
                source: error,
            },
        ),
    }
}

/// What a failure during a probe means: that nobody serves the pipe any more,
/// or an error. The code of the system counts before the kind of the failure.
pub open spec fn probe_failure(error: FailureView, operation: Seq<char>, name: Seq<char>) -> Option<
    StartupErrorView,
> {
    let code = error.code;
    if code == Some(ERROR_BROKEN_PIPE) || code == Some(ERROR_PIPE_NOT_CONNECTED) || code == Some(
        ERROR_NO_DATA,
    ) || code == Some(ERROR_FILE_NOT_FOUND) {
        None
    } else if code == Some(ERROR_ACCESS_DENIED) {
        Some(StartupErrorView::PipeAccessDenied(name))
    } else {
        match error.kind {
            IoKind::BrokenPipe
            | IoKind::ConnectionReset
            | IoKind::NotFound
            | IoKind::TimedOut
            | IoKind::UnexpectedEof => None,
            _ => Some(StartupErrorView::PipeIo(operation, name, error)),
        }
    }
}

/// What a failure during a probe means; see [`probe_failure`].
pub fn classify_io_error(error: IoFailure, operation: &'static str, pipe_name: &str) -> (r: Result<
    (),
    StartupError,
>)
    ensures
        match probe_failure(error@, operation@, pipe_name@) {
            Some(e) => r is Err && r->Err_0@ == e,
            None => r is Ok,
        },
{
    if let Some(code) = error.code {
        if code == ERROR_BROKEN_PIPE || code == ERROR_PIPE_NOT_CONNECTED || code == ERROR_NO_DATA
            || code == ERROR_FILE_NOT_FOUND {
            return Ok(());
        }
        if code == ERROR_ACCESS_DENIED {
            return Err(StartupError::PipeAccessDenied { pipe_name: pipe_name.to_owned() });
        }
    }
    match error.kind {
        IoKind::BrokenPipe
        | IoKind::ConnectionReset
        | IoKind::NotFound
        | IoKind::TimedOut
        | IoKind::UnexpectedEof => Ok(()),
        _ => Err(
            StartupError::PipeIo { operation, pipe_name: pipe_name.to_owned(), source: error },
        ),
    }
}

/// What the bytes that a probe has read so far hold.
#[derive(Debug, PartialEq, Eq)]
pub enum ProbeFrame {
    /// The answer that a daemon gives.
    HasSession,
    /// Another answer, in words.
    Unexpected(String),
    /// Not enough yet.
    Incomplete,
    /// Nothing that can be understood.
    Malformed,
}

/// What happened to a probe.
#[derive(Debug, PartialEq, Eq)]
pub enum ProbeEvent {
    /// The pipe was opened, or not.
    Opened(Result<(), IoFailure>),
    /// The write timeout was set, or not.
    WriteTimeoutSet(Result<(), IoFailure>),
    /// The read timeout was set, or not.
    ReadTimeoutSet(Result<(), IoFailure>),
    /// The question was encoded, or not.
    Encoded(Result<(), IoFailure>),
    /// The question was sent, or not.
    Sent(Result<(), IoFailure>),
    /// Some bytes were read, none at the end, or reading failed.
    Read(Result<usize, IoFailure>),
    /// The bytes read so far were looked at.
    Decoded(ProbeFrame),
}

/// What a probe does next.
#[derive(Debug, PartialEq, Eq)]
pub enum ProbeStep {
    /// Set the write timeout.
    SetWriteTimeout,
    /// Set the read timeout.
    SetReadTimeout,
    /// Encode the question.
    Encode,
    /// Send the question.
    Send,
    /// Read more bytes.
    Read,
    /// Look at the bytes read so far.
    Decode,
    /// End: a daemon answers.
    Responsive,
    /// End: no daemon answers.
    Silent,
    /// End with an error.
    Failed(StartupError),
}

/// What a probe is to do next.
pub enum ProbeStepView {
    /// Go on in one of these ways.
    Go(ProbeStep),
    /// End with an error.
    Failed(StartupErrorView),
}

impl View for ProbeStep {
    type V = ProbeStepView;

    open spec fn view(&self) -> ProbeStepView {
        match *self {
            ProbeStep::Failed(error) => ProbeStepView::Failed(error@),
            step => ProbeStepView::Go(step),
        }
    }
}

/// Ends as a failure is to be understood.
pub open spec fn unless(failure: Option<StartupErrorView>) -> ProbeStepView {
    match failure {
        Some(error) => ProbeStepView::Failed(error),
        None => ProbeStepView::Go(ProbeStep::Silent),
    }
}

/// What a probe is to do after an event.
pub open spec fn probe_next(event: ProbeEvent, name: Seq<char>) -> ProbeStepView {
    match event {
        ProbeEvent::Opened(Ok(_)) => ProbeStepView::Go(ProbeStep::SetWriteTimeout),
        ProbeEvent::Opened(Err(error)) => unless(connect_failure(error@, name)),
        ProbeEvent::WriteTimeoutSet(Ok(_)) => ProbeStepView::Go(ProbeStep::SetReadTimeout),
        ProbeEvent::WriteTimeoutSet(Err(error)) => pipe_io("set probe write timeout"@, name, error@),
        ProbeEvent::ReadTimeoutSet(Ok(_)) => ProbeStepView::Go(ProbeStep::Encode),
        ProbeEvent::ReadTimeoutSet(Err(error)) => pipe_io("set probe read timeout"@, name, error@),
        ProbeEvent::Encoded(Ok(_)) => ProbeStepView::Go(ProbeStep::Send),
        ProbeEvent::Encoded(Err(error)) => pipe_io("encode probe frame"@, name, error@),
        ProbeEvent::Sent(Ok(_)) => ProbeStepView::Go(ProbeStep::Read),
        ProbeEvent::Sent(Err(error)) => unless(probe_failure(error@, "send probe frame"@, name)),
        ProbeEvent::Read(Ok(count)) => if count == 0 {
            ProbeStepView::Go(ProbeStep::Silent)
        } else {
            ProbeStepView::Go(ProbeStep::Decode)
        },
        ProbeEvent::Read(Err(error)) => unless(
            probe_failure(error@, "read probe response"@, name),
        ),
        ProbeEvent::Decoded(ProbeFrame::HasSession) => ProbeStepView::Go(ProbeStep::Responsive),
        ProbeEvent::Decoded(ProbeFrame::Incomplete) => ProbeStepView::Go(ProbeStep::Read),
        ProbeEvent::Decoded(ProbeFrame::Malformed) => ProbeStepView::Go(ProbeStep::Silent),
        ProbeEvent::Decoded(ProbeFrame::Unexpected(answer)) => pipe_io(
            "validate probe response"@,
            name,
            in_words("unexpected startup probe response: "@ + answer@),
        ),
    }
}

/// The end of a probe in an error of the pipe.
pub open spec fn pipe_io(operation: Seq<char>, name: Seq<char>, source: FailureView) -> ProbeStepView {
    ProbeStepView::Failed(StartupErrorView::PipeIo(operation, name, source))
}

/// Ends a probe in an error of the pipe; see [`pipe_io`].
fn pipe_io_step(operation: &'static str, pipe_name: &str, source: IoFailure) -> (r: ProbeStep)
    ensures
        r@ == pipe_io(operation@, pipe_name@, source@),
{
    ProbeStep::Failed(
        StartupError::PipeIo { operation, pipe_name: pipe_name.to_owned(), source },
    )
}

/// Ends a probe as a failure has been understood.
fn silent_unless(verdict: Result<(), StartupError>) -> (r: ProbeStep)
    ensures
        r@ == match verdict {
            Ok(_) => ProbeStepView::Go(ProbeStep::Silent),
            Err(error) => ProbeStepView::Failed(error@),
        },
{
    match verdict {
        Ok(()) => ProbeStep::Silent,
        Err(error) => ProbeStep::Failed(error),
    }
}

/// Decides what a probe does next: it opens the pipe, sets two timeouts, asks
/// for a session and reads until it has an answer.
pub fn probe_blocking(event: ProbeEvent, pipe_name: &str) -> (r: ProbeStep)
    ensures
        r@ == probe_next(event, pipe_name@),
{
    match event {
        ProbeEvent::Opened(Ok(())) => ProbeStep::SetWriteTimeout,
        ProbeEvent::Opened(Err(error)) => silent_unless(classify_connect_error(error, pipe_name)),
        ProbeEvent::WriteTimeoutSet(Ok(())) => ProbeStep::SetReadTimeout,
        ProbeEvent::WriteTimeoutSet(Err(error)) => pipe_io_step(
            "set probe write timeout",
            pipe_name,
            error,
        ),
        ProbeEvent::ReadTimeoutSet(Ok(())) => ProbeStep::Encode,
        ProbeEvent::ReadTimeoutSet(Err(error)) => pipe_io_step(
            "set probe read timeout",
            pipe_name,
            error,
        ),
        ProbeEvent::Encoded(Ok(())) => ProbeStep::Send,
        ProbeEvent::Encoded(Err(error)) => pipe_io_step("encode probe frame", pipe_name, error),
        ProbeEvent::Sent(Ok(())) => ProbeStep::Read,
        ProbeEvent::Sent(Err(error)) => silent_unless(
            classify_io_error(error, "send probe frame", pipe_name),
        ),
        ProbeEvent::Read(Ok(count)) => if count == 0 {
            ProbeStep::Silent
        } else {
            ProbeStep::Decode
        },
        ProbeEvent::Read(Err(error)) => silent_unless(
            classify_io_error(error, "read probe response", pipe_name),
        ),
        ProbeEvent::Decoded(ProbeFrame::HasSession) => ProbeStep::Responsive,
        ProbeEvent::Decoded(ProbeFrame::Incomplete) => ProbeStep::Read,
        ProbeEvent::Decoded(ProbeFrame::Malformed) => ProbeStep::Silent,
        ProbeEvent::Decoded(ProbeFrame::Unexpected(answer)) => {
            let mut message = "unexpected startup probe response: ".to_owned();
            message.append(&answer);
            pipe_io_step("validate probe response", pipe_name, IoFailure::other(&message))
        },
    }
}

/// What a probe that ran on its own comes to; where its thread failed, in words,
/// that is an error.
pub fn probe_responsive<S>(
    joined: Result<Result<Option<S>, StartupError>, String>,
    pipe_name: &str,
) -> (r: Result<Option<S>, StartupError>)
    ensures
        match joined {
            Ok(probed) => r == probed,
            Err(error) => r matches Err(e) && e@ == StartupErrorView::PipeIo(
                "join probe task"@,
                pipe_name@,
                in_words("startup probe join failed: "@ + error@),
            ),
        },
{
    match joined {
        Ok(probed) => probed,
        Err(error) => {
            let mut message = "startup probe join failed: ".to_owned();
            message.append(&error);
            Err(
                StartupError::PipeIo {
                    operation: "join probe task",
                    pipe_name: pipe_name.to_owned(),
                    source: IoFailure::other(&message),
                },
            )
        },
    }
}

/// What a caller that waits for its daemon does next.
#[derive(Debug, PartialEq, Eq)]
pub enum WaitStep<S> {
    /// End: the daemon answers.
    Ready(S),
    /// Probe again after some milliseconds.
    Sleep(u64),
    /// End with an error.
    Failed(StartupError),
}

/// How long to sleep before the next probe: the poll interval, at least one
/// millisecond, and no longer than what is left.
pub open spec fn poll_sleep(elapsed: u64, deadline: u64, poll: u64) -> u64 {
    let least = if poll < 1 {
        1
    } else {
        poll
    };
    let left = (deadline - elapsed) as u64;
    if least < left {
        least
    } else {
        left
    }
}

/// Decides what a caller that waits for its daemon does after a probe. That no
/// instance of the pipe was free is no reason to give up.
pub fn wait_for_daemon<S>(
    probed: Result<Option<S>, StartupError>,
    elapsed: u64,
    deadline: u64,
    poll: u64,
    pipe_name: &str,
) -> (r: WaitStep<S>)
    ensures
        match probed {
            Ok(Some(stream)) => r == WaitStep::Ready(stream),
            _ => if probed matches Err(error) && !(error is PipeBusy) {
                r == WaitStep::<S>::Failed(probed->Err_0)
            } else if elapsed >= deadline {
                r matches WaitStep::Failed(e) && e@ == StartupErrorView::StartupTimeout(
                    pipe_name@,
                    elapsed,
                )
            } else {
                r == WaitStep::<S>::Sleep(poll_sleep(elapsed, deadline, poll))
            },
        },
{
    match probed {
        Ok(Some(stream)) => {
            return WaitStep::Ready(stream);
        },
        Ok(None) => {},
        Err(StartupError::PipeBusy { .. }) => {},
        Err(error) => {
            return WaitStep::Failed(error);
        },
    }
    if elapsed >= deadline {
        return WaitStep::Failed(
            StartupError::StartupTimeout { pipe_name: pipe_name.to_owned(), waited: elapsed },
        );
    }
    let least: u64 = if poll < 1 {
        1
    } else {
        poll
    };
    let left: u64 = deadline - elapsed;
    WaitStep::Sleep(
        if least < left {
            least
        } else {
            left
        },
    )
}

/// A caller that sleeps sleeps at least a millisecond and not past its deadline.
pub proof fn law_sleep_is_bounded(elapsed: u64, deadline: u64, poll: u64)
    requires
        elapsed < deadline,
    ensures
        1 <= poll_sleep(elapsed, deadline, poll),
        elapsed + poll_sleep(elapsed, deadline, poll) <= deadline,
{
}

/// How far a caller has come.
#[derive(Debug, Clone, Copy, PartialEq, Eq, Structural)]
pub enum StartupPhase {
    /// It looks for a daemon.
    Probing,
    /// It waits for the mutex.
    Locking,
    /// It looks again, with the mutex.
    Reprobing,
    /// It launches the daemon, with the mutex.
    Launching,
    /// It waits for the daemon, with the mutex.
    Waiting,
    /// It is done.
    Finished,
}

impl StartupPhase {
    /// How many phases come before.
    pub open spec fn rank(self) -> int {
        match self {
            StartupPhase::Probing => 0,
            StartupPhase::Locking => 1,
            StartupPhase::Reprobing => 2,
            StartupPhase::Launching => 3,
            StartupPhase::Waiting => 4,
            StartupPhase::Finished => 5,
        }
    }

    /// Whether the mutex is held.
    pub open spec fn holds_mutex(self) -> bool {
        self is Reprobing || self is Launching || self is Waiting
    }

    /// Whether one phase can come right after another.
    pub open spec fn leads_to(self, next: StartupPhase) -> bool {
        ||| next is Finished && !(self is Finished)
        ||| next.rank() == self.rank() + 1
        ||| self is Waiting && next is Waiting
    }
}

/// What a caller has learnt.
#[derive(Debug, PartialEq, Eq)]
pub enum StartupEvent<S> {
    /// A probe ended.
    Probed(Result<Option<S>, StartupError>),
    /// The mutex was had, or not.
    Locked(MutexThread),
    /// The daemon was launched, or not.
    Launched(Result<(), IoFailure>),
}

/// What a caller does next.
#[derive(Debug, PartialEq, Eq)]
pub enum StartupAction<S> {
    /// Probe.
    Probe,
    /// Wait for the mutex with this name.
    Lock(String),
    /// Launch the daemon.
    Launch,
    /// Sleep for some milliseconds, and probe.
    Sleep(u64),
    /// End, and let go of the mutex.
    Finish(Result<StartupOutcome<S>, StartupError>),
}

/// A caller that wants a daemon.
#[derive(Debug)]
pub struct Startup {
    /// The pipe of the daemon.
    pub pipe_name: String,
    /// How far the caller has come.
    pub phase: StartupPhase,
    /// How long it waits at most, in milliseconds.
    pub deadline: u64,
    /// How long it waits between two probes, in milliseconds.
    pub poll: u64,
}

/// Whether an event is one that a phase waits for.
pub open spec fn awaited<S>(phase: StartupPhase, event: StartupEvent<S>) -> bool {
    match phase {
        StartupPhase::Probing | StartupPhase::Reprobing | StartupPhase::Waiting => event is Probed,
        StartupPhase::Locking => event is Locked,
        StartupPhase::Launching => event is Launched,
        StartupPhase::Finished => false,
    }
}

/// Whether an action ends a caller in this error.
pub open spec fn fails<S>(action: StartupAction<S>, error: StartupErrorView) -> bool {
    action matches StartupAction::Finish(Err(e)) && e@ == error
}

/// What a caller does after an event: the phase that it goes to, and the action
/// that it takes.
pub open spec fn advanced<S>(
    before: Startup,
    event: StartupEvent<S>,
    elapsed: u64,
    next: StartupPhase,
    action: StartupAction<S>,
) -> bool {
    match event {
        StartupEvent::Probed(Ok(Some(stream))) => {
            &&& next is Finished
            &&& action == StartupAction::Finish(
                Ok::<_, StartupError>(
                    if before.phase is Waiting {
                        StartupOutcome::Started(stream)
                    } else {
                        StartupOutcome::JoinedExisting(stream)
                    },
                ),
            )
        },
        StartupEvent::Probed(Ok(None)) => match before.phase {
            StartupPhase::Probing => match mutex_name(before.pipe_name@) {
                Ok(name) => next is Locking && (action matches StartupAction::Lock(n) && n@ == name),
                Err(error) => next is Finished && fails(action, error),
            },
            StartupPhase::Reprobing => next is Launching && action is Launch,
            _ => waits_on(before, elapsed, next, action),
        },
        StartupEvent::Probed(Err(error)) => if before.phase is Waiting && error is PipeBusy {
            waits_on(before, elapsed, next, action)
        } else {
            next is Finished && fails(action, error@)
        },
        StartupEvent::Locked(thread) => match lock_failure(
            thread,
            before.pipe_name@,
            before.deadline,
        ) {
            None => next is Reprobing && action is Probe,
            Some(error) => next is Finished && fails(action, error),
        },
        StartupEvent::Launched(Ok(_)) => next is Waiting && action is Probe,
        StartupEvent::Launched(Err(source)) => next is Finished && fails(
            action,
            StartupErrorView::Launcher(source@),
        ),
    }
}

/// What a caller does that waits on for its daemon.
pub open spec fn waits_on<S>(
    before: Startup,
    elapsed: u64,
    next: StartupPhase,
    action: StartupAction<S>,
) -> bool {
    if elapsed >= before.deadline {
        next is Finished && fails(
            action,
            StartupErrorView::StartupTimeout(before.pipe_name@, elapsed),
        )
    } else {
        next is Waiting && action == StartupAction::<S>::Sleep(
            poll_sleep(elapsed, before.deadline, before.poll),
        )
    }
}

/// A caller that wants the daemon of a pipe, with the usual waits.
pub fn connect_or_start(pipe_name: &str) -> (r: Result<Startup, StartupError>)
    ensures
        match bad_pipe(pipe_name@) {
            Some(error) => r is Err && r->Err_0@ == error,
            None => {
                &&& r is Ok
                &&& r->Ok_0.pipe_name@ == pipe_name@
                &&& r->Ok_0.phase is Probing
                &&& r->Ok_0.deadline == DEFAULT_STARTUP_DEADLINE
                &&& r->Ok_0.poll == STARTUP_POLL_INTERVAL
            },
        },
{
    connect_or_start_with(
        pipe_name,
        DEFAULT_STARTUP_DEADLINE,
        STARTUP_POLL_INTERVAL,
    )
}

/// A caller that wants the daemon of a pipe. It probes first.
pub fn connect_or_start_with(pipe_name: &str, deadline: u64, poll: u64) -> (r: Result<
    Startup,
    StartupError,
>)
    ensures
        match bad_pipe(pipe_name@) {
            Some(error) => r is Err && r->Err_0@ == error,
            None => {
                &&& r is Ok
                &&& r->Ok_0.pipe_name@ == pipe_name@
                &&& r->Ok_0.phase is Probing
                &&& r->Ok_0.deadline == deadline
                &&& r->Ok_0.poll == poll
            },
        },
{
    match validate_pipe_name(pipe_name) {
        Err(error) => Err(error),
        Ok(()) => Ok(
            Startup {
                pipe_name: pipe_name.to_owned(),
                phase: StartupPhase::Probing,
                deadline,
                poll,
            },
        ),
    }
}

impl Startup {
    /// Takes an event in and decides what to do next. `elapsed` is how long the
    /// caller has waited since the launch, in milliseconds.
    pub fn advance<S>(&mut self, event: StartupEvent<S>, elapsed: u64) -> (r: StartupAction<S>)
        requires
            awaited(old(self).phase, event),
        ensures
            advanced(*old(self), event, elapsed, final(self).phase, r),
            *final(self) == (Startup { phase: final(self).phase, ..*old(self) }),
            old(self).phase.leads_to(final(self).phase),
            r is Launch ==> old(self).phase is Reprobing && final(self).phase is Launching,
    {
        match event {
            StartupEvent::Probed(probed) => match self.phase {
                StartupPhase::Waiting => {
                    match wait_for_daemon(
                        probed,
                        elapsed,
                        self.deadline,
                        self.poll,
                        &self.pipe_name,
                    ) {
                        WaitStep::Ready(stream) => {
                            self.phase = StartupPhase::Finished;
                            StartupAction::Finish(Ok(StartupOutcome::Started(stream)))
                        },
                        WaitStep::Sleep(time) => StartupAction::Sleep(time),
                        WaitStep::Failed(error) => {
                            self.phase = StartupPhase::Finished;
                            StartupAction::Finish(Err(error))
                        },
                    }
                },
                _ => match probed {
                    Ok(Some(stream)) => {
                        self.phase = StartupPhase::Finished;
                        StartupAction::Finish(Ok(StartupOutcome::JoinedExisting(stream)))
                    },
                    Err(error) => {
                        self.phase = StartupPhase::Finished;
                        StartupAction::Finish(Err(error))
                    },
                    Ok(None) => if self.phase == StartupPhase::Probing {
                        match startup_mutex_name(&self.pipe_name) {
                            Ok(name) => {
                                self.phase = StartupPhase::Locking;
                                StartupAction::Lock(name)
                            },
                            Err(error) => {
                                self.phase = StartupPhase::Finished;
                                StartupAction::Finish(Err(error))
                            },
                        }
                    } else {
                        self.phase = StartupPhase::Launching;
                        StartupAction::Launch
                    },
                },
            },
            StartupEvent::Locked(thread) => match acquire_startup_mutex(
                thread,
                &self.pipe_name,
                self.deadline,
            ) {
                Ok(()) => {
                    self.phase = StartupPhase::Reprobing;
                    StartupAction::Probe
                },
                Err(error) => {
                    self.phase = StartupPhase::Finished;
                    StartupAction::Finish(Err(error))
                },
            },
            StartupEvent::Launched(Ok(())) => {
                self.phase = StartupPhase::Waiting;
                StartupAction::Probe
            },
            StartupEvent::Launched(Err(source)) => {
                self.phase = StartupPhase::Finished;
                StartupAction::Finish(Err(StartupError::Launcher { source }))
            },
        }
    }
}

/// Whether phases follow each other as those of one caller do.
pub open spec fn is_run(run: Seq<StartupPhase>) -> bool {
    forall|i: int|
        0 <= i < run.len() - 1 ==> (#[trigger] run[i]).leads_to(run[i + 1])
}

/// Whether a caller launches the daemon in its step number `i`.
pub open spec fn launches_at(run: Seq<StartupPhase>, i: int) -> bool {
    0 <= i < run.len() - 1 && run[i] is Reprobing && run[i + 1] is Launching
}

/// A caller never goes back.
proof fn lemma_run_goes_on(run: Seq<StartupPhase>, i: int, j: int)
    requires
        is_run(run),
        0 <= i <= j < run.len(),
    ensures
        run[i].rank() <= run[j].rank(),
    decreases j - i,
{
    if i < j {
        lemma_run_goes_on(run, i, j - 1);
        assert(run[j - 1].leads_to(run[j - 1 + 1]));
    }
}

/// A caller launches the daemon at most once.
pub proof fn law_launch_happens_once(run: Seq<StartupPhase>, i: int, j: int)
    requires
        is_run(run),
        launches_at(run, i),
        launches_at(run, j),
    ensures
        i == j,
{
    if i < j {
        lemma_run_goes_on(run, i + 1, j);
    } else if j < i {
        lemma_run_goes_on(run, j + 1, i);
    }
}

/// A caller that launches the daemon holds the mutex, and has held it since
/// before it looked for a daemon the last time.
pub proof fn law_launch_needs_mutex(run: Seq<StartupPhase>, i: int)
    requires
        is_run(run),
        run.len() > 0,
        run[0] is Probing,
        launches_at(run, i),
    ensures
        run[i].holds_mutex(),
        run[i + 1].holds_mutex(),
        i > 0,
        run[i - 1] is Locking,
{
    assert(i > 0);
    assert(run[i - 1].leads_to(run[i - 1 + 1]));
}

} // verus!
