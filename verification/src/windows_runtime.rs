//! The server on Windows, which answers the requests that need no session.
use vstd::prelude::*;

use crate::names::{session_not_found, ErrorView, ProtoError};
use crate::protocol::{
    ErrorResponse, HasSessionResponse, ListClientsResponse, ListWindowsResponse, OutputResponse,
    Request, Response,
};
use crate::response::{CommandOutput, ListPanesResponse};

verus! {

/// The answer to a request that needs a session.
pub const WINDOWS_RUNTIME_UNSUPPORTED: &'static str =
    "rmux-server accepts Windows IPC, but session runtime support is not enabled yet";

/// Nothing to print.
pub fn empty_output() -> (r: CommandOutput)
    ensures
        r@.len() == 0,
{
    CommandOutput::from_stdout(Vec::new())
}

/// The answer to a request that needs a session.
pub fn unsupported_response() -> (r: Response)
    ensures
        r matches Response::Error(answer) && answer.error@ == ErrorView::Server(
            WINDOWS_RUNTIME_UNSUPPORTED@,
        ),
{
    Response::Error(
        ErrorResponse { error: ProtoError::Server(WINDOWS_RUNTIME_UNSUPPORTED.to_owned()) },
    )
}

/// The answer to a request where there are no sessions.
pub open spec fn is_minimal_answer(request: Request, response: Response) -> bool {
    match request {
        Request::KillServer => response is KillServer,
        Request::HasSession(_) => response matches Response::HasSession(answer) && !answer.exists,
        Request::KillSession(asked) => response matches Response::Error(answer) && answer.error@
            == ErrorView::SessionNotFound(asked.target@),
        Request::ListSessions => response matches Response::ListSessions(answer)
            && answer.output@.len() == 0,
        Request::ListWindows(_) => response matches Response::ListWindows(answer)
            && answer.windows@.len() == 0 && answer.output@.len() == 0,
        Request::ListPanes(_) => response matches Response::ListPanes(answer)
            && answer.output@.len() == 0,
        Request::ListClients => response matches Response::ListClients(answer)
            && answer.output@.len() == 0 && answer.match_count == 0,
        _ => response matches Response::Error(answer) && answer.error@ == ErrorView::Server(
            WINDOWS_RUNTIME_UNSUPPORTED@,
        ),
    }
}

/// Answers a request; see [`is_minimal_answer`].
pub fn dispatch_minimal_windows_request(request: &Request) -> (r: Response)
    ensures
        is_minimal_answer(*request, r),
{
    match request {
        Request::KillServer => Response::KillServer,
        Request::HasSession(_) => Response::HasSession(HasSessionResponse { exists: false }),
        Request::KillSession(asked) => Response::Error(
            ErrorResponse { error: session_not_found(&asked.target) },
        ),
        Request::ListSessions => Response::ListSessions(OutputResponse { output: empty_output() }),
        Request::ListWindows(_) => Response::ListWindows(
            ListWindowsResponse { windows: Vec::new(), output: empty_output() },
        ),
        Request::ListPanes(_) => Response::ListPanes(ListPanesResponse { output: empty_output() }),
        Request::ListClients => Response::ListClients(
            ListClientsResponse { output: empty_output(), match_count: 0 },
        ),
        _ => unsupported_response(),
    }
}

/// What a connection does after a request: it writes the response, and where the
/// server is to end, it asks for that and closes.
#[derive(Debug, PartialEq, Eq)]
pub struct Served {
    /// The response.
    pub response: Response,
    /// Whether the server ends.
    pub shutdown: bool,
}

/// What a connection does after a request.
pub fn serve_connection(request: &Request) -> (r: Served)
    ensures
        is_minimal_answer(*request, r.response),
        r.shutdown == (*request is KillServer),
{
    let shutdown = match request {
        Request::KillServer => true,
        _ => false,
    };
    Served { response: dispatch_minimal_windows_request(request), shutdown }
}

/// What a connection does to get a request.
#[derive(Debug, PartialEq, Eq)]
pub enum ReadStep {
    /// There is a request.
    Serve(Request),
    /// More bytes are read.
    ReadMore,
    /// The response is written, and the connection closes.
    Refuse(Response),
    /// The connection closes.
    Close,
}

/// What a connection does to get a request, given what the bytes at hand decode
/// to.
pub fn read_request(decoded: Result<Option<Request>, ProtoError>) -> (r: ReadStep)
    ensures
        r == match decoded {
            Ok(Some(request)) => ReadStep::Serve(request),
            Ok(None) => ReadStep::ReadMore,
            Err(error) => ReadStep::Refuse(Response::Error(ErrorResponse { error })),
        },
{
    match decoded {
        Ok(Some(request)) => ReadStep::Serve(request),
        Ok(None) => ReadStep::ReadMore,
        Err(error) => ReadStep::Refuse(Response::Error(ErrorResponse { error })),
    }
}

/// What a connection does once bytes were read: none means that the other side
/// has closed; else they are decoded. The count is that of the bytes.
pub fn after_read(bytes_read: usize) -> (r: Option<ReadStep>)
    ensures
        r == if bytes_read == 0 {
            Some(ReadStep::Close)
        } else {
            None
        },
{
    if bytes_read == 0 {
        Some(ReadStep::Close)
    } else {
        None
    }
}

/// How the work on a connection ended.
#[derive(Debug, PartialEq, Eq)]
pub enum TaskEnd {
    /// It came to its end.
    Finished,
    /// It failed, with the error in words.
    Failed(String),
    /// It was broken off, with the reason in words.
    Broken(String),
}

impl TaskEnd {
    /// What is logged of it.
    pub open spec fn warning(self) -> Option<Seq<char>> {
        match self {
            TaskEnd::Finished => None,
            TaskEnd::Failed(error) => Some("windows connection error: "@ + error@),
            TaskEnd::Broken(error) => Some("windows connection task failed: "@ + error@),
        }
    }
}

/// What is logged of the work on a connection.
pub fn log_connection_task_result(result: &TaskEnd) -> (r: Option<String>)
    ensures
        r.deep_view() == result.warning(),
{
    match result {
        TaskEnd::Finished => None,
        TaskEnd::Failed(error) => {
            let mut out = "windows connection error: ".to_owned();
            out.append(error);
            Some(out)
        },
        TaskEnd::Broken(error) => {
            let mut out = "windows connection task failed: ".to_owned();
            out.append(error);
            Some(out)
        },
    }
}

/// The answer to a request depends on the request alone: nothing that was asked
/// before changes it.
pub proof fn law_answers_are_alike(request: Request, first: Response, second: Response)
    requires
        is_minimal_answer(request, first),
        is_minimal_answer(request, second),
    ensures
        first is Error <==> second is Error,
        first.spec_output() == second.spec_output(),
        first matches Response::Error(a) ==> (second matches Response::Error(b) && a.error@
            == b.error@),
{
    if let Some(a) = first.spec_output() {
        if let Some(b) = second.spec_output() {
            assert(a =~= b);
        }
    }
}

} // verus!
