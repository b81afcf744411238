//! The client side of a connection: the requests that it sends, and control mode.
use vstd::prelude::*;

use crate::names::Target;
use crate::protocol::{
    ClientTerminalContext, ControlMode, ControlModeRequest, ControlModeResponse,
    DisplayMessageRequest, Request, Response, ShowMessagesRequest,
};
use crate::startup::{in_words, IoFailure};
use crate::text;

verus! {

/// What opens the output of a client in control mode.
pub const CONTROL_CONTROL_START: &'static str = "\u{1b}P1000p";

/// What closes the output of a client in control mode.
pub const CONTROL_CONTROL_END: &'static str = "\u{1b}\\";

/// A connection to the server, as the requests that go out on it in order.
#[derive(Debug, PartialEq, Eq)]
pub struct Connection {
    /// The requests.
    pub sent: Vec<Request>,
}

/// A connection that waits for the answer to its request for control mode.
#[derive(Debug, PartialEq, Eq)]
pub struct PendingUpgrade {
    /// The requests that went out on the connection.
    pub sent: Vec<Request>,
}

/// A connection in control mode.
#[derive(Debug, PartialEq, Eq)]
pub struct ControlModeUpgrade {
    /// What the server answered.
    pub response: ControlModeResponse,
}

/// What came of a request for control mode.
#[derive(Debug, PartialEq, Eq)]
pub enum ControlTransition {
    /// Control mode is on.
    Upgraded(ControlModeUpgrade),
    /// The server answered something else.
    Rejected(Response),
}

impl Connection {
    /// A connection on which nothing has been sent.
    pub fn new() -> (r: Self)
        ensures
            r.sent@.len() == 0,
    {
        Connection { sent: Vec::new() }
    }

    /// Sends a `display-message` request. Its answer is the next response.
    pub fn display_message(&mut self, target: Option<Target>, print: bool, message: Option<String>)
        ensures
            final(self).sent@ == old(self).sent@.push(
                Request::DisplayMessage(DisplayMessageRequest { target, print, message }),
            ),
    {
        self.sent.push(Request::DisplayMessage(DisplayMessageRequest { target, print, message }));
    }

    /// Sends a `show-messages` request. Its answer is the next response.
    pub fn show_messages(&mut self, jobs: bool, terminals: bool, target_client: Option<String>)
        ensures
            final(self).sent@ == old(self).sent@.push(
                Request::ShowMessages(ShowMessagesRequest { jobs, terminals, target_client }),
            ),
    {
        self.sent.push(
            Request::ShowMessages(ShowMessagesRequest { jobs, terminals, target_client }),
        );
    }

    /// Asks for control mode. Nothing else can be sent until the answer is there.
    pub fn begin_control_mode(
        self,
        mode: ControlMode,
        client_terminal: ClientTerminalContext,
    ) -> (r: PendingUpgrade)
        ensures
            r.sent@ == self.sent@.push(
                Request::ControlMode(ControlModeRequest { mode, client_terminal }),
            ),
    {
        let mut sent = self.sent;
        sent.push(Request::ControlMode(ControlModeRequest { mode, client_terminal }));
        PendingUpgrade { sent }
    }
}

impl PendingUpgrade {
    /// Takes the answer: control mode is on if and only if the server says so.
    pub fn receive(self, response: Response) -> (r: ControlTransition)
        ensures
            r == match response {
                Response::ControlMode(response) => ControlTransition::Upgraded(
                    ControlModeUpgrade { response },
                ),
                other => ControlTransition::Rejected(other),
            },
    {
        match response {
            Response::ControlMode(response) => ControlTransition::Upgraded(
                ControlModeUpgrade { response },
            ),
            other => ControlTransition::Rejected(other),
        }
    }
}

/// Whether the output of control mode is closed with a sequence.
pub fn output_needs_suffix(mode: ControlMode) -> (r: bool)
    ensures
        r == (mode is ControlControl),
{
    mode.is_control_control()
}

/// What a client in control mode writes before anything else.
pub open spec fn opening(mode: ControlMode) -> Seq<u8> {
    if mode is ControlControl {
        text::bytes(CONTROL_CONTROL_START@)
    } else {
        Seq::empty()
    }
}

/// What a client in control mode writes behind everything else, given whether it
/// could copy all that the server sent.
pub open spec fn closing(mode: ControlMode, copied: bool) -> Seq<u8> {
    if mode is ControlControl && copied {
        text::bytes(CONTROL_CONTROL_END@)
    } else {
        Seq::empty()
    }
}

/// Computes [`opening`].
pub fn control_output_start(mode: ControlMode) -> (r: Vec<u8>)
    ensures
        r@ == opening(mode),
{
    if mode.is_control_control() {
        text::to_bytes(CONTROL_CONTROL_START)
    } else {
        Vec::new()
    }
}

/// The bytes of commands, each on a line of its own.
pub open spec fn command_lines(commands: Seq<Seq<char>>) -> Seq<u8>
    decreases commands.len(),
{
    if commands.len() == 0 {
        Seq::empty()
    } else {
        (command_lines(commands.drop_last()) + text::bytes(commands.last())).push(0x0a)
    }
}

/// The bytes that a client in control mode sends first: its commands, each on a
/// line of its own.
pub fn write_initial_commands(initial_commands: &Vec<String>) -> (r: Vec<u8>)
    ensures
        r@ == command_lines(initial_commands.deep_view()),
{
    let ghost all = initial_commands.deep_view();
    let mut out: Vec<u8> = Vec::new();
    let mut i: usize = 0;
    assert(all.take(0).len() == 0);
    while i < initial_commands.len()
        invariant
            i <= initial_commands@.len(),
            all == initial_commands.deep_view(),
            out@ == command_lines(all.take(i as int)),
        decreases initial_commands.len() - i,
    {
        let ghost before = out@;
        assert(all.take(i + 1).drop_last() =~= all.take(i as int));
        assert(all.take(i + 1).last() == initial_commands@[i as int]@);
        let line = text::to_bytes(&initial_commands[i]);
        out.extend_from_slice(line.as_slice());
        assert(out@ =~= before + line@);
        out.push(0x0a);
        i = i + 1;
    }
    assert(all.take(i as int) =~= all);
    out
}

/// What a look at the thread that copies the input shows.
#[derive(Debug, PartialEq, Eq)]
pub enum InputPoll {
    /// The input has ended, with this result.
    Finished(Result<(), IoFailure>),
    /// There may be more input.
    Running,
    /// The thread is gone without a result.
    Lost,
}

/// What a look at the thread that copies the input means: a result, none yet, or
/// an error where the thread is gone without one.
pub fn poll_input_thread(poll: InputPoll) -> (r: Result<Option<Result<(), IoFailure>>, IoFailure>)
    ensures
        match poll {
            InputPoll::Finished(result) => r == Ok::<Option<Result<(), IoFailure>>, IoFailure>(
                Some(result),
            ),
            InputPoll::Running => r == Ok::<Option<Result<(), IoFailure>>, IoFailure>(None),
            InputPoll::Lost => r matches Err(failure) && failure@ == in_words(
                "control input thread terminated unexpectedly"@,
            ),
        },
{
    match poll {
        InputPoll::Finished(result) => Ok(Some(result)),
        InputPoll::Running => Ok(None),
        InputPoll::Lost => Err(IoFailure::other("control input thread terminated unexpectedly")),
    }
}

/// What is left to do once the server has sent its last.
#[derive(Debug, PartialEq, Eq)]
pub struct ControlFinish {
    /// What is written to the output.
    pub suffix: Vec<u8>,
    /// Whether the thread that copied the input is joined.
    pub join_input: bool,
    /// What came of copying the output.
    pub copy_result: Result<(), IoFailure>,
    /// What came of the input, where it has ended.
    pub input_result: Option<Result<(), IoFailure>>,
}

/// What a client in control mode does once the server has sent its last, or could
/// not be read any more. It does not wait for its input to end.
pub fn finish_control_mode(
    mode: ControlMode,
    copy_result: Result<(), IoFailure>,
    poll: InputPoll,
) -> (r: Result<ControlFinish, IoFailure>)
    ensures
        match poll {
            InputPoll::Lost => r matches Err(failure) && failure@ == in_words(
                "control input thread terminated unexpectedly"@,
            ),
            InputPoll::Running => r matches Ok(finish) && !finish.join_input
                && finish.input_result is None && finish.copy_result == copy_result
                && finish.suffix@ == closing(mode, copy_result is Ok),
            InputPoll::Finished(result) => r matches Ok(finish) && finish.join_input
                && finish.input_result == Some(result) && finish.copy_result == copy_result
                && finish.suffix@ == closing(mode, copy_result is Ok),
        },
{
    let input_result = match poll_input_thread(poll) {
        Ok(result) => result,
        Err(failure) => {
            return Err(failure);
        },
    };
    let suffix = if copy_result.is_ok() && output_needs_suffix(mode) {
        text::to_bytes(CONTROL_CONTROL_END)
    } else {
        Vec::new()
    };
    let join_input = input_result.is_some();
    Ok(ControlFinish { suffix, join_input, copy_result, input_result })
}

impl ControlFinish {
    /// What control mode ends with, given whether the thread that copied the input
    /// came to its end where it was joined: a failed thread counts before a failed
    /// output, and that before a failed input.
    pub fn conclude(self, joined: bool) -> (r: Result<(), IoFailure>)
        ensures
            if self.join_input && !joined {
                r matches Err(failure) && failure@ == in_words("control input thread panicked"@)
            } else {
                match self.copy_result {
                    Err(failure) => r == Err::<(), IoFailure>(failure),
                    Ok(_) => match self.input_result {
                        Some(result) => r == result,
                        None => r is Ok,
                    },
                }
            },
    {
        if self.join_input && !joined {
            return Err(IoFailure::other("control input thread panicked"));
        }
        match self.copy_result {
            Err(failure) => Err(failure),
            Ok(_) => match self.input_result {
                Some(result) => result,
                None => Ok(()),
            },
        }
    }
}

/// What a client in control mode writes in all, where it copied everything that
/// the server sent.
pub open spec fn control_output(mode: ControlMode, sent: Seq<u8>) -> Seq<u8> {
    opening(mode) + sent + closing(mode, true)
}

/// In the mode that asks for it, what the server sends stands between the start
/// and the end sequence; in the other, it is passed on as it is.
pub proof fn law_output_is_wrapped(mode: ControlMode, sent: Seq<u8>)
    ensures
        mode is Plain ==> control_output(mode, sent) == sent,
        mode is ControlControl ==> {
            let start = text::bytes(CONTROL_CONTROL_START@);
            let end = text::bytes(CONTROL_CONTROL_END@);
            let all = control_output(mode, sent);
            &&& all.take(start.len() as int) == start
            &&& all.skip(all.len() - end.len()) == end
            &&& all.subrange(start.len() as int, all.len() - end.len()) == sent
        },
{
    let start = text::bytes(CONTROL_CONTROL_START@);
    let end = text::bytes(CONTROL_CONTROL_END@);
    let all = control_output(mode, sent);
    if mode is Plain {
        assert(all =~= sent);
    } else {
        assert(all.take(start.len() as int) =~= start);
        assert(all.skip(all.len() - end.len()) =~= end);
        assert(all.subrange(start.len() as int, all.len() - end.len()) =~= sent);
    }
}

} // verus!
