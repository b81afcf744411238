//! Streams of the output of a pane: its raw bytes, and its lines.
//!
//! A stream is driven from outside: it says which request to send or how long to
//! wait, and takes in what came back.
use std::collections::VecDeque;

use vstd::prelude::*;

use crate::error::RmuxError;
use crate::names::{ErrorView, PaneTarget, ProtoError};
use crate::protocol::{
    PaneOutputCursorRequest, PaneOutputEvent, PaneOutputLagNotice, PaneOutputSubscriptionStart,
    RecentOutput, Request, Response, SubscribePaneOutputRequest, UnsubscribePaneOutputRequest,
};
use crate::text;

verus! {

/// How many events are asked for at once.
pub const PANE_OUTPUT_BATCH_SIZE: u16 = 256;

/// The first wait between two polls, in milliseconds.
pub const POLL_INITIAL_DELAY: u64 = 2;

/// The longest wait between two polls, in milliseconds.
pub const POLL_MAX_DELAY: u64 = 50;

/// Where a stream begins.
#[derive(Debug, Clone, Copy, PartialEq, Eq, Hash, Structural)]
#[non_exhaustive]
pub enum PaneOutputStart {
    /// After the newest output that is held.
    Now,
    /// At the oldest output that is held.
    Oldest,
}

impl Default for PaneOutputStart {
    fn default() -> (r: Self)
        ensures
            r is Now,
    {
        PaneOutputStart::Now
    }
}

impl PaneOutputStart {
    /// The same in the words of the protocol.
    pub open spec fn spec_proto(self) -> PaneOutputSubscriptionStart {
        match self {
            PaneOutputStart::Now => PaneOutputSubscriptionStart::Now,
            PaneOutputStart::Oldest => PaneOutputSubscriptionStart::Oldest,
        }
    }

    /// The same in the words of the protocol.
    pub fn into_proto(self) -> (r: PaneOutputSubscriptionStart)
        ensures
            r == self.spec_proto(),
    {
        match self {
            PaneOutputStart::Now => PaneOutputSubscriptionStart::Now,
            PaneOutputStart::Oldest => PaneOutputSubscriptionStart::Oldest,
        }
    }
}

/// Bytes of a pane that the daemon still held when output was lost.
#[derive(Debug, Clone, PartialEq, Eq, Hash)]
pub struct PaneRecentOutput {
    /// The bytes.
    pub bytes: Vec<u8>,
    /// The first sequence that they come from.
    pub oldest_sequence: Option<u64>,
    /// The last sequence that they come from.
    pub newest_sequence: Option<u64>,
}

impl Default for PaneRecentOutput {
    /// Nothing.
    fn default() -> (r: Self)
        ensures
            r.bytes@.len() == 0,
            r.oldest_sequence is None,
            r.newest_sequence is None,
    {
        PaneRecentOutput { bytes: Vec::new(), oldest_sequence: None, newest_sequence: None }
    }
}

impl PaneRecentOutput {
    /// What the protocol calls the same.
    pub fn from_proto(value: RecentOutput) -> (r: PaneRecentOutput)
        ensures
            r.bytes == value.bytes,
            r.oldest_sequence == value.oldest_sequence,
            r.newest_sequence == value.newest_sequence,
    {
        PaneRecentOutput {
            bytes: value.bytes,
            oldest_sequence: value.oldest_sequence,
            newest_sequence: value.newest_sequence,
        }
    }
}

/// That output was lost, and how much.
#[derive(Debug, Clone, PartialEq, Eq, Hash)]
pub struct PaneLagNotice {
    /// The sequence that was expected.
    pub expected_sequence: u64,
    /// The sequence at which the output goes on.
    pub resume_sequence: u64,
    /// How many events were lost.
    pub missed_events: u64,
    /// The last sequence of all.
    pub newest_sequence: u64,
    /// What the daemon still held.
    pub recent: PaneRecentOutput,
}

impl Default for PaneLagNotice {
    /// That nothing was lost.
    fn default() -> (r: Self)
        ensures
            r.expected_sequence == 0,
            r.resume_sequence == 0,
            r.missed_events == 0,
            r.newest_sequence == 0,
            r.recent.bytes@.len() == 0,
            r.recent.oldest_sequence is None,
            r.recent.newest_sequence is None,
    {
        PaneLagNotice {
            expected_sequence: 0,
            resume_sequence: 0,
            missed_events: 0,
            newest_sequence: 0,
            recent: PaneRecentOutput::default(),
        }
    }
}

impl PaneLagNotice {
    /// What the protocol calls the same.
    pub open spec fn spec_from(value: PaneOutputLagNotice) -> PaneLagNotice {
        PaneLagNotice {
            expected_sequence: value.expected_sequence,
            resume_sequence: value.resume_sequence,
            missed_events: value.missed_events,
            newest_sequence: value.newest_sequence,
            recent: PaneRecentOutput {
                bytes: value.recent.bytes,
                oldest_sequence: value.recent.oldest_sequence,
                newest_sequence: value.recent.newest_sequence,
            },
        }
    }

    /// What the protocol calls the same.
    pub fn from_proto(value: PaneOutputLagNotice) -> (r: PaneLagNotice)
        ensures
            r == PaneLagNotice::spec_from(value),
    {
        PaneLagNotice {
            expected_sequence: value.expected_sequence,
            resume_sequence: value.resume_sequence,
            missed_events: value.missed_events,
            newest_sequence: value.newest_sequence,
            recent: PaneRecentOutput::from_proto(value.recent),
        }
    }
}

/// One item of a byte stream.
#[derive(Debug, Clone, PartialEq, Eq, Hash)]
#[non_exhaustive]
pub enum PaneOutputChunk {
    /// Bytes as the pane wrote them.
    Bytes {
        /// The place in the output of the pane.
        sequence: u64,
        /// The bytes.
        bytes: Vec<u8>,
    },
    /// Output was lost.
    Lag(PaneLagNotice),
}

/// One item of a line stream.
#[derive(Debug, Clone, PartialEq, Eq, Hash)]
#[non_exhaustive]
pub enum PaneLineItem {
    /// A line without its end.
    Line {
        /// The line.
        text: String,
    },
    /// Output was lost.
    Lag(PaneLagNotice),
}

/// What a byte stream does next.
#[derive(Debug, PartialEq, Eq)]
pub enum StreamStep {
    /// Give this chunk out.
    Yield(PaneOutputChunk),
    /// End: the subscription is gone.
    Closed,
    /// Send this request and take in the answer.
    Send(Request),
    /// Wait for some milliseconds, and ask again.
    Sleep(u64),
}

/// What came of an answer.
#[derive(Debug, Clone, Copy, PartialEq, Eq, Structural)]
pub enum RefillOutcome {
    /// Chunks may have been added.
    Filled,
    /// The subscription is gone.
    Closed,
}

/// A stream of the bytes of a pane.
pub struct PaneOutputStream {
    /// The subscription.
    subscription_id: u64,
    /// Whether the subscription is gone.
    closed: bool,
    /// The chunks that wait to be given out.
    pending: VecDeque<PaneOutputChunk>,
    /// The wait before the next poll, in milliseconds.
    poll_delay: u64,
    /// Whether the request that ends the subscription has been given out.
    ended: bool,
}

/// The error for an answer about another subscription.
pub open spec fn mismatch(command: Seq<char>, expected: u64, got: u64) -> ErrorView {
    ErrorView::Server(
        "rmux daemon sent subscription id "@ + text::decimal(got as nat) + " in `"@ + command
            + "` response for subscription "@ + text::decimal(expected as nat),
    )
}

/// Builds [`mismatch`].
pub fn subscription_mismatch_error(command: &'static str, expected: u64, got: u64) -> (r: RmuxError)
    ensures
        r matches RmuxError::Protocol { source } && source@ == mismatch(command@, expected, got),
{
    let mut message = "rmux daemon sent subscription id ".to_owned();
    let first = text::decimal_of(got);
    message.append(&first);
    message.append(" in `");
    message.append(command);
    message.append("` response for subscription ");
    let second = text::decimal_of(expected);
    message.append(&second);
    RmuxError::protocol(ProtoError::Server(message))
}

/// The chunk of an event.
pub open spec fn chunk_of(event: PaneOutputEvent) -> PaneOutputChunk {
    PaneOutputChunk::Bytes { sequence: event.sequence, bytes: event.bytes }
}

/// The chunks of events, in order.
pub open spec fn chunks_of(events: Seq<PaneOutputEvent>) -> Seq<PaneOutputChunk> {
    events.map_values(|event: PaneOutputEvent| chunk_of(event))
}

/// Adds events to the chunks that wait, in order and unchanged.
pub fn ingest_cursor(target: &mut VecDeque<PaneOutputChunk>, events: Vec<PaneOutputEvent>)
    ensures
        final(target)@ == old(target)@ + chunks_of(events@),
{
    let ghost all = events@;
    let mut rest = events;
    let mut added: VecDeque<PaneOutputChunk> = VecDeque::new();
    while rest.len() > 0
        invariant
            chunks_of(rest@) + added@ =~= chunks_of(all),
        decreases rest.len(),
    {
        let ghost before = rest@;
        match rest.pop() {
            Some(event) => {
                added.push_front(
                    PaneOutputChunk::Bytes { sequence: event.sequence, bytes: event.bytes },
                );
                assert(chunks_of(before) =~= chunks_of(rest@).push(chunk_of(event)));
            },
            None => {},
        }
    }
    target.append(&mut added);
}

/// Whether an error says that the subscription is gone.
pub open spec fn says_gone(error: RmuxError) -> bool {
    error matches RmuxError::Protocol { source } && (source@ == ErrorView::Server(
        "subscription not found"@,
    ) || source@ == ErrorView::Server("subscription receiver not found"@))
}

/// Computes [`says_gone`].
pub fn is_subscription_gone(error: &RmuxError) -> (r: bool)
    ensures
        r == says_gone(*error),
{
    match error {
        RmuxError::Protocol { source } => match source {
            ProtoError::Server(message) => text::str_eq(message, "subscription not found")
                || text::str_eq(message, "subscription receiver not found"),
            _ => false,
        },
        _ => false,
    }
}

/// The mathematical value of a [`PaneOutputStream`].
#[verifier::ext_equal]
pub struct StreamView {
    /// The subscription.
    pub subscription_id: u64,
    /// Whether the subscription is gone.
    pub closed: bool,
    /// The chunks that wait to be given out.
    pub pending: Seq<PaneOutputChunk>,
    /// The wait before the next poll, in milliseconds.
    pub poll_delay: u64,
    /// Whether the request that ends the subscription has been given out.
    pub ended: bool,
}

impl View for PaneOutputStream {
    type V = StreamView;

    closed spec fn view(&self) -> StreamView {
        StreamView {
            subscription_id: self.subscription_id,
            closed: self.closed,
            pending: self.pending@,
            poll_delay: self.poll_delay,
            ended: self.ended,
        }
    }
}

/// The error for an answer that does not belong to a request.
pub open spec fn unexpected(command: Seq<char>) -> ErrorView {
    ErrorView::Server("rmux daemon sent an unexpected response for `"@ + command + "`"@)
}

/// Builds [`unexpected`].
fn unexpected_response(command: &'static str) -> (r: RmuxError)
    ensures
        r matches RmuxError::Protocol { source } && source@ == unexpected(command@),
{
    let mut message = "rmux daemon sent an unexpected response for `".to_owned();
    message.append(command);
    message.append("`");
    RmuxError::protocol(ProtoError::Server(message))
}

/// Whether an error is that of the daemon with this value.
pub open spec fn is_protocol(error: RmuxError, value: ErrorView) -> bool {
    error matches RmuxError::Protocol { source } && source@ == value
}

impl StreamView {
    /// The request for the next output.
    pub open spec fn cursor_request(self) -> Request {
        Request::PaneOutputCursor(
            PaneOutputCursorRequest {
                subscription_id: self.subscription_id,
                max_events: Some(PANE_OUTPUT_BATCH_SIZE),
            },
        )
    }

    /// The request that ends the subscription, unless it has been given out.
    pub open spec fn end_request(self) -> Option<Request> {
        if self.ended {
            None
        } else {
            Some(
                Request::UnsubscribePaneOutput(
                    UnsubscribePaneOutputRequest { subscription_id: self.subscription_id },
                ),
            )
        }
    }

    /// The stream once that request has been given out.
    pub open spec fn without_end(self) -> StreamView {
        StreamView { ended: true, ..self }
    }

    /// Whether a stream can become another: it keeps its subscription, and what
    /// has been given out is not taken back.
    pub open spec fn leads_to(self, after: StreamView) -> bool {
        &&& after.subscription_id == self.subscription_id
        &&& self.ended ==> after.ended
    }

    /// The chunks that an answer to that request adds, where it belongs to it.
    pub open spec fn answered(self, response: Response) -> Result<Seq<PaneOutputChunk>, ErrorView> {
        match response {
            Response::PaneOutputCursor(cursor) => if cursor.subscription_id == self.subscription_id {
                Ok(chunks_of(cursor.events@))
            } else {
                Err(mismatch("pane-output-cursor"@, self.subscription_id, cursor.subscription_id))
            },
            Response::PaneOutputLag(lag) => if lag.subscription_id == self.subscription_id {
                Ok(seq![PaneOutputChunk::Lag(PaneLagNotice::spec_from(lag.lag))])
            } else {
                Err(mismatch("pane-output-lag"@, self.subscription_id, lag.subscription_id))
            },
            _ => Err(unexpected("pane-output-cursor"@)),
        }
    }

    /// The wait after one that brought nothing: twice as long, up to the
    /// longest.
    pub open spec fn next_delay(self) -> u64 {
        if self.poll_delay > POLL_MAX_DELAY / 2 {
            POLL_MAX_DELAY
        } else {
            (self.poll_delay * 2) as u64
        }
    }
}

/// Whether values follow each other as those of one stream do.
pub open spec fn is_history(history: Seq<StreamView>) -> bool {
    forall|i: int|
        0 <= i < history.len() - 1 ==> (#[trigger] history[i]).leads_to(history[i + 1])
}

/// A stream stays with its subscription, and what has been given out stays so.
proof fn lemma_history(history: Seq<StreamView>, i: int, j: int)
    requires
        is_history(history),
        0 <= i <= j < history.len(),
    ensures
        history[i].leads_to(history[j]),
    decreases j - i,
{
    if i < j {
        lemma_history(history, i, j - 1);
        assert(history[j - 1].leads_to(history[j - 1 + 1]));
    }
}

/// A subscription is ended at most once, whatever else is done with the stream
/// in between, and the request that ends it names the subscription that the
/// stream has had from the first.
pub proof fn law_subscription_ends_once(history: Seq<StreamView>, i: int, j: int)
    requires
        is_history(history),
        0 <= i < j < history.len(),
        history[i + 1] == history[i].without_end(),
    ensures
        history[j].end_request() is None,
        history[i].end_request() matches Some(request) ==> request
            == Request::UnsubscribePaneOutput(
            UnsubscribePaneOutputRequest { subscription_id: history[0].subscription_id },
        ),
{
    lemma_history(history, i + 1, j);
    lemma_history(history, 0, i);
}

/// Waits grow, and stay between the first and the longest.
pub proof fn law_waits_are_bounded(stream: StreamView)
    requires
        POLL_INITIAL_DELAY <= stream.poll_delay <= POLL_MAX_DELAY,
    ensures
        stream.poll_delay <= stream.next_delay() <= POLL_MAX_DELAY,
{
}

/// The request that opens a stream.
pub fn open_request(target: PaneTarget, start: PaneOutputStart) -> (r: Request)
    ensures
        r == Request::SubscribePaneOutput(
            SubscribePaneOutputRequest { target, start: start.spec_proto() },
        ),
{
    Request::SubscribePaneOutput(SubscribePaneOutputRequest { target, start: start.into_proto() })
}

impl PaneOutputStream {
    /// The stream that the answer to [`open_request`] opens.
    pub fn open(response: Response) -> (r: Result<PaneOutputStream, RmuxError>)
        ensures
            match response {
                Response::SubscribePaneOutput(answer) => r is Ok && r->Ok_0@ == (StreamView {
                    subscription_id: answer.subscription_id,
                    closed: false,
                    pending: Seq::empty(),
                    poll_delay: POLL_INITIAL_DELAY,
                    ended: false,
                }),
                _ => r is Err && is_protocol(r->Err_0, unexpected("subscribe-pane-output"@)),
            },
    {
        match response {
            Response::SubscribePaneOutput(answer) => Ok(
                PaneOutputStream {
                    subscription_id: answer.subscription_id,
                    closed: false,
                    pending: VecDeque::new(),
                    poll_delay: POLL_INITIAL_DELAY,
                    ended: false,
                },
            ),
            _ => Err(unexpected_response("subscribe-pane-output")),
        }
    }

    /// The request that ends the subscription. It is given out once.
    pub fn unsubscribe_request(&mut self) -> (r: Option<Request>)
        ensures
            r == old(self)@.end_request(),
            final(self)@ == old(self)@.without_end(),
            old(self)@.leads_to(final(self)@),
    {
        if self.ended {
            return None;
        }
        self.ended = true;
        Some(
            Request::UnsubscribePaneOutput(
                UnsubscribePaneOutputRequest { subscription_id: self.subscription_id },
            ),
        )
    }

    /// What is shown of the stream: not its subscription, nor what it holds.
    pub fn summary(&self) -> (r: String)
        ensures
            r@ == "PaneOutputStream { closed: "@ + text::truth(self@.closed)
                + ", buffered_chunks: "@ + text::decimal(self@.pending.len()) + ", .. }"@,
    {
        let mut out = "PaneOutputStream { closed: ".to_owned();
        out.append(text::truth_of(self.closed));
        out.append(", buffered_chunks: ");
        let count = text::decimal_of(self.pending.len() as u64);
        out.append(&count);
        out.append(", .. }");
        out
    }

    /// The request for the next output.
    fn cursor_request(&self) -> (r: Request)
        ensures
            r == self@.cursor_request(),
    {
        Request::PaneOutputCursor(
            PaneOutputCursorRequest {
                subscription_id: self.subscription_id,
                max_events: Some(PANE_OUTPUT_BATCH_SIZE),
            },
        )
    }

    /// Whether an answer is about the subscription.
    pub fn validate_response_subscription(&self, command: &'static str, response_id: u64) -> (r:
        Result<(), RmuxError>)
        ensures
            if response_id == self@.subscription_id {
                r is Ok
            } else {
                r is Err && is_protocol(
                    r->Err_0,
                    mismatch(command@, self@.subscription_id, response_id),
                )
            },
    {
        if response_id == self.subscription_id {
            return Ok(());
        }
        Err(subscription_mismatch_error(command, self.subscription_id, response_id))
    }

    /// Takes in the answer to a request for output. An error that says that the
    /// subscription is gone closes the stream; any other leaves it as it is.
    fn refill_once(&mut self, answer: Result<Response, RmuxError>) -> (r: Result<
        RefillOutcome,
        RmuxError,
    >)
        ensures
            match answer {
                Ok(response) => match old(self)@.answered(response) {
                    Ok(chunks) => {
                        &&& r matches Ok(outcome) && outcome is Filled
                        &&& final(self)@ == (StreamView {
                            pending: old(self)@.pending + chunks,
                            ..old(self)@
                        })
                    },
                    Err(error) => {
                        &&& r is Err && is_protocol(r->Err_0, error)
                        &&& final(self)@ == old(self)@
                    },
                },
                Err(error) => if says_gone(error) {
                    &&& r matches Ok(outcome) && outcome is Closed
                    &&& final(self)@ == (StreamView { closed: true, ..old(self)@ })
                } else {
                    &&& r == Err::<RefillOutcome, RmuxError>(error)
                    &&& final(self)@ == old(self)@
                },
            },
    {
        match answer {
            Ok(Response::PaneOutputCursor(cursor)) => {
                match self.validate_response_subscription(
                    "pane-output-cursor",
                    cursor.subscription_id,
                ) {
                    Ok(()) => {
                        ingest_cursor(&mut self.pending, cursor.events);
                        Ok(RefillOutcome::Filled)
                    },
                    Err(error) => Err(error),
                }
            },
            Ok(Response::PaneOutputLag(lag)) => {
                match self.validate_response_subscription("pane-output-lag", lag.subscription_id) {
                    Ok(()) => {
                        let ghost before = self.pending@;
                        self.pending.push_back(
                            PaneOutputChunk::Lag(PaneLagNotice::from_proto(lag.lag)),
                        );
                        assert(self.pending@ =~= before + seq![self.pending@.last()]);
                        Ok(RefillOutcome::Filled)
                    },
                    Err(error) => Err(error),
                }
            },
            Ok(_) => Err(unexpected_response("pane-output-cursor")),
            Err(error) => if is_subscription_gone(&error) {
                self.closed = true;
                Ok(RefillOutcome::Closed)
            } else {
                Err(error)
            },
        }
    }

    /// What to do for the next chunk: give out one that waits, end, or ask.
    pub fn next(&mut self) -> (r: StreamStep)
        ensures
            if old(self)@.pending.len() > 0 {
                &&& r == StreamStep::Yield(old(self)@.pending[0])
                &&& final(self)@ == (StreamView {
                    pending: old(self)@.pending.skip(1),
                    ..old(self)@
                })
            } else {
                &&& final(self)@ == old(self)@
                &&& r == if old(self)@.closed {
                    StreamStep::Closed
                } else {
                    StreamStep::Send(old(self)@.cursor_request())
                }
            },
            old(self)@.leads_to(final(self)@),
    {
        let ghost before = self@;
        match self.pending.pop_front() {
            Some(chunk) => {
                assert(self@.pending =~= before.pending.skip(1));
                StreamStep::Yield(chunk)
            },
            None => if self.closed {
                StreamStep::Closed
            } else {
                StreamStep::Send(self.cursor_request())
            },
        }
    }

    /// What to do after the answer to a request for output: give out the first
    /// chunk, end, or wait before asking again. Waits grow until a chunk comes.
    pub fn resume(&mut self, answer: Result<Response, RmuxError>) -> (r: Result<
        StreamStep,
        RmuxError,
    >)
        ensures
            match answer {
                Ok(response) => match old(self)@.answered(response) {
                    Ok(chunks) => {
                        let all = old(self)@.pending + chunks;
                        if all.len() > 0 {
                            &&& r == Ok::<StreamStep, RmuxError>(StreamStep::Yield(all[0]))
                            &&& final(self)@ == (StreamView {
                                pending: all.skip(1),
                                poll_delay: POLL_INITIAL_DELAY,
                                ..old(self)@
                            })
                        } else {
                            &&& r == Ok::<StreamStep, RmuxError>(
                                StreamStep::Sleep(old(self)@.poll_delay),
                            )
                            &&& final(self)@ == (StreamView {
                                poll_delay: old(self)@.next_delay(),
                                ..old(self)@
                            })
                        }
                    },
                    Err(error) => {
                        &&& r is Err && is_protocol(r->Err_0, error)
                        &&& final(self)@ == old(self)@
                    },
                },
                Err(error) => if says_gone(error) {
                    &&& r == Ok::<StreamStep, RmuxError>(StreamStep::Closed)
                    &&& final(self)@ == (StreamView { closed: true, ..old(self)@ })
                } else {
                    &&& r == Err::<StreamStep, RmuxError>(error)
                    &&& final(self)@ == old(self)@
                },
            },
            old(self)@.leads_to(final(self)@),
    {
        match self.refill_once(answer) {
            Err(error) => Err(error),
            Ok(RefillOutcome::Closed) => Ok(StreamStep::Closed),
            Ok(RefillOutcome::Filled) => {
                let ghost filled = self@;
                match self.pending.pop_front() {
                    Some(chunk) => {
                        assert(self@.pending =~= filled.pending.skip(1));
                        self.poll_delay = POLL_INITIAL_DELAY;
                        Ok(StreamStep::Yield(chunk))
                    },
                    None => {
                        assert(filled.pending =~= old(self)@.pending);
                        let delay: u64 = self.poll_delay;
                        self.poll_delay = if delay > POLL_MAX_DELAY / 2 {
                            POLL_MAX_DELAY
                        } else {
                            delay * 2
                        };
                        Ok(StreamStep::Sleep(delay))
                    },
                }
            },
        }
    }

    /// Takes out all chunks that wait.
    fn drain(&mut self) -> (r: Vec<PaneOutputChunk>)
        ensures
            r@ == old(self)@.pending,
            final(self)@ == (StreamView { pending: Seq::empty(), ..old(self)@ }),
    {
        let ghost before = self@;
        let mut out: Vec<PaneOutputChunk> = Vec::new();
        loop
            invariant_except_break
                out@ + self@.pending =~= before.pending,
                self@ == (StreamView { pending: self@.pending, ..before }),
            ensures
                out@ =~= before.pending,
                self@ == (StreamView { pending: Seq::empty(), ..before }),
            decreases self@.pending.len(),
        {
            match self.pending.pop_front() {
                Some(chunk) => {
                    out.push(chunk);
                },
                None => {
                    assert(self@.pending =~= Seq::empty());
                    break;
                },
            }
        }
        out
    }

    /// Begins one poll: the chunks that wait, and the request to send unless
    /// the subscription is gone.
    pub fn poll_begin(&mut self) -> (r: (Vec<PaneOutputChunk>, Option<Request>))
        ensures
            r.0@ == old(self)@.pending,
            r.1 == if old(self)@.closed {
                None
            } else {
                Some(old(self)@.cursor_request())
            },
            final(self)@ == (StreamView { pending: Seq::empty(), ..old(self)@ }),
            old(self)@.leads_to(final(self)@),
    {
        let buffered = self.drain();
        let request = if self.closed {
            None
        } else {
            Some(self.cursor_request())
        };
        (buffered, request)
    }

    /// Ends one poll with the answer to its request: all chunks at hand, or the
    /// error.
    pub fn poll_once(&mut self, buffered: Vec<PaneOutputChunk>, answer: Result<Response, RmuxError>) -> (r:
        Result<Vec<PaneOutputChunk>, RmuxError>)
        ensures
            match answer {
                Ok(response) => match old(self)@.answered(response) {
                    Ok(chunks) => {
                        &&& r is Ok && r->Ok_0@ == buffered@ + old(self)@.pending + chunks
                        &&& final(self)@ == (StreamView {
                            pending: Seq::empty(),
                            ..old(self)@
                        })
                    },
                    Err(error) => {
                        &&& r is Err && is_protocol(r->Err_0, error)
                        &&& final(self)@ == old(self)@
                    },
                },
                Err(error) => if says_gone(error) {
                    &&& r is Ok && r->Ok_0@ == buffered@
                    &&& final(self)@ == (StreamView { closed: true, ..old(self)@ })
                } else {
                    &&& r is Err && r->Err_0 == error
                    &&& final(self)@ == old(self)@
                },
            },
            old(self)@.leads_to(final(self)@),
    {
        let mut all = buffered;
        match self.refill_once(answer) {
            Err(error) => Err(error),
            Ok(RefillOutcome::Closed) => Ok(all),
            Ok(RefillOutcome::Filled) => {
                let mut more = self.drain();
                let ghost new = more@;
                all.append(&mut more);
                assert(all@ =~= buffered@ + new);
                Ok(all)
            },
        }
    }
}

/// Feeding bytes to a line that has begun: what is left of the last line, and
/// the lines that ended.
pub open spec fn fed(buffer: Seq<u8>, bytes: Seq<u8>) -> (Seq<u8>, Seq<Seq<u8>>)
    decreases bytes.len(),
{
    if bytes.len() == 0 {
        (buffer, Seq::empty())
    } else {
        let (left, lines) = fed(buffer, bytes.drop_last());
        if bytes.last() == 10 {
            (Seq::empty(), lines.push(left))
        } else {
            (left.push(bytes.last()), lines)
        }
    }
}

/// Lines with their ends, one after the other.
pub open spec fn with_ends(lines: Seq<Seq<u8>>) -> Seq<u8>
    decreases lines.len(),
{
    if lines.len() == 0 {
        Seq::empty()
    } else {
        with_ends(lines.drop_last()) + lines.last().push(10)
    }
}

/// No byte is lost or changed on the way to the lines: those that ended, with
/// their ends, and what is left make up what was fed.
pub proof fn law_lines_keep_every_byte(buffer: Seq<u8>, bytes: Seq<u8>)
    ensures
        with_ends(fed(buffer, bytes).1) + fed(buffer, bytes).0 == buffer + bytes,
    decreases bytes.len(),
{
    if bytes.len() == 0 {
        assert(with_ends(fed(buffer, bytes).1) + fed(buffer, bytes).0 =~= buffer + bytes);
    } else {
        let (left, lines) = fed(buffer, bytes.drop_last());
        law_lines_keep_every_byte(buffer, bytes.drop_last());
        assert(buffer + bytes =~= (buffer + bytes.drop_last()).push(bytes.last()));
        if bytes.last() == 10 {
            assert(lines.push(left).drop_last() =~= lines);
            assert(with_ends(lines.push(left)) + Seq::<u8>::empty() =~= (with_ends(lines)
                + left).push(10));
        } else {
            assert(with_ends(lines) + left.push(bytes.last()) =~= (with_ends(lines) + left).push(
                bytes.last(),
            ));
        }
    }
}

/// It does not matter how the bytes are cut into chunks: feeding two chunks one
/// after the other is feeding both at once.
pub proof fn law_lines_ignore_chunks(buffer: Seq<u8>, first: Seq<u8>, second: Seq<u8>)
    ensures
        ({
            let (middle, early) = fed(buffer, first);
            let (left, late) = fed(middle, second);
            fed(buffer, first + second) == (left, early + late)
        }),
    decreases second.len(),
{
    let (middle, early) = fed(buffer, first);
    if second.len() == 0 {
        assert(first + second =~= first);
        assert(early + Seq::<Seq<u8>>::empty() =~= early);
    } else {
        law_lines_ignore_chunks(buffer, first, second.drop_last());
        let (left, late) = fed(middle, second.drop_last());
        assert((first + second).drop_last() =~= first + second.drop_last());
        assert((first + second).last() == second.last());
        assert((early + late).push(left) =~= early + late.push(left));
    }
}

/// What is left of the last line holds no line end, where the line that had
/// begun holds none, and neither does a line that ended.
pub proof fn law_lines_hold_no_ends(buffer: Seq<u8>, bytes: Seq<u8>)
    requires
        !buffer.contains(10),
    ensures
        !fed(buffer, bytes).0.contains(10),
        forall|i: int|
            0 <= i < fed(buffer, bytes).1.len() ==> !(#[trigger] fed(buffer, bytes).1[i]).contains(
                10,
            ),
    decreases bytes.len(),
{
    if bytes.len() > 0 {
        law_lines_hold_no_ends(buffer, bytes.drop_last());
        let (left, lines) = fed(buffer, bytes.drop_last());
        assert forall|i: int| 0 <= i < left.push(bytes.last()).len() && bytes.last()
            != 10 implies #[trigger] left.push(bytes.last())[i] != 10 by {
            if i < left.len() {
                assert(left.contains(left[i]));
            }
        }
    }
}

/// The mathematical value of a [`PaneLineItem`].
pub enum LineItemView {
    /// A line.
    Line(Seq<char>),
    /// Output was lost.
    Lag(PaneLagNotice),
}

impl View for PaneLineItem {
    type V = LineItemView;

    open spec fn view(&self) -> LineItemView {
        match *self {
            PaneLineItem::Line { text } => LineItemView::Line(text@),
            PaneLineItem::Lag(notice) => LineItemView::Lag(notice),
        }
    }
}

/// The values of items, in order.
pub open spec fn item_views(items: Seq<PaneLineItem>) -> Seq<LineItemView> {
    items.map_values(|item: PaneLineItem| item@)
}

/// The items of lines, in order.
pub open spec fn line_items(lines: Seq<Seq<u8>>) -> Seq<LineItemView> {
    lines.map_values(|line: Seq<u8>| LineItemView::Line(text::rendered(line)))
}

/// Feeds bytes to a line that has begun, and adds the lines that end. A line is
/// turned into text as a whole, when it ends.
pub fn split_lines(buffer: &mut Vec<u8>, bytes: &[u8], out: &mut VecDeque<PaneLineItem>)
    ensures
        final(buffer)@ == fed(old(buffer)@, bytes@).0,
        item_views(final(out)@) == item_views(old(out)@) + line_items(
            fed(old(buffer)@, bytes@).1,
        ),
        forall|i: int|
            0 <= i < old(out)@.len() ==> #[trigger] final(out)@[i] == old(out)@[i],
        final(out)@.len() == old(out)@.len() + fed(old(buffer)@, bytes@).1.len(),
{
    let ghost start = buffer@;
    let ghost before = out@;
    let mut i: usize = 0;
    assert(bytes@.take(0).len() == 0);
    assert(item_views(out@) =~= item_views(before) + line_items(fed(start, bytes@.take(0)).1));
    while i < bytes.len()
        invariant
            i <= bytes@.len(),
            buffer@ == fed(start, bytes@.take(i as int)).0,
            item_views(out@) == item_views(before) + line_items(
                fed(start, bytes@.take(i as int)).1,
            ),
            forall|j: int| 0 <= j < before.len() ==> #[trigger] out@[j] == before[j],
            out@.len() == before.len() + fed(start, bytes@.take(i as int)).1.len(),
        decreases bytes.len() - i,
    {
        let ghost earlier = fed(start, bytes@.take(i as int));
        let ghost shown = out@;
        proof {
            assert(bytes@.take(i + 1).drop_last() =~= bytes@.take(i as int));
            assert(bytes@.take(i + 1).last() == bytes@[i as int]);
        }
        if bytes[i] == 10 {
            let mut line: Vec<u8> = Vec::new();
            std::mem::swap(&mut line, buffer);
            let text = text::render(&line);
            out.push_back(PaneLineItem::Line { text });
            proof {
                assert(item_views(out@) =~= item_views(shown).push(
                    LineItemView::Line(text::rendered(earlier.0)),
                ));
                assert(line_items(earlier.1.push(earlier.0)) =~= line_items(earlier.1).push(
                    LineItemView::Line(text::rendered(earlier.0)),
                ));
                assert(item_views(out@) =~= item_views(before) + line_items(
                    fed(start, bytes@.take(i + 1)).1,
                ));
            }
        } else {
            buffer.push(bytes[i]);
        }
        i = i + 1;
    }
    assert(bytes@.take(i as int) =~= bytes@);
}

/// What a line stream does next.
#[derive(Debug, PartialEq, Eq)]
pub enum LineStep {
    /// Give this item out.
    Yield(PaneLineItem),
    /// End: the subscription is gone.
    Closed,
    /// Send this request and take in the answer.
    Send(Request),
    /// Wait for some milliseconds, and ask again.
    Sleep(u64),
}

/// A stream of the lines of a pane.
pub struct PaneLineStream {
    /// The bytes.
    inner: PaneOutputStream,
    /// The line that has begun.
    line_buffer: Vec<u8>,
    /// The items that wait to be given out.
    pending: VecDeque<PaneLineItem>,
}

/// The mathematical value of a [`PaneLineStream`].
#[verifier::ext_equal]
pub struct LineStreamView {
    /// The bytes.
    pub inner: StreamView,
    /// The line that has begun.
    pub buffer: Seq<u8>,
    /// The items that wait to be given out.
    pub pending: Seq<LineItemView>,
}

impl View for PaneLineStream {
    type V = LineStreamView;

    closed spec fn view(&self) -> LineStreamView {
        LineStreamView {
            inner: self.inner@,
            buffer: self.line_buffer@,
            pending: item_views(self.pending@),
        }
    }
}

impl LineStreamView {
    /// The stream after a chunk: bytes may end lines, and lost output drops the
    /// line that has begun.
    pub open spec fn absorbed(self, chunk: PaneOutputChunk) -> LineStreamView {
        match chunk {
            PaneOutputChunk::Bytes { sequence: _, bytes } => LineStreamView {
                buffer: fed(self.buffer, bytes@).0,
                pending: self.pending + line_items(fed(self.buffer, bytes@).1),
                ..self
            },
            PaneOutputChunk::Lag(notice) => LineStreamView {
                buffer: Seq::empty(),
                pending: self.pending.push(LineItemView::Lag(notice)),
                ..self
            },
        }
    }

    /// The stream once it has taken in waiting chunks until an item waits or no
    /// chunk does.
    pub open spec fn advanced(self) -> LineStreamView
        decreases self.inner.pending.len(),
    {
        if self.pending.len() > 0 || self.inner.pending.len() == 0 {
            self
        } else {
            let rest = LineStreamView {
                inner: StreamView { pending: self.inner.pending.skip(1), ..self.inner },
                ..self
            };
            rest.absorbed(self.inner.pending[0]).advanced()
        }
    }

    /// What the stream gives out or asks for, once it has advanced, and how it
    /// is left.
    pub open spec fn answers(self, after: LineStreamView, step: LineStep) -> bool {
        let ready = self.advanced();
        if ready.pending.len() > 0 {
            &&& step matches LineStep::Yield(item) && item@ == ready.pending[0]
            &&& after == (LineStreamView { pending: ready.pending.skip(1), ..ready })
        } else {
            &&& after == ready
            &&& step == if ready.inner.closed {
                LineStep::Closed
            } else {
                LineStep::Send(ready.inner.cursor_request())
            }
        }
    }
}

/// Lost output is passed on, and the line that had begun is dropped: nothing
/// from before it becomes part of a later line.
pub proof fn law_lag_starts_afresh(stream: LineStreamView, notice: PaneLagNotice, bytes: Seq<u8>)
    ensures
        ({
            let after = stream.absorbed(PaneOutputChunk::Lag(notice));
            &&& after.pending == stream.pending.push(LineItemView::Lag(notice))
            &&& fed(after.buffer, bytes) == fed(Seq::empty(), bytes)
        }),
{
}

impl PaneLineStream {
    /// The lines of a byte stream.
    pub fn wrap(inner: PaneOutputStream) -> (r: PaneLineStream)
        ensures
            r@ == (LineStreamView {
                inner: inner@,
                buffer: Seq::empty(),
                pending: Seq::empty(),
            }),
    {
        let r = PaneLineStream { inner, line_buffer: Vec::new(), pending: VecDeque::new() };
        assert(r@.pending =~= Seq::empty());
        r
    }

    /// The request that ends the subscription of the bytes. It is given out once.
    pub fn unsubscribe_request(&mut self) -> (r: Option<Request>)
        ensures
            r == old(self)@.inner.end_request(),
            final(self)@ == (LineStreamView {
                inner: old(self)@.inner.without_end(),
                ..old(self)@
            }),
            old(self)@.inner.leads_to(final(self)@.inner),
    {
        self.inner.unsubscribe_request()
    }

    /// What is shown of the stream: not its subscription, nor what it holds.
    pub fn summary(&self) -> (r: String)
        ensures
            r@ == "PaneLineStream { buffered_bytes: "@ + text::decimal(self@.buffer.len())
                + ", pending_items: "@ + text::decimal(self@.pending.len()) + ", .. }"@,
    {
        let mut out = "PaneLineStream { buffered_bytes: ".to_owned();
        let bytes = text::decimal_of(self.line_buffer.len() as u64);
        out.append(&bytes);
        out.append(", pending_items: ");
        let items = text::decimal_of(self.pending.len() as u64);
        out.append(&items);
        out.append(", .. }");
        out
    }

    /// Takes in a chunk.
    fn absorb(&mut self, chunk: PaneOutputChunk)
        ensures
            final(self)@ == old(self)@.absorbed(chunk),
    {
        let ghost before = self@;
        match chunk {
            PaneOutputChunk::Bytes { bytes, .. } => {
                split_lines(&mut self.line_buffer, bytes.as_slice(), &mut self.pending);
            },
            PaneOutputChunk::Lag(notice) => {
                self.line_buffer.clear();
                let ghost items = self.pending@;
                self.pending.push_back(PaneLineItem::Lag(notice));
                assert(item_views(self.pending@) =~= item_views(items).push(
                    LineItemView::Lag(notice),
                ));
            },
        }
        assert(self@ =~= before.absorbed(chunk));
    }

    /// What to do for the next item: give out one that waits, end, or ask.
    pub fn next(&mut self) -> (r: LineStep)
        ensures
            old(self)@.answers(final(self)@, r),
            old(self)@.inner.leads_to(final(self)@.inner),
    {
        let ghost before = self@;
        loop
            invariant
                before.inner.leads_to(self@.inner),
                before.advanced() == self@.advanced(),
                before == old(self)@,
            decreases self@.inner.pending.len(),
        {
            let ghost now = self@;
            let ghost items = self.pending@;
            match self.pending.pop_front() {
                Some(item) => {
                    assert(item_views(items)[0] == item@);
                    assert(self@.pending =~= now.pending.skip(1));
                    return LineStep::Yield(item);
                },
                None => {},
            }
            assert(self@ =~= now);
            match self.inner.next() {
                StreamStep::Yield(chunk) => {
                    self.absorb(chunk);
                },
                StreamStep::Closed => {
                    return LineStep::Closed;
                },
                StreamStep::Send(request) => {
                    return LineStep::Send(request);
                },
                StreamStep::Sleep(time) => {
                    return LineStep::Sleep(time);
                },
            }
        }
    }

    /// What to do after the answer to a request for output: give out the first
    /// item, end, ask on, or wait before asking again.
    pub fn resume(&mut self, answer: Result<Response, RmuxError>) -> (r: Result<LineStep, RmuxError>)
        ensures
            match answer {
                Ok(response) => match old(self)@.inner.answered(response) {
                    Ok(chunks) => {
                        let all = old(self)@.inner.pending + chunks;
                        if all.len() > 0 {
                            let inner = StreamView {
                                pending: all.skip(1),
                                poll_delay: POLL_INITIAL_DELAY,
                                ..old(self)@.inner
                            };
                            let taken = LineStreamView { inner, ..old(self)@ }.absorbed(all[0]);
                            r is Ok && taken.answers(final(self)@, r->Ok_0)
                        } else {
                            &&& r == Ok::<LineStep, RmuxError>(
                                LineStep::Sleep(old(self)@.inner.poll_delay),
                            )
                            &&& final(self)@ == (LineStreamView {
                                inner: StreamView {
                                    poll_delay: old(self)@.inner.next_delay(),
                                    ..old(self)@.inner
                                },
                                ..old(self)@
                            })
                        }
                    },
                    Err(error) => {
                        &&& r is Err && is_protocol(r->Err_0, error)
                        &&& final(self)@ == old(self)@
                    },
                },
                Err(error) => if says_gone(error) {
                    &&& r == Ok::<LineStep, RmuxError>(LineStep::Closed)
                    &&& final(self)@ == (LineStreamView {
                        inner: StreamView { closed: true, ..old(self)@.inner },
                        ..old(self)@
                    })
                } else {
                    &&& r == Err::<LineStep, RmuxError>(error)
                    &&& final(self)@ == old(self)@
                },
            },
            old(self)@.inner.leads_to(final(self)@.inner),
    {
        match self.inner.resume(answer) {
            Err(error) => Err(error),
            Ok(StreamStep::Yield(chunk)) => {
                self.absorb(chunk);
                Ok(self.next())
            },
            Ok(StreamStep::Closed) => Ok(LineStep::Closed),
            Ok(StreamStep::Sleep(time)) => Ok(LineStep::Sleep(time)),
            Ok(StreamStep::Send(request)) => Ok(LineStep::Send(request)),
        }
    }
}

} // verus!
