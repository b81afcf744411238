//! Laws of the streams of output.
use vstd::prelude::*;

use crate::error::RmuxError;
use crate::names::ErrorView;
use crate::protocol::{Request, Response};
use crate::streams::{
    says_gone, LineStep, LineStreamView, PaneLineStream, PaneOutputChunk, PaneOutputStream,
    StreamStep, StreamView,
};
use crate::text;

verus! {

/// A stream begins with nothing waiting, and first waits two milliseconds.
pub proof fn law_streams_open(response: Response, r: Result<PaneOutputStream, RmuxError>)
    requires
        call_ensures(PaneOutputStream::open, (response,), r),
    ensures
        r is Ok <==> response is SubscribePaneOutput,
        response matches Response::SubscribePaneOutput(answer) ==> {
            let stream = r->Ok_0@;
            &&& stream.subscription_id == answer.subscription_id
            &&& !stream.closed && !stream.ended
            &&& stream.pending.len() == 0
            &&& stream.poll_delay == 2
        },
        r matches Err(error) ==> (error matches RmuxError::Protocol { source } && source@
            == ErrorView::Server(
            "rmux daemon sent an unexpected response for `"@ + "subscribe-pane-output"@ + "`"@,
        )),
{
}

/// The chunk that has waited longest comes out first. Where none waits, more is asked
/// for, unless the stream is closed; nothing changes then.
pub proof fn law_chunks_come_out_in_order(stream: &mut PaneOutputStream, r: StreamStep)
    requires
        call_ensures(PaneOutputStream::next, (stream,), r),
    ensures
        old(stream)@.pending.len() > 0 ==> r == StreamStep::Yield(old(stream)@.pending[0])
            && final(stream)@.pending == old(stream)@.pending.skip(1),
        old(stream)@.pending.len() == 0 ==> final(stream)@ == old(stream)@,
        old(stream)@.pending.len() == 0 && old(stream)@.closed ==> r is Closed,
        old(stream)@.pending.len() == 0 && !old(stream)@.closed ==> (r matches StreamStep::Send(
            Request::PaneOutputCursor(asked),
        ) && asked.subscription_id == old(stream)@.subscription_id && asked.max_events
            == Some(256u16)),
        final(stream)@.subscription_id == old(stream)@.subscription_id,
        final(stream)@.closed == old(stream)@.closed,
        final(stream)@.poll_delay == old(stream)@.poll_delay,
{
}

/// New chunks wait behind those that wait already, and the first of all comes out. An
/// answer without any is waited for, longer each time. A subscription that is gone
/// closes the stream; any other error is handed on and changes nothing.
pub proof fn law_answers_resume_streams(
    stream: &mut PaneOutputStream,
    answer: Result<Response, RmuxError>,
    r: Result<StreamStep, RmuxError>,
)
    requires
        call_ensures(PaneOutputStream::resume, (stream, answer), r),
    ensures
        (answer matches Ok(response) && old(stream)@.answered(response) is Ok) ==> {
            let chunks = old(stream)@.answered(answer->Ok_0)->Ok_0;
            let all = old(stream)@.pending + chunks;
            &&& all.len() > 0 ==> {
                &&& r == Ok::<StreamStep, RmuxError>(StreamStep::Yield(all[0]))
                &&& seq![all[0]] + final(stream)@.pending == all
                &&& final(stream)@.poll_delay == 2
            }
            &&& all.len() == 0 ==> {
                &&& r == Ok::<StreamStep, RmuxError>(StreamStep::Sleep(old(stream)@.poll_delay))
                &&& final(stream)@.poll_delay == old(stream)@.next_delay()
                &&& final(stream)@.pending.len() == 0
            }
            &&& final(stream)@.closed == old(stream)@.closed
        },
        (answer matches Ok(response) && old(stream)@.answered(response) is Err) ==> {
            &&& r is Err
            &&& r->Err_0 matches RmuxError::Protocol { source } && source@ == old(
                stream,
            )@.answered(answer->Ok_0)->Err_0
            &&& final(stream)@ == old(stream)@
        },
        (answer matches Err(error) && says_gone(error)) ==> {
            &&& r matches Ok(step) && step is Closed
            &&& final(stream)@.closed
            &&& final(stream)@.pending == old(stream)@.pending
        },
        (answer matches Err(error) && !says_gone(error)) ==> {
            &&& r == Err::<StreamStep, RmuxError>(answer->Err_0)
            &&& final(stream)@ == old(stream)@
        },
        final(stream)@.subscription_id == old(stream)@.subscription_id,
{
    if let Ok(response) = answer {
        if let Ok(chunks) = old(stream)@.answered(response) {
            let all = old(stream)@.pending + chunks;
            if all.len() > 0 {
                assert(seq![all[0]] + all.skip(1) =~= all);
            }
        }
    }
}

/// Polling takes all that waits, and then all that the answer brings, in this order.
pub proof fn law_polls_take_everything(
    stream: &mut PaneOutputStream,
    begun: (Vec<PaneOutputChunk>, Option<Request>),
    later: &mut PaneOutputStream,
    buffered: Vec<PaneOutputChunk>,
    answer: Result<Response, RmuxError>,
    r: Result<Vec<PaneOutputChunk>, RmuxError>,
)
    requires
        call_ensures(PaneOutputStream::poll_begin, (stream,), begun),
        call_ensures(PaneOutputStream::poll_once, (later, buffered, answer), r),
    ensures
        begun.0@ == old(stream)@.pending,
        begun.1 is None <==> old(stream)@.closed,
        begun.1 matches Some(request) ==> request == old(stream)@.cursor_request(),
        final(stream)@.pending.len() == 0,
        final(stream)@.closed == old(stream)@.closed,
        (answer matches Ok(response) && old(later)@.answered(response) is Ok) ==> {
            &&& r is Ok
            &&& r->Ok_0@ == buffered@ + old(later)@.pending + old(later)@.answered(
                answer->Ok_0,
            )->Ok_0
            &&& final(later)@.pending.len() == 0
        },
        (answer matches Err(error) && says_gone(error)) ==> r is Ok && r->Ok_0@ == buffered@
            && final(later)@.closed,
        (answer matches Err(error) && !says_gone(error)) ==> r is Err && r->Err_0 == answer->Err_0
            && final(later)@ == old(later)@,
        (answer matches Ok(response) && old(later)@.answered(response) is Err) ==> r is Err
            && final(later)@ == old(later)@,
{
}

/// The same of streams of lines: what an answer brings is taken in, chunk by chunk.
pub proof fn law_answers_resume_lines(
    stream: &mut PaneLineStream,
    answer: Result<Response, RmuxError>,
    r: Result<LineStep, RmuxError>,
)
    requires
        call_ensures(PaneLineStream::resume, (stream, answer), r),
    ensures
        (answer matches Ok(response) && old(stream)@.inner.answered(response) is Ok) ==> {
            let chunks = old(stream)@.inner.answered(answer->Ok_0)->Ok_0;
            let all = old(stream)@.inner.pending + chunks;
            &&& all.len() > 0 ==> {
                let inner = StreamView {
                    pending: all.skip(1),
                    poll_delay: 2,
                    ..old(stream)@.inner
                };
                let taken = LineStreamView { inner, ..old(stream)@ }.absorbed(all[0]);
                r is Ok && taken.answers(final(stream)@, r->Ok_0)
            }
            &&& all.len() == 0 ==> {
                &&& r == Ok::<LineStep, RmuxError>(LineStep::Sleep(old(stream)@.inner.poll_delay))
                &&& final(stream)@.inner.poll_delay == old(stream)@.inner.next_delay()
                &&& final(stream)@.buffer == old(stream)@.buffer
                &&& final(stream)@.pending == old(stream)@.pending
            }
        },
        (answer matches Err(error) && says_gone(error)) ==> {
            &&& r matches Ok(step) && step is Closed
            &&& final(stream)@.inner.closed
            &&& final(stream)@.buffer == old(stream)@.buffer
            &&& final(stream)@.pending == old(stream)@.pending
        },
        (answer matches Err(error) && !says_gone(error)) ==> {
            &&& r == Err::<LineStep, RmuxError>(answer->Err_0)
            &&& final(stream)@ == old(stream)@
        },
        (answer matches Ok(response) && old(stream)@.inner.answered(response) is Err) ==> {
            &&& r is Err
            &&& final(stream)@ == old(stream)@
        },
{
}

/// How streams are described.
pub proof fn law_streams_are_described(
    stream: &PaneOutputStream,
    said: String,
    lines: &PaneLineStream,
    told: String,
)
    requires
        call_ensures(PaneOutputStream::summary, (stream,), said),
        call_ensures(PaneLineStream::summary, (lines,), told),
    ensures
        stream@.closed ==> said@ == "PaneOutputStream { closed: "@ + "true"@
            + ", buffered_chunks: "@ + text::decimal(stream@.pending.len()) + ", .. }"@,
        !stream@.closed ==> said@ == "PaneOutputStream { closed: "@ + "false"@
            + ", buffered_chunks: "@ + text::decimal(stream@.pending.len()) + ", .. }"@,
        told@ == "PaneLineStream { buffered_bytes: "@ + text::decimal(lines@.buffer.len())
            + ", pending_items: "@ + text::decimal(lines@.pending.len()) + ", .. }"@,
{
}

/// An answer belongs to a stream where it names its subscription.
pub proof fn law_answers_name_subscriptions(
    stream: &PaneOutputStream,
    command: &'static str,
    id: u64,
    r: Result<(), RmuxError>,
)
    requires
        call_ensures(PaneOutputStream::validate_response_subscription, (stream, command, id), r),
    ensures
        r is Ok <==> id == stream@.subscription_id,
{
}

} // verus!
