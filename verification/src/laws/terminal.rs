//! Laws of what goes to and comes from terminals.
use vstd::prelude::*;

use crate::client::{closing, command_lines, control_output, opening};
use crate::error::RmuxError;
use crate::input::{character_cut, chunk_end, law_marks_stay_whole, mark_end, marker_cut};
use crate::names::ErrorView;
use crate::passthrough::{all_rendered, cursor_text, rendered, PaneGeometry, TerminalPassthrough};
use crate::protocol::{
    ControlMode, PaneOutputCursorRequest, PaneOutputLagNotice, Request, Response,
    UnsubscribePaneOutputRequest,
};
use crate::size::{spec_size, spec_winsize, TerminalSize, Winsize};
use crate::streams::{
    fed, says_gone, LineItemView, LineStep, LineStreamView, PaneLagNotice, PaneOutputChunk,
    PaneOutputStart, StreamView,
};
use crate::text;

verus! {

/// The bytes that begin a paste: escape, a bracket, 200 and a tilde.
pub open spec fn begins_paste(bytes: Seq<u8>, at: int) -> bool {
    &&& at + 6 <= bytes.len()
    &&& bytes[at] == 27
    &&& bytes[at + 1] == 91
    &&& bytes[at + 2] == 50
    &&& bytes[at + 3] == 48
    &&& bytes[at + 4] == 48
    &&& bytes[at + 5] == 126
}

/// The bytes that end a paste: escape, a bracket, 201 and a tilde.
pub open spec fn ends_paste(bytes: Seq<u8>, at: int) -> bool {
    &&& at + 6 <= bytes.len()
    &&& bytes[at] == 27
    &&& bytes[at + 1] == 91
    &&& bytes[at + 2] == 50
    &&& bytes[at + 3] == 48
    &&& bytes[at + 4] == 49
    &&& bytes[at + 5] == 126
}

/// No chunk of input ends within the bytes that begin or end a paste.
pub proof fn law_pastes_are_marked_whole(bytes: Seq<u8>, start: int, at: int)
    requires
        0 <= start <= at,
        begins_paste(bytes, at) || ends_paste(bytes, at),
    ensures
        !(at < chunk_end(bytes, start) < at + 6),
{
    if begins_paste(bytes, at) {
        assert(bytes.subrange(at, at + 6) =~= crate::input::paste_start());
    } else {
        assert(bytes.subrange(at, at + 6) =~= crate::input::paste_end());
    }
    assert(crate::input::is_mark(bytes, at));
    law_marks_stay_whole(bytes, start, at);
}

/// Stepping back from a place goes over bytes that continue a character only, and
/// stops at the first other one.
proof fn lemma_steps_back(bytes: Seq<u8>, start: int, end: int)
    requires
        start <= end,
    ensures
        ({
            let cut = character_cut(bytes, start, end);
            &&& start <= cut <= end
            &&& forall|k: int| cut < k <= end ==> 128 <= #[trigger] bytes[k] <= 191
            &&& start < cut < bytes.len() ==> !(128 <= bytes[cut] <= 191)
        }),
    decreases end - start,
{
    if start < end < bytes.len() && crate::input::is_continuation(bytes[end]) {
        lemma_steps_back(bytes, start, end - 1);
    }
}

/// Where a mark is found, it ends behind the place that was looked at.
proof fn lemma_mark_ends_behind(bytes: Seq<u8>, at: int, end: int, marker: Seq<u8>)
    requires
        marker.len() == 6,
        at >= end - 5,
    ensures
        mark_end(bytes, at, end, marker) matches Some(cut) ==> {
            &&& at + 6 <= cut < end + 6
            &&& cut > end
            &&& crate::input::mark_at(bytes, cut - 6, marker)
        },
    decreases end - at,
{
    if at < end && !crate::input::mark_at(bytes, at, marker) {
        lemma_mark_ends_behind(bytes, at + 1, end, marker);
    }
}

/// Whether six bytes stand at a place.
proof fn lemma_mark_bytes(bytes: Seq<u8>, at: int, mark: Seq<u8>)
    requires
        mark.len() == 6,
        0 <= at,
        crate::input::mark_at(bytes, at, mark),
    ensures
        at + 6 <= bytes.len(),
        bytes[at] == mark[0] && bytes[at + 1] == mark[1] && bytes[at + 2] == mark[2] && bytes[at
            + 3] == mark[3] && bytes[at + 4] == mark[4] && bytes[at + 5] == mark[5],
{
    let six = bytes.subrange(at, at + 6);
    assert(six[0] == bytes[at] && six[1] == bytes[at + 1] && six[2] == bytes[at + 2]);
    assert(six[3] == bytes[at + 3] && six[4] == bytes[at + 4] && six[5] == bytes[at + 5]);
}

/// Going on to the end of a mark goes on by less than the mark, and ends behind one.
proof fn lemma_marker_cut(bytes: Seq<u8>, start: int, end: int)
    requires
        0 <= start <= end,
    ensures
        ({
            let cut = marker_cut(bytes, start, end);
            &&& end <= cut < end + 6
            &&& cut > end ==> cut - 6 >= 0 && (begins_paste(bytes, cut - 6) || ends_paste(
                bytes,
                cut - 6,
            ))
        }),
{
    let p = crate::input::paste_start();
    let q = crate::input::paste_end();
    let from = crate::input::search_start(start, end, p);
    assert(from == crate::input::search_start(start, end, q));
    lemma_mark_ends_behind(bytes, from, end, p);
    lemma_mark_ends_behind(bytes, from, end, q);
    match mark_end(bytes, from, end, p) {
        Some(cut) => {
            lemma_mark_bytes(bytes, cut - 6, p);
        },
        None => match mark_end(bytes, from, end, q) {
            Some(cut) => {
                lemma_mark_bytes(bytes, cut - 6, q);
            },
            None => {},
        },
    }
}

/// A chunk of input takes the rest where that is no more than 4096 bytes. Otherwise
/// it takes 4096, less the bytes of a character that goes on behind them, or up to
/// the end of a paste mark that does.
pub proof fn law_chunks_are_full(bytes: Seq<u8>, start: int)
    requires
        0 <= start < bytes.len(),
    ensures
        bytes.len() - start <= 4096 ==> chunk_end(bytes, start) == bytes.len(),
        bytes.len() - start > 4096 ==> {
            let end = chunk_end(bytes, start);
            &&& start < end <= start + 4096 + 5
            &&& forall|k: int| end < k <= start + 4096 ==> 128 <= #[trigger] bytes[k] <= 191
            &&& end > start + 4096 ==> begins_paste(bytes, end - 6) || ends_paste(bytes, end - 6)
        },
        (bytes.len() - start > 4096 && !(128 <= bytes[start + 4096] <= 191) && forall|at: int|
            start + 4096 - 6 < at < start + 4096 ==> !(#[trigger] begins_paste(bytes, at))
                && !ends_paste(bytes, at)) ==> chunk_end(bytes, start) == start + 4096,
{
    crate::input::law_chunks_are_bounded(bytes, start);
    let ideal = start + 4096;
    if ideal < bytes.len() {
        let end = character_cut(bytes, start, ideal);
        lemma_steps_back(bytes, start, ideal);
        lemma_marker_cut(bytes, start, end);
        let cut = marker_cut(bytes, start, end);
        assert(chunk_end(bytes, start) == if cut > start {
            cut
        } else {
            ideal
        });
        if !(128 <= bytes[ideal] <= 191) {
            assert(end == ideal);
            if cut > end {
                let at = cut - 6;
                assert(start + 4096 - 6 < at < start + 4096);
                assert(begins_paste(bytes, at) || ends_paste(bytes, at));
            }
        }
    }
}

/// An image is put at its place in the pane: the cursor goes to the row and the
/// column, both counted from one, and the payload stands between the bytes that begin
/// and end a command for the terminal. Anything else goes out as it is.
pub proof fn law_passthrough_is_placed(geometry: PaneGeometry, passthrough: TerminalPassthrough)
    ensures
        passthrough.kind is Raw ==> rendered(geometry, passthrough) == passthrough.payload@,
        passthrough.kind is KittyGraphics ==> rendered(geometry, passthrough) == text::bytes(
            cursor_text(geometry, passthrough),
        ) + seq![27u8, 95] + passthrough.payload@ + seq![27u8, 92],
        (geometry.y + passthrough.cursor_y + 1 <= u32::MAX && geometry.x + passthrough.cursor_x + 1
            <= u32::MAX) ==> cursor_text(geometry, passthrough) == seq!['\u{1b}', '[']
            + text::decimal((geometry.y + passthrough.cursor_y + 1) as nat) + seq![';']
            + text::decimal((geometry.x + passthrough.cursor_x + 1) as nat) + seq!['H'],
{
    reveal_strlit("\u{1b}[");
    reveal_strlit(";");
    reveal_strlit("H");
    assert("\u{1b}["@ =~= seq!['\u{1b}', '[']);
    assert(";"@ =~= seq![';']);
    assert("H"@ =~= seq!['H']);
    let place = text::bytes(cursor_text(geometry, passthrough));
    assert(place + (seq![27u8, 95] + passthrough.payload@ + seq![27u8, 92]) =~= place + seq![
        27u8,
        95,
    ] + passthrough.payload@ + seq![27u8, 92]);
}

/// What goes through to the terminal goes in its order, with nothing between.
pub proof fn law_passthrough_keeps_order(
    geometry: PaneGeometry,
    first: Seq<TerminalPassthrough>,
    second: Seq<TerminalPassthrough>,
    one: TerminalPassthrough,
)
    ensures
        all_rendered(geometry, Seq::empty()) == Seq::<u8>::empty(),
        all_rendered(geometry, seq![one]) == rendered(geometry, one),
        all_rendered(geometry, first + second) == all_rendered(geometry, first) + all_rendered(
            geometry,
            second,
        ),
    decreases second.len(),
{
    reveal_with_fuel(all_rendered, 2);
    let none: Seq<TerminalPassthrough> = Seq::empty();
    assert(seq![one].drop_last() =~= none);
    assert(all_rendered(geometry, seq![one]) =~= rendered(geometry, one));
    let all = first + second;
    if second.len() == 0 {
        assert(all =~= first);
        assert(all_rendered(geometry, all) =~= all_rendered(geometry, first) + all_rendered(
            geometry,
            second,
        ));
    } else {
        law_passthrough_keeps_order(geometry, first, second.drop_last(), one);
        assert(all.drop_last() =~= first + second.drop_last());
        assert(all_rendered(geometry, all) =~= all_rendered(geometry, first) + all_rendered(
            geometry,
            second,
        ));
    }
}

/// The rows of a terminal are those of its size, and so are the columns; it has no
/// size in points.
pub proof fn law_sizes_are_told(size: TerminalSize, winsize: Winsize)
    ensures
        spec_winsize(size).ws_row == size.rows,
        spec_winsize(size).ws_col == size.cols,
        spec_winsize(size).ws_xpixel == 0,
        spec_winsize(size).ws_ypixel == 0,
        spec_size(winsize).rows == winsize.ws_row,
        spec_size(winsize).cols == winsize.ws_col,
{
}

/// What is asked of a subscription: its own output, at most 256 events at a time, and
/// in the end its removal, once.
pub proof fn law_stream_requests(stream: StreamView)
    ensures
        stream.cursor_request() == Request::PaneOutputCursor(
            PaneOutputCursorRequest {
                subscription_id: stream.subscription_id,
                max_events: Some(256),
            },
        ),
        !stream.ended ==> stream.end_request() == Some(
            Request::UnsubscribePaneOutput(
                UnsubscribePaneOutputRequest { subscription_id: stream.subscription_id },
            ),
        ),
        stream.ended ==> stream.end_request() is None,
        stream.without_end().end_request() is None,
        stream.without_end().pending == stream.pending,
        stream.without_end().subscription_id == stream.subscription_id,
        PaneOutputStart::Now.spec_proto() is Now,
        PaneOutputStart::Oldest.spec_proto() is Oldest,
{
}

/// The wait between questions doubles, up to 50 milliseconds.
pub proof fn law_waits_double(stream: StreamView)
    requires
        stream.poll_delay <= 50,
    ensures
        2 * stream.poll_delay <= 50 ==> stream.next_delay() == 2 * stream.poll_delay,
        2 * stream.poll_delay > 50 ==> stream.next_delay() == 50,
{
}

/// Output comes as chunks in the order of its events, each with its number and its
/// bytes, and output that was missed as one notice that tells all that is known of
/// it. An answer for another subscription, and any other answer, is an error.
pub proof fn law_answers_are_taken(stream: StreamView, response: Response, i: int)
    ensures
        response matches Response::PaneOutputCursor(cursor) ==> if cursor.subscription_id
            == stream.subscription_id {
            let chunks = stream.answered(response)->Ok_0;
            &&& stream.answered(response) is Ok
            &&& chunks.len() == cursor.events@.len()
            &&& 0 <= i < chunks.len() ==> chunks[i] == (PaneOutputChunk::Bytes {
                sequence: cursor.events@[i].sequence,
                bytes: cursor.events@[i].bytes,
            })
        } else {
            stream.answered(response) == Err::<Seq<PaneOutputChunk>, ErrorView>(
                ErrorView::Server(
                    "rmux daemon sent subscription id "@ + text::decimal(
                        cursor.subscription_id as nat,
                    ) + " in `"@ + "pane-output-cursor"@ + "` response for subscription "@
                        + text::decimal(stream.subscription_id as nat),
                ),
            )
        },
        response matches Response::PaneOutputLag(lag) ==> if lag.subscription_id
            == stream.subscription_id {
            let told = lag.lag;
            let chunks = stream.answered(response)->Ok_0;
            &&& stream.answered(response) is Ok
            &&& chunks.len() == 1
            &&& chunks[0] is Lag
            &&& tells(chunks[0]->Lag_0, told)
        } else {
            stream.answered(response) == Err::<Seq<PaneOutputChunk>, ErrorView>(
                ErrorView::Server(
                    "rmux daemon sent subscription id "@ + text::decimal(
                        lag.subscription_id as nat,
                    ) + " in `"@ + "pane-output-lag"@ + "` response for subscription "@
                        + text::decimal(stream.subscription_id as nat),
                ),
            )
        },
        !(response is PaneOutputCursor || response is PaneOutputLag) ==> stream.answered(response)
            == Err::<Seq<PaneOutputChunk>, ErrorView>(
            ErrorView::Server(
                "rmux daemon sent an unexpected response for `"@ + "pane-output-cursor"@ + "`"@,
            ),
        ),
{
}

/// Whether a notice tells all that is known of missed output.
pub open spec fn tells(notice: PaneLagNotice, told: PaneOutputLagNotice) -> bool {
    &&& notice.expected_sequence == told.expected_sequence
    &&& notice.resume_sequence == told.resume_sequence
    &&& notice.missed_events == told.missed_events
    &&& notice.newest_sequence == told.newest_sequence
    &&& notice.recent.bytes == told.recent.bytes
    &&& notice.recent.oldest_sequence == told.recent.oldest_sequence
    &&& notice.recent.newest_sequence == told.recent.newest_sequence
}

/// A subscription is gone where the server says that it, or its receiver, was not
/// found.
pub proof fn law_gone_subscriptions(error: RmuxError)
    ensures
        says_gone(error) <==> (error matches RmuxError::Protocol { source } && (source@
            == ErrorView::Server("subscription not found"@) || source@ == ErrorView::Server(
            "subscription receiver not found"@,
        ))),
{
}

/// A line feed ends a line, and any other byte goes on with it.
pub proof fn law_bytes_make_lines(buffer: Seq<u8>, bytes: Seq<u8>, byte: u8)
    ensures
        fed(buffer, Seq::empty()) == (buffer, Seq::<Seq<u8>>::empty()),
        byte == 10 ==> fed(buffer, bytes.push(byte)) == (
            Seq::<u8>::empty(),
            fed(buffer, bytes).1.push(fed(buffer, bytes).0),
        ),
        byte != 10 ==> fed(buffer, bytes.push(byte)) == (
            fed(buffer, bytes).0.push(byte),
            fed(buffer, bytes).1,
        ),
{
    assert(bytes.push(byte).drop_last() =~= bytes);
}

/// A chunk of bytes adds the lines that it ends, as texts, behind those that wait;
/// a notice waits behind them, and an unfinished line is dropped.
pub proof fn law_chunks_add_lines(stream: LineStreamView, chunk: PaneOutputChunk, i: int)
    ensures
        chunk matches PaneOutputChunk::Bytes { sequence, bytes } ==> {
            let after = stream.absorbed(chunk);
            let lines = fed(stream.buffer, bytes@).1;
            let n = stream.pending.len();
            &&& after.buffer == fed(stream.buffer, bytes@).0
            &&& after.inner == stream.inner
            &&& after.pending.len() == n + lines.len()
            &&& 0 <= i < n ==> after.pending[i] == stream.pending[i]
            &&& n <= i < n + lines.len() ==> after.pending[i] == LineItemView::Line(
                text::rendered(lines[i - n]),
            )
        },
        chunk matches PaneOutputChunk::Lag(notice) ==> {
            let after = stream.absorbed(chunk);
            &&& after.buffer.len() == 0
            &&& after.inner == stream.inner
            &&& after.pending == stream.pending.push(LineItemView::Lag(notice))
        },
{
}

/// What a stream of lines does next: the first item that waits comes out; where none
/// waits, the first chunk is taken in; and where there is none either, more output is
/// asked for, unless the subscription is closed.
pub proof fn law_line_stream_steps(stream: LineStreamView, after: LineStreamView, step: LineStep)
    requires
        stream.answers(after, step),
    ensures
        stream.pending.len() > 0 ==> {
            &&& step is Yield
            &&& step->Yield_0@ == stream.pending[0]
            &&& after.pending == stream.pending.skip(1)
            &&& after.buffer == stream.buffer
            &&& after.inner == stream.inner
        },
        (stream.pending.len() == 0 && stream.inner.pending.len() == 0) ==> {
            &&& after == stream
            &&& stream.inner.closed ==> step is Closed
            &&& !stream.inner.closed ==> step == LineStep::Send(
                Request::PaneOutputCursor(
                    PaneOutputCursorRequest {
                        subscription_id: stream.inner.subscription_id,
                        max_events: Some(256),
                    },
                ),
            )
        },
        (stream.pending.len() == 0 && stream.inner.pending.len() > 0) ==> {
            let rest = LineStreamView {
                inner: StreamView { pending: stream.inner.pending.skip(1), ..stream.inner },
                ..stream
            };
            rest.absorbed(stream.inner.pending[0]).answers(after, step)
        },
{
    if stream.pending.len() == 0 && stream.inner.pending.len() > 0 {
        let rest = LineStreamView {
            inner: StreamView { pending: stream.inner.pending.skip(1), ..stream.inner },
            ..stream
        };
        assert(stream.advanced() == rest.absorbed(stream.inner.pending[0]).advanced());
    }
}

/// A client in control mode opens with escape, P1000p and closes with escape and a
/// backslash, the latter only behind output that was copied. A plain one does
/// neither.
pub proof fn law_control_mode_marks(mode: ControlMode, copied: bool, sent: Seq<u8>)
    ensures
        mode is ControlControl ==> opening(mode) == text::bytes(
            seq!['\u{1b}', 'P', '1', '0', '0', '0', 'p'],
        ),
        mode is ControlControl && copied ==> closing(mode, copied) == text::bytes(
            seq!['\u{1b}', '\\'],
        ),
        !copied ==> closing(mode, copied).len() == 0,
        mode is Plain ==> opening(mode).len() == 0 && closing(mode, copied).len() == 0,
        control_output(mode, sent) == opening(mode) + sent + closing(mode, true),
{
    reveal_strlit("\u{1b}P1000p");
    reveal_strlit("\u{1b}\\");
    assert("\u{1b}P1000p"@ =~= seq!['\u{1b}', 'P', '1', '0', '0', '0', 'p']);
    assert("\u{1b}\\"@ =~= seq!['\u{1b}', '\\']);
}

/// Commands go out in their order, each on a line of its own.
pub proof fn law_commands_are_lines(first: Seq<Seq<char>>, second: Seq<Seq<char>>, one: Seq<char>)
    ensures
        command_lines(Seq::empty()) == Seq::<u8>::empty(),
        command_lines(seq![one]) == text::bytes(one).push(10),
        command_lines(first + second) == command_lines(first) + command_lines(second),
    decreases second.len(),
{
    reveal_with_fuel(command_lines, 2);
    let none: Seq<Seq<char>> = Seq::empty();
    assert(seq![one].drop_last() =~= none);
    assert(command_lines(seq![one]) =~= text::bytes(one).push(10));
    let all = first + second;
    if second.len() == 0 {
        assert(all =~= first);
        assert(command_lines(all) =~= command_lines(first) + command_lines(second));
    } else {
        law_commands_are_lines(first, second.drop_last(), one);
        assert(all.drop_last() =~= first + second.drop_last());
        assert(command_lines(all) =~= command_lines(first) + command_lines(second));
    }
}

} // verus!
