//! The bytes and lines of a pane.
use std::collections::VecDeque;

use rmux::error::RmuxError;
use rmux::names::{PaneTarget, ProtoError, SessionName};
use rmux::protocol::{
    PaneOutputCursorResponse, PaneOutputEvent, PaneOutputLagNotice,
    PaneOutputLagResponse, PaneOutputSubscriptionStart, RecentOutput, Request, Response,
    SubscribePaneOutputRequest, SubscribePaneOutputResponse, UnsubscribePaneOutputRequest,
};
use rmux::streams::{
    ingest_cursor, is_subscription_gone, open_request, split_lines, subscription_mismatch_error,
    LineStep, PaneLagNotice, PaneLineItem, PaneLineStream, PaneOutputChunk, PaneOutputStart,
    PaneOutputStream, PaneRecentOutput, StreamStep, POLL_INITIAL_DELAY, POLL_MAX_DELAY,
};

#[test]
fn split_lines_buffers_partial_input_and_drops_trailing_newlines() {
    let mut buffer = Vec::new();
    let mut out: VecDeque<PaneLineItem> = VecDeque::new();
    split_lines(&mut buffer, b"alpha\nbet", &mut out);
    assert_eq!(buffer, b"bet");
    assert_eq!(out.len(), 1);
    assert!(matches!(
        &out[0],
        PaneLineItem::Line { text } if text == "alpha"
    ));

    split_lines(&mut buffer, b"a\n", &mut out);
    assert!(buffer.is_empty());
    assert_eq!(out.len(), 2);
    assert!(matches!(
        &out[1],
        PaneLineItem::Line { text } if text == "beta"
    ));
}

#[test]
fn split_lines_emits_empty_line_on_consecutive_newlines() {
    let mut buffer = Vec::new();
    let mut out: VecDeque<PaneLineItem> = VecDeque::new();
    split_lines(&mut buffer, b"\n\n", &mut out);
    assert!(buffer.is_empty());
    assert_eq!(out.len(), 2);
    for item in out {
        assert!(matches!(item, PaneLineItem::Line { text } if text.is_empty()));
    }
}

#[test]
fn split_lines_replaces_invalid_utf8_with_replacement_character() {
    let mut buffer = Vec::new();
    let mut out: VecDeque<PaneLineItem> = VecDeque::new();
    split_lines(&mut buffer, b"\xffhello\n", &mut out);
    assert_eq!(out.len(), 1);
    let PaneLineItem::Line { text } = out.into_iter().next().unwrap() else {
        panic!("expected line item");
    };
    assert!(
        text.contains('\u{FFFD}'),
        "lossy UTF-8 must replace invalid bytes with U+FFFD; got `{text}`"
    );
    assert!(text.ends_with("hello"));
}

#[test]
fn split_lines_keeps_carriage_return_inside_line() {
    let mut buffer = Vec::new();
    let mut out: VecDeque<PaneLineItem> = VecDeque::new();
    split_lines(&mut buffer, b"alpha\r\n", &mut out);
    assert_eq!(out.len(), 1);
    assert!(matches!(
        out.front().unwrap(),
        PaneLineItem::Line { text } if text == "alpha\r"
    ));
}

#[test]
fn pane_output_start_maps_to_proto_variants() {
    assert_eq!(
        PaneOutputStart::Now.into_proto(),
        PaneOutputSubscriptionStart::Now
    );
    assert_eq!(
        PaneOutputStart::Oldest.into_proto(),
        PaneOutputSubscriptionStart::Oldest
    );
}

#[test]
fn is_subscription_gone_matches_known_server_strings() {
    let gone = RmuxError::protocol(ProtoError::Server("subscription not found".to_owned()));
    let receiver_gone =
        RmuxError::protocol(ProtoError::Server("subscription receiver not found".to_owned()));
    let other = RmuxError::protocol(ProtoError::Server("different daemon error".to_owned()));
    assert!(is_subscription_gone(&gone));
    assert!(is_subscription_gone(&receiver_gone));
    assert!(!is_subscription_gone(&other));
}

#[test]
fn is_subscription_gone_does_not_match_ownership_or_invalid_target_errors() {
    let owned_elsewhere = RmuxError::protocol(ProtoError::Server(
        "subscription is not owned by this connection".to_owned(),
    ));
    let invalid_target = RmuxError::protocol(ProtoError::InvalidTarget {
        value: "alpha:0.0".to_owned(),
        reason: "pane index does not exist in session".to_owned(),
    });
    let session_not_found = RmuxError::protocol(ProtoError::SessionNotFound("alpha".to_owned()));
    assert!(!is_subscription_gone(&owned_elsewhere));
    assert!(!is_subscription_gone(&invalid_target));
    assert!(!is_subscription_gone(&session_not_found));
}

#[test]
fn split_lines_preserves_nul_byte_inside_rendered_text() {
    let mut buffer = Vec::new();
    let mut out: VecDeque<PaneLineItem> = VecDeque::new();
    split_lines(&mut buffer, b"a\0b\n", &mut out);
    assert_eq!(out.len(), 1);
    let PaneLineItem::Line { text } = out.into_iter().next().unwrap() else {
        panic!("expected line item");
    };
    assert_eq!(text, "a\0b");
    assert!(!text.contains('\u{FFFD}'));
}

#[test]
fn split_lines_reassembles_multibyte_codepoint_across_chunk_boundary() {
    let mut buffer = Vec::new();
    let mut out: VecDeque<PaneLineItem> = VecDeque::new();
    split_lines(&mut buffer, &[0xc3], &mut out); // first half of `é`
    assert!(out.is_empty(), "no LF yet, no line yielded");
    split_lines(&mut buffer, &[0xa9, b'\n'], &mut out);
    let PaneLineItem::Line { text } = out.into_iter().next().unwrap() else {
        panic!("expected line item");
    };
    assert_eq!(text, "é");
    assert!(!text.contains('\u{FFFD}'));
}

#[test]
fn split_lines_yields_many_lines_in_order_from_one_chunk() {
    let mut buffer = Vec::new();
    let mut out: VecDeque<PaneLineItem> = VecDeque::new();
    split_lines(&mut buffer, b"one\ntwo\nthree\n", &mut out);
    let texts: Vec<String> = out
        .into_iter()
        .map(|item| match item {
            PaneLineItem::Line { text } => text,
            other => panic!("expected line item, got {other:?}"),
        })
        .collect();
    assert_eq!(texts, vec!["one", "two", "three"]);
    assert!(buffer.is_empty(), "trailing LF flushes the buffer");
}

#[test]
fn ingest_cursor_preserves_event_order_and_payload_bytes() {
    let mut pending: VecDeque<PaneOutputChunk> = VecDeque::new();
    ingest_cursor(
        &mut pending,
        vec![
            PaneOutputEvent {
                sequence: 5,
                bytes: vec![0xff, 0x00, b'a'],
            },
            PaneOutputEvent {
                sequence: 6,
                bytes: b"b\n".to_vec(),
            },
        ],
    );
    let chunk = pending.pop_front().expect("first event");
    match chunk {
        PaneOutputChunk::Bytes { sequence, bytes } => {
            assert_eq!(sequence, 5);
            assert_eq!(bytes, vec![0xff, 0x00, b'a']);
        }
        other => panic!("expected bytes chunk, got {other:?}"),
    }
    let chunk = pending.pop_front().expect("second event");
    match chunk {
        PaneOutputChunk::Bytes { sequence, bytes } => {
            assert_eq!(sequence, 6);
            assert_eq!(bytes, b"b\n");
        }
        other => panic!("expected bytes chunk, got {other:?}"),
    }
}

#[test]
fn pane_output_start_default_is_now() {
    assert_eq!(PaneOutputStart::default(), PaneOutputStart::Now);
}

#[test]
fn pane_recent_output_from_proto_round_trips_payload_and_sequences() {
    let proto = RecentOutput {
        bytes: vec![0xff, 0xfe, 0x00, b'!'],
        oldest_sequence: Some(11),
        newest_sequence: Some(13),
    };
    let recent = PaneRecentOutput::from_proto(proto);
    assert_eq!(recent.bytes, vec![0xff, 0xfe, 0x00, b'!']);
    assert_eq!(recent.oldest_sequence, Some(11));
    assert_eq!(recent.newest_sequence, Some(13));
}

fn lag() -> PaneOutputLagNotice {
    PaneOutputLagNotice {
        expected_sequence: 3,
        resume_sequence: 9,
        missed_events: 6,
        newest_sequence: 12,
        recent: RecentOutput {
            bytes: b"abc".to_vec(),
            oldest_sequence: Some(8),
            newest_sequence: Some(9),
        },
    }
}

#[test]
fn pane_lag_notice_from_proto_round_trips_all_fields() {
    let notice = PaneLagNotice::from_proto(lag());
    assert_eq!(notice.expected_sequence, 3);
    assert_eq!(notice.resume_sequence, 9);
    assert_eq!(notice.missed_events, 6);
    assert_eq!(notice.newest_sequence, 12);
    assert_eq!(notice.recent.bytes, b"abc");
    assert_eq!(notice.recent.oldest_sequence, Some(8));
    assert_eq!(notice.recent.newest_sequence, Some(9));
}

fn opened(subscription_id: u64) -> PaneOutputStream {
    PaneOutputStream::open(Response::SubscribePaneOutput(SubscribePaneOutputResponse {
        subscription_id,
    }))
    .expect("a subscription opens a stream")
}

fn events(subscription_id: u64, pieces: &[&[u8]]) -> Response {
    Response::PaneOutputCursor(PaneOutputCursorResponse {
        subscription_id,
        events: pieces
            .iter()
            .enumerate()
            .map(|(index, piece)| PaneOutputEvent {
                sequence: index as u64,
                bytes: piece.to_vec(),
            })
            .collect(),
    })
}

#[test]
fn a_stream_asks_for_its_pane_from_where_it_begins() {
    let target = PaneTarget::with_window(SessionName::new("alpha"), 0, 1);
    assert_eq!(
        open_request(target.clone(), PaneOutputStart::Oldest),
        Request::SubscribePaneOutput(SubscribePaneOutputRequest {
            target,
            start: PaneOutputSubscriptionStart::Oldest,
        })
    );
}

#[test]
fn another_answer_opens_no_stream() {
    let refused = PaneOutputStream::open(Response::Done)
        .err()
        .expect("that is no subscription");
    assert_eq!(
        refused,
        RmuxError::protocol(ProtoError::Server(
            "rmux daemon sent an unexpected response for `subscribe-pane-output`".to_owned()
        ))
    );
}

#[test]
fn a_stream_gives_out_what_it_was_sent() {
    let mut stream = opened(7);
    assert!(matches!(stream.next(), StreamStep::Send(_)));
    let step = stream
        .resume(Ok(events(7, &[b"one", b"two"])))
        .expect("events are taken in");
    assert_eq!(
        step,
        StreamStep::Yield(PaneOutputChunk::Bytes {
            sequence: 0,
            bytes: b"one".to_vec(),
        })
    );
    assert_eq!(
        stream.next(),
        StreamStep::Yield(PaneOutputChunk::Bytes {
            sequence: 1,
            bytes: b"two".to_vec(),
        })
    );
    assert!(matches!(stream.next(), StreamStep::Send(_)));
}

#[test]
fn a_quiet_stream_waits_longer_and_longer_up_to_a_bound() {
    let mut stream = opened(7);
    let mut waits: Vec<u64> = Vec::new();
    for _ in 0..7 {
        assert!(matches!(stream.next(), StreamStep::Send(_)));
        match stream.resume(Ok(events(7, &[]))).expect("no events are fine") {
            StreamStep::Sleep(wait) => waits.push(wait),
            other => panic!("expected a wait, got {other:?}"),
        }
    }
    assert_eq!(waits[0], POLL_INITIAL_DELAY);
    assert_eq!(waits, vec![2, 4, 8, 16, 32, 50, 50]);
    assert_eq!(waits[6], POLL_MAX_DELAY);
}

#[test]
fn another_subscription_is_an_error() {
    let mut stream = opened(7);
    assert!(matches!(stream.next(), StreamStep::Send(_)));
    let error = stream
        .resume(Ok(events(8, &[b"one"])))
        .expect_err("the answer is for another subscription");
    assert!(matches!(error, RmuxError::Protocol { .. }));
    assert!(stream.validate_response_subscription("pane-output-cursor", 7).is_ok());
    let mismatch = subscription_mismatch_error("pane-output-cursor", 7, 8);
    assert!(mismatch.message().contains("pane-output-cursor"));
    assert!(mismatch.message().contains('7'));
    assert!(mismatch.message().contains('8'));
}

#[test]
fn a_subscription_that_is_gone_ends_the_stream() {
    let mut stream = opened(7);
    assert!(matches!(stream.next(), StreamStep::Send(_)));
    let gone = RmuxError::protocol(ProtoError::Server("subscription not found".to_owned()));
    assert_eq!(stream.resume(Err(gone)).expect("that is an end"), StreamStep::Closed);
    assert_eq!(stream.next(), StreamStep::Closed);
}

#[test]
fn another_error_is_passed_on() {
    let mut stream = opened(7);
    assert!(matches!(stream.next(), StreamStep::Send(_)));
    let error = RmuxError::protocol(ProtoError::Server("different daemon error".to_owned()));
    assert!(stream.resume(Err(error)).is_err());
}

#[test]
fn a_stream_ends_its_own_subscription() {
    let end = Request::UnsubscribePaneOutput(UnsubscribePaneOutputRequest { subscription_id: 7 });
    let mut stream = opened(7);
    assert_eq!(stream.unsubscribe_request(), Some(end));
    assert!(matches!(stream.next(), StreamStep::Send(_)));
    assert_eq!(stream.unsubscribe_request(), None);
    let end = Request::UnsubscribePaneOutput(UnsubscribePaneOutputRequest { subscription_id: 8 });
    let mut lines = PaneLineStream::wrap(opened(8));
    assert_eq!(lines.unsubscribe_request(), Some(end));
    assert_eq!(lines.unsubscribe_request(), None);
    assert_eq!(PaneLineStream::wrap(stream).unsubscribe_request(), None);
}

#[test]
fn a_stream_shows_nothing_of_what_it_holds() {
    let mut stream = opened(77);
    assert_eq!(
        stream.summary(),
        "PaneOutputStream { closed: false, buffered_chunks: 0, .. }"
    );
    stream.resume(Ok(events(77, &[b"one", b"two"]))).expect("events are taken in");
    assert_eq!(
        stream.summary(),
        "PaneOutputStream { closed: false, buffered_chunks: 1, .. }"
    );
    let mut lines = PaneLineStream::wrap(stream);
    assert!(matches!(lines.next(), LineStep::Send(_)));
    assert_eq!(
        lines.summary(),
        "PaneLineStream { buffered_bytes: 3, pending_items: 0, .. }"
    );
}

#[test]
fn nothing_was_lost_by_default() {
    let notice = PaneLagNotice::default();
    assert_eq!(notice.missed_events, 0);
    assert_eq!(notice.recent, PaneRecentOutput::default());
    assert_eq!(PaneOutputChunk::Lag(notice.clone()), PaneOutputChunk::Lag(notice));
}

#[test]
fn one_poll_gives_out_everything_at_hand() {
    let mut stream = opened(7);
    let (buffered, request) = stream.poll_begin();
    assert!(buffered.is_empty());
    assert!(request.is_some());
    let chunks = stream
        .poll_once(buffered, Ok(events(7, &[b"one", b"two"])))
        .expect("events are taken in");
    assert_eq!(chunks.len(), 2);
}

#[test]
fn lines_are_the_same_however_the_bytes_are_cut() {
    let mut whole: VecDeque<PaneLineItem> = VecDeque::new();
    let mut rest = Vec::new();
    split_lines(&mut rest, b"one\ntwo\nth", &mut whole);

    let mut pieces: VecDeque<PaneLineItem> = VecDeque::new();
    let mut buffer = Vec::new();
    for byte in b"one\ntwo\nth" {
        split_lines(&mut buffer, &[*byte], &mut pieces);
    }
    assert_eq!(pieces, whole);
    assert_eq!(buffer, rest);
}

#[test]
fn a_line_stream_gives_out_lines() {
    let mut stream = PaneLineStream::wrap(opened(7));
    assert!(matches!(stream.next(), LineStep::Send(_)));
    let step = stream
        .resume(Ok(events(7, &[b"al", b"pha\nbe"])))
        .expect("events are taken in");
    assert_eq!(
        step,
        LineStep::Yield(PaneLineItem::Line {
            text: "alpha".to_owned(),
        })
    );
    assert!(matches!(stream.next(), LineStep::Send(_)));
}

#[test]
fn lost_output_drops_the_line_that_had_begun() {
    let mut stream = PaneLineStream::wrap(opened(7));
    assert!(matches!(stream.next(), LineStep::Send(_)));
    let step = stream
        .resume(Ok(events(7, &[b"begun "])))
        .expect("events are taken in");
    assert!(matches!(step, LineStep::Send(_)));
    let step = stream
        .resume(Ok(Response::PaneOutputLag(PaneOutputLagResponse {
            subscription_id: 7,
            lag: lag(),
        })))
        .expect("lost output is told");
    assert!(matches!(step, LineStep::Yield(PaneLineItem::Lag(_))));
    assert!(matches!(stream.next(), LineStep::Send(_)));
    let step = stream
        .resume(Ok(events(7, &[b"afresh\n"])))
        .expect("events are taken in");
    assert_eq!(
        step,
        LineStep::Yield(PaneLineItem::Line {
            text: "afresh".to_owned(),
        })
    );
}
