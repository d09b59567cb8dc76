use rump::streaming::{
    Payload, StreamAction, StreamCourse, StreamEvent, StreamFailure, StreamLog, StreamState,
    MAX_RETRIES, RECEIVE_TIMEOUT_MS, RETRY_DELAY_SECS,
};

fn send(payload: Payload) -> StreamAction {
    StreamAction::Send { payload }
}

/// A course that has pages to send.
fn sending(bare: bool) -> StreamCourse {
    let mut course = StreamCourse::new(bare);
    course.step(StreamEvent::Succeeded);
    if !bare {
        course.step(StreamEvent::Succeeded);
    }
    course.step(StreamEvent::Received);
    course.step(StreamEvent::Encoded { empty: false });
    assert_eq!(course.action(), send(Payload::Block));
    course
}

#[test]
fn a_stream_from_beginning_to_end() {
    let mut course = StreamCourse::new(false);
    assert_eq!(course.action(), StreamAction::Connect);
    assert_eq!(course.step(StreamEvent::Succeeded), Some(StreamLog::Connected));
    assert_eq!(course.action(), send(Payload::Headers));
    assert_eq!(course.step(StreamEvent::Succeeded), Some(StreamLog::Started));
    assert_eq!(course.action(), StreamAction::Receive);
    assert_eq!(course.step(StreamEvent::TimedOut), None);
    assert_eq!(course.action(), StreamAction::Receive);
    assert_eq!(course.step(StreamEvent::Received), None);
    assert_eq!(course.action(), StreamAction::Encode);
    assert_eq!(course.step(StreamEvent::Encoded { empty: true }), None);
    assert_eq!(course.action(), StreamAction::TakeMetadata);
    assert_eq!(course.step(StreamEvent::Metadata { changed: false }), None);
    course.step(StreamEvent::Received);
    course.step(StreamEvent::Encoded { empty: false });
    assert_eq!(course.action(), send(Payload::Block));
    assert_eq!(course.step(StreamEvent::Succeeded), None);
    assert_eq!(course.step(StreamEvent::Metadata { changed: true }), Some(StreamLog::NowPlaying));
    assert_eq!(course.action(), StreamAction::Announce);
    assert_eq!(course.step(StreamEvent::Failed), Some(StreamLog::MetadataFailed));
    assert_eq!(course.action(), StreamAction::Receive);
    assert_eq!(course.step(StreamEvent::Stopped), None);
    assert_eq!(course.action(), StreamAction::Finish);
    course.step(StreamEvent::Encoded { empty: false });
    assert_eq!(course.action(), send(Payload::Tail));
    course.step(StreamEvent::Failed);
    assert_eq!(course.action(), StreamAction::Complete);
}

#[test]
fn a_stream_without_headers_starts_at_once() {
    let mut course = StreamCourse::new(true);
    assert_eq!(course.step(StreamEvent::Succeeded), Some(StreamLog::Connected));
    assert_eq!(course.action(), StreamAction::Receive);
    course.step(StreamEvent::Disconnected);
    course.step(StreamEvent::Encoded { empty: true });
    assert_eq!(course.action(), StreamAction::Complete);
}

#[test]
fn headers_and_block_are_sent_again_after_a_break() {
    let mut course = sending(false);
    assert_eq!(course.step(StreamEvent::Failed), Some(StreamLog::SendFailed));
    assert_eq!(course.action(), StreamAction::CheckStop);
    assert_eq!(
        course.step(StreamEvent::StopFlag { stop: false }),
        Some(StreamLog::Reconnecting { attempt: 1 })
    );
    assert_eq!(course.action(), StreamAction::Pause);
    course.step(StreamEvent::Paused);
    assert_eq!(course.action(), StreamAction::Connect);
    assert_eq!(course.step(StreamEvent::Failed), Some(StreamLog::ReconnectFailed));
    course.step(StreamEvent::StopFlag { stop: false });
    course.step(StreamEvent::Paused);
    assert_eq!(course.state, StreamState::Reconnecting { attempt: 2 });
    assert_eq!(course.step(StreamEvent::Succeeded), None);
    assert_eq!(course.action(), send(Payload::Headers));
    assert_eq!(course.step(StreamEvent::Succeeded), Some(StreamLog::Reconnected));
    assert_eq!(course.action(), send(Payload::Block));
    course.step(StreamEvent::Succeeded);
    assert_eq!(course.action(), StreamAction::TakeMetadata);
}

#[test]
fn only_the_block_is_sent_again_without_headers() {
    let mut course = sending(true);
    course.step(StreamEvent::Failed);
    course.step(StreamEvent::StopFlag { stop: false });
    course.step(StreamEvent::Paused);
    assert_eq!(course.step(StreamEvent::Succeeded), Some(StreamLog::Reconnected));
    assert_eq!(course.action(), send(Payload::Block));
}

#[test]
fn attempts_to_reconnect_are_counted() {
    let mut course = sending(false);
    course.step(StreamEvent::Failed);
    let mut attempts = 0;
    while course.action() == StreamAction::CheckStop {
        attempts += 1;
        assert_eq!(
            course.step(StreamEvent::StopFlag { stop: false }),
            Some(StreamLog::Reconnecting { attempt: attempts })
        );
        course.step(StreamEvent::Paused);
        course.step(StreamEvent::Failed);
    }
    assert_eq!(attempts, MAX_RETRIES);
    assert_eq!(course.action(), StreamAction::Report { failure: StreamFailure::NoConnection });
    assert_eq!((RETRY_DELAY_SECS, RECEIVE_TIMEOUT_MS), (2, 100));
}

#[test]
fn failures_end_a_stream() {
    let report = |failure| StreamAction::Report { failure };
    let mut course = StreamCourse::new(false);
    course.step(StreamEvent::Failed);
    assert_eq!(course.action(), report(StreamFailure::Connect));

    let mut course = StreamCourse::new(false);
    course.step(StreamEvent::Succeeded);
    course.step(StreamEvent::Failed);
    assert_eq!(course.action(), report(StreamFailure::SendHeaders));

    let mut course = StreamCourse::new(true);
    course.step(StreamEvent::Succeeded);
    course.step(StreamEvent::Received);
    course.step(StreamEvent::Failed);
    assert_eq!(course.action(), report(StreamFailure::Encode));
    course.step(StreamEvent::Received);
    assert_eq!(course.action(), report(StreamFailure::Encode));

    let mut course = sending(false);
    course.step(StreamEvent::Failed);
    course.step(StreamEvent::StopFlag { stop: true });
    assert_eq!(course.action(), report(StreamFailure::Cancelled));

    let mut course = sending(false);
    course.step(StreamEvent::Failed);
    course.step(StreamEvent::StopFlag { stop: false });
    course.step(StreamEvent::Paused);
    course.step(StreamEvent::Succeeded);
    let mut again = course;
    course.step(StreamEvent::Failed);
    assert_eq!(course.action(), report(StreamFailure::ResendHeaders));
    again.step(StreamEvent::Succeeded);
    again.step(StreamEvent::Failed);
    assert_eq!(again.action(), report(StreamFailure::Resend));

    let mut course = StreamCourse::new(true);
    course.step(StreamEvent::Succeeded);
    course.step(StreamEvent::Stopped);
    course.step(StreamEvent::Failed);
    assert_eq!(course.action(), report(StreamFailure::Finish));
}

#[test]
fn events_that_do_not_belong_change_nothing() {
    let mut course = StreamCourse::new(false);
    assert_eq!(course.step(StreamEvent::Paused), None);
    assert_eq!(course, StreamCourse::new(false));
}

#[test]
fn messages_of_a_stream() {
    let text = |line: StreamLog, detail: &str| line.text(detail).unwrap();
    assert_eq!(text(StreamLog::Connected, ""), "Connected to Icecast");
    assert_eq!(text(StreamLog::Started, ""), "Streaming started");
    assert_eq!(text(StreamLog::SendFailed, "gone"), "Send failed: gone, reconnecting...");
    assert_eq!(
        text(StreamLog::Reconnecting { attempt: 3 }, ""),
        "Reconnecting (attempt 3/5)..."
    );
    assert_eq!(text(StreamLog::ReconnectFailed, "no"), "Reconnect failed: no");
    assert_eq!(text(StreamLog::Reconnected, ""), "Reconnected successfully");
    assert_eq!(text(StreamLog::NowPlaying, "Voyager"), "Now playing: Voyager");
    assert_eq!(StreamLog::NowPlaying.text(""), None);
    assert_eq!(text(StreamLog::MetadataFailed, "no"), "Metadata update failed: no");
}

#[test]
fn messages_of_failures() {
    assert_eq!(StreamFailure::Connect.text("refused"), "refused");
    assert_eq!(StreamFailure::SendHeaders.text("gone"), "Failed to send OGG headers: gone");
    assert_eq!(StreamFailure::Encode.text("bad"), "bad");
    assert_eq!(StreamFailure::Cancelled.text("x"), "Reconnection cancelled");
    assert_eq!(StreamFailure::NoConnection.text("x"), "Failed to reconnect after 5 attempts");
    assert_eq!(StreamFailure::ResendHeaders.text("gone"), "Failed to re-send OGG headers: gone");
    assert_eq!(StreamFailure::Resend.text("gone"), "Failed to send after reconnection: gone");
    assert_eq!(StreamFailure::Finish.text("bad"), "bad");
}
