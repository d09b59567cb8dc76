//! The course of a stream: connect, send, reconnect, announce, finish.
//!
//! A [`StreamCourse`] says what to do next. Whoever does it reports what came of it, and the
//! course goes on from there.
use vstd::prelude::*;
use crate::text::push_decimal;
use crate::text::decimal;

verus! {

/// How often a connection that broke is tried again.
pub const MAX_RETRIES: u32 = 5;

/// The seconds of a pause before a connection is tried again.
pub const RETRY_DELAY_SECS: u64 = 2;

/// The milliseconds for which samples are waited for.
pub const RECEIVE_TIMEOUT_MS: u64 = 100;

/// What is sent.
#[derive(Clone, Copy, PartialEq, Eq, Structural, Debug)]
pub enum Payload {
    /// The headers of the encoder.
    Headers,
    /// The pages of the samples that were encoded last.
    Block,
    /// The pages with which the encoder finished.
    Tail,
}

/// Why a stream ends before its time.
#[derive(Clone, Copy, PartialEq, Eq, Structural, Debug)]
pub enum StreamFailure {
    Connect,
    SendHeaders,
    Encode,
    Cancelled,
    NoConnection,
    ResendHeaders,
    Resend,
    Finish,
}

/// Where a stream stands.
#[derive(Clone, Copy, PartialEq, Eq, Structural, Debug)]
pub enum StreamState {
    Connecting,
    SendingHeaders,
    Waiting,
    Encoding,
    Sending,
    CheckingStop { attempt: u32 },
    Pausing { attempt: u32 },
    Reconnecting { attempt: u32 },
    ResendingHeaders,
    Resending,
    ReadingMetadata,
    Announcing,
    Finishing,
    SendingTail,
    Done,
    Failed { failure: StreamFailure },
}

/// What is to be done.
#[derive(Clone, Copy, PartialEq, Eq, Structural, Debug)]
pub enum StreamAction {
    /// Open a connection to the server.
    Connect,
    /// Send over the connection.
    Send { payload: Payload },
    /// Look whether to stop, then wait for samples.
    Receive,
    /// Mix and encode the samples.
    Encode,
    /// Look whether to stop.
    CheckStop,
    /// Wait before the next attempt.
    Pause,
    /// Take what is to be announced.
    TakeMetadata,
    /// Announce it.
    Announce,
    /// Finish the encoder.
    Finish,
    /// Nothing but to forget an error that was reported: the stream has ended well.
    Complete,
    /// Nothing but to report the failure.
    Report { failure: StreamFailure },
}

/// What came of it.
#[derive(Clone, Copy, PartialEq, Eq, Structural, Debug)]
pub enum StreamEvent {
    Succeeded,
    Failed,
    /// The encoder gave pages, or none.
    Encoded { empty: bool },
    /// Waiting for samples: the stream is to stop.
    Stopped,
    /// Waiting for samples: none came in time.
    TimedOut,
    /// Waiting for samples: none will come any more.
    Disconnected,
    /// Waiting for samples: some came.
    Received,
    /// Whether the stream is to stop.
    StopFlag { stop: bool },
    /// The wait is over.
    Paused,
    /// Whether there is something to announce.
    Metadata { changed: bool },
}

/// A message for the console.
#[derive(Clone, Copy, PartialEq, Eq, Structural, Debug)]
pub enum StreamLog {
    Connected,
    Started,
    SendFailed,
    Reconnecting { attempt: u32 },
    ReconnectFailed,
    Reconnected,
    NowPlaying,
    MetadataFailed,
}

/// What is to be done where a stream stands.
pub open spec fn action_of(s: StreamState) -> StreamAction {
    match s {
        StreamState::Connecting => StreamAction::Connect,
        StreamState::SendingHeaders => StreamAction::Send { payload: Payload::Headers },
        StreamState::Waiting => StreamAction::Receive,
        StreamState::Encoding => StreamAction::Encode,
        StreamState::Sending => StreamAction::Send { payload: Payload::Block },
        StreamState::CheckingStop { attempt } => StreamAction::CheckStop,
        StreamState::Pausing { attempt } => StreamAction::Pause,
        StreamState::Reconnecting { attempt } => StreamAction::Connect,
        StreamState::ResendingHeaders => StreamAction::Send { payload: Payload::Headers },
        StreamState::Resending => StreamAction::Send { payload: Payload::Block },
        StreamState::ReadingMetadata => StreamAction::TakeMetadata,
        StreamState::Announcing => StreamAction::Announce,
        StreamState::Finishing => StreamAction::Finish,
        StreamState::SendingTail => StreamAction::Send { payload: Payload::Tail },
        StreamState::Done => StreamAction::Complete,
        StreamState::Failed { failure } => StreamAction::Report { failure },
    }
}

/// Where a stream stands after an event. An event that does not belong to what was to be done
/// changes nothing. `bare` says that the encoder has no headers.
pub open spec fn next_state(bare: bool, s: StreamState, e: StreamEvent) -> StreamState {
    match (s, e) {
        (StreamState::Connecting, StreamEvent::Succeeded) => if bare {
            StreamState::Waiting
        } else {
            StreamState::SendingHeaders
        },
        (StreamState::Connecting, StreamEvent::Failed) => failed(StreamFailure::Connect),
        (StreamState::SendingHeaders, StreamEvent::Succeeded) => StreamState::Waiting,
        (StreamState::SendingHeaders, StreamEvent::Failed) => failed(StreamFailure::SendHeaders),
        (StreamState::Waiting, StreamEvent::Stopped) => StreamState::Finishing,
        (StreamState::Waiting, StreamEvent::Disconnected) => StreamState::Finishing,
        (StreamState::Waiting, StreamEvent::Received) => StreamState::Encoding,
        (StreamState::Encoding, StreamEvent::Encoded { empty }) => if empty {
            StreamState::ReadingMetadata
        } else {
            StreamState::Sending
        },
        (StreamState::Encoding, StreamEvent::Failed) => failed(StreamFailure::Encode),
        (StreamState::Sending, StreamEvent::Succeeded) => StreamState::ReadingMetadata,
        (StreamState::Sending, StreamEvent::Failed) => StreamState::CheckingStop { attempt: 1 },
        (StreamState::CheckingStop { attempt }, StreamEvent::StopFlag { stop }) => if stop {
            failed(StreamFailure::Cancelled)
        } else {
            StreamState::Pausing { attempt }
        },
        (StreamState::Pausing { attempt }, StreamEvent::Paused) => StreamState::Reconnecting {
            attempt,
        },
        (StreamState::Reconnecting { attempt }, StreamEvent::Succeeded) => if bare {
            StreamState::Resending
        } else {
            StreamState::ResendingHeaders
        },
        (StreamState::Reconnecting { attempt }, StreamEvent::Failed) => if attempt < MAX_RETRIES {
            StreamState::CheckingStop { attempt: (attempt + 1) as u32 }
        } else {
            failed(StreamFailure::NoConnection)
        },
        (StreamState::ResendingHeaders, StreamEvent::Succeeded) => StreamState::Resending,
        (StreamState::ResendingHeaders, StreamEvent::Failed) => failed(
            StreamFailure::ResendHeaders,
        ),
        (StreamState::Resending, StreamEvent::Succeeded) => StreamState::ReadingMetadata,
        (StreamState::Resending, StreamEvent::Failed) => failed(StreamFailure::Resend),
        (StreamState::ReadingMetadata, StreamEvent::Metadata { changed }) => if changed {
            StreamState::Announcing
        } else {
            StreamState::Waiting
        },
        (StreamState::Announcing, StreamEvent::Succeeded) => StreamState::Waiting,
        (StreamState::Announcing, StreamEvent::Failed) => StreamState::Waiting,
        (StreamState::Finishing, StreamEvent::Encoded { empty }) => if empty {
            StreamState::Done
        } else {
            StreamState::SendingTail
        },
        (StreamState::Finishing, StreamEvent::Failed) => failed(StreamFailure::Finish),
        (StreamState::SendingTail, StreamEvent::Succeeded) => StreamState::Done,
        (StreamState::SendingTail, StreamEvent::Failed) => StreamState::Done,
        _ => s,
    }
}

pub open spec fn failed(failure: StreamFailure) -> StreamState {
    StreamState::Failed { failure }
}

/// What an event makes the console say.
pub open spec fn log_of(bare: bool, s: StreamState, e: StreamEvent) -> Option<StreamLog> {
    match (s, e) {
        (StreamState::Connecting, StreamEvent::Succeeded) => Some(StreamLog::Connected),
        (StreamState::SendingHeaders, StreamEvent::Succeeded) => Some(StreamLog::Started),
        (StreamState::Sending, StreamEvent::Failed) => Some(StreamLog::SendFailed),
        (StreamState::CheckingStop { attempt }, StreamEvent::StopFlag { stop }) => if stop {
            None
        } else {
            Some(StreamLog::Reconnecting { attempt })
        },
        (StreamState::Reconnecting { attempt }, StreamEvent::Succeeded) => if bare {
            Some(StreamLog::Reconnected)
        } else {
            None
        },
        (StreamState::Reconnecting { attempt }, StreamEvent::Failed) => Some(
            StreamLog::ReconnectFailed,
        ),
        (StreamState::ResendingHeaders, StreamEvent::Succeeded) => Some(StreamLog::Reconnected),
        (StreamState::ReadingMetadata, StreamEvent::Metadata { changed }) => if changed {
            Some(StreamLog::NowPlaying)
        } else {
            None
        },
        (StreamState::Announcing, StreamEvent::Failed) => Some(StreamLog::MetadataFailed),
        _ => None,
    }
}

/// A stream on its way.
#[derive(Clone, Copy, PartialEq, Eq, Structural, Debug)]
pub struct StreamCourse {
    /// Whether the encoder has no headers.
    pub bare: bool,
    pub state: StreamState,
}

fn fail(failure: StreamFailure) -> (r: StreamState)
    ensures
        r == failed(failure),
{
    StreamState::Failed { failure }
}

impl StreamCourse {
    /// A stream at its beginning.
    pub fn new(bare: bool) -> (r: Self)
        ensures
            r == (StreamCourse { bare, state: StreamState::Connecting }),
    {
        StreamCourse { bare, state: StreamState::Connecting }
    }

    /// What is to be done.
    pub fn action(&self) -> (r: StreamAction)
        ensures
            r == action_of(self.state),
    {
        match self.state {
            StreamState::Connecting => StreamAction::Connect,
            StreamState::SendingHeaders => StreamAction::Send { payload: Payload::Headers },
            StreamState::Waiting => StreamAction::Receive,
            StreamState::Encoding => StreamAction::Encode,
            StreamState::Sending => StreamAction::Send { payload: Payload::Block },
            StreamState::CheckingStop { attempt } => StreamAction::CheckStop,
            StreamState::Pausing { attempt } => StreamAction::Pause,
            StreamState::Reconnecting { attempt } => StreamAction::Connect,
            StreamState::ResendingHeaders => StreamAction::Send { payload: Payload::Headers },
            StreamState::Resending => StreamAction::Send { payload: Payload::Block },
            StreamState::ReadingMetadata => StreamAction::TakeMetadata,
            StreamState::Announcing => StreamAction::Announce,
            StreamState::Finishing => StreamAction::Finish,
            StreamState::SendingTail => StreamAction::Send { payload: Payload::Tail },
            StreamState::Done => StreamAction::Complete,
            StreamState::Failed { failure } => StreamAction::Report { failure },
        }
    }

    /// Takes in what came of what was to be done, and gives what the console is to say.
    pub fn step(&mut self, event: StreamEvent) -> (r: Option<StreamLog>)
        ensures
            final(self).bare == old(self).bare,
            final(self).state == next_state(old(self).bare, old(self).state, event),
            r == log_of(old(self).bare, old(self).state, event),
    {
        let bare = self.bare;
        let (next, log) = match (self.state, event) {
            (StreamState::Connecting, StreamEvent::Succeeded) => (
                if bare {
                    StreamState::Waiting
                } else {
                    StreamState::SendingHeaders
                },
                Some(StreamLog::Connected),
            ),
            (StreamState::Connecting, StreamEvent::Failed) => (fail(StreamFailure::Connect), None),
            (StreamState::SendingHeaders, StreamEvent::Succeeded) => (
                StreamState::Waiting,
                Some(StreamLog::Started),
            ),
            (StreamState::SendingHeaders, StreamEvent::Failed) => (
                fail(StreamFailure::SendHeaders),
                None,
            ),
            (StreamState::Waiting, StreamEvent::Stopped) => (StreamState::Finishing, None),
            (StreamState::Waiting, StreamEvent::Disconnected) => (StreamState::Finishing, None),
            (StreamState::Waiting, StreamEvent::Received) => (StreamState::Encoding, None),
            (StreamState::Encoding, StreamEvent::Encoded { empty }) => (
                if empty {
                    StreamState::ReadingMetadata
                } else {
                    StreamState::Sending
                },
                None,
            ),
            (StreamState::Encoding, StreamEvent::Failed) => (fail(StreamFailure::Encode), None),
            (StreamState::Sending, StreamEvent::Succeeded) => (StreamState::ReadingMetadata, None),
            (StreamState::Sending, StreamEvent::Failed) => (
                StreamState::CheckingStop { attempt: 1 },
                Some(StreamLog::SendFailed),
            ),
            (StreamState::CheckingStop { attempt }, StreamEvent::StopFlag { stop }) => if stop {
                (fail(StreamFailure::Cancelled), None)
            } else {
                (StreamState::Pausing { attempt }, Some(StreamLog::Reconnecting { attempt }))
            },
            (StreamState::Pausing { attempt }, StreamEvent::Paused) => (
                StreamState::Reconnecting { attempt },
                None,
            ),
            (StreamState::Reconnecting { attempt }, StreamEvent::Succeeded) => if bare {
                (StreamState::Resending, Some(StreamLog::Reconnected))
            } else {
                (StreamState::ResendingHeaders, None)
            },
            (StreamState::Reconnecting { attempt }, StreamEvent::Failed) => (
                if attempt < MAX_RETRIES {
                    StreamState::CheckingStop { attempt: attempt + 1 }
                } else {
                    fail(StreamFailure::NoConnection)
                },
                Some(StreamLog::ReconnectFailed),
            ),
            (StreamState::ResendingHeaders, StreamEvent::Succeeded) => (
                StreamState::Resending,
                Some(StreamLog::Reconnected),
            ),
            (StreamState::ResendingHeaders, StreamEvent::Failed) => (
                fail(StreamFailure::ResendHeaders),
                None,
            ),
            (StreamState::Resending, StreamEvent::Succeeded) => (
                StreamState::ReadingMetadata,
                None,
            ),
            (StreamState::Resending, StreamEvent::Failed) => (fail(StreamFailure::Resend), None),
            (StreamState::ReadingMetadata, StreamEvent::Metadata { changed }) => if changed {
                (StreamState::Announcing, Some(StreamLog::NowPlaying))
            } else {
                (StreamState::Waiting, None)
            },
            (StreamState::Announcing, StreamEvent::Succeeded) => (StreamState::Waiting, None),
            (StreamState::Announcing, StreamEvent::Failed) => (
                StreamState::Waiting,
                Some(StreamLog::MetadataFailed),
            ),
            (StreamState::Finishing, StreamEvent::Encoded { empty }) => (
                if empty {
                    StreamState::Done
                } else {
                    StreamState::SendingTail
                },
                None,
            ),
            (StreamState::Finishing, StreamEvent::Failed) => (fail(StreamFailure::Finish), None),
            (StreamState::SendingTail, StreamEvent::Succeeded) => (StreamState::Done, None),
            (StreamState::SendingTail, StreamEvent::Failed) => (StreamState::Done, None),
            (state, other) => (state, None),
        };
        self.state = next;
        log
    }
}

/// What the console says. `detail` is the error, or the song.
pub open spec fn log_text(line: StreamLog, detail: Seq<char>) -> Seq<char> {
    match line {
        StreamLog::Connected => "Connected to Icecast"@,
        StreamLog::Started => "Streaming started"@,
        StreamLog::SendFailed => "Send failed: "@ + detail + ", reconnecting..."@,
        StreamLog::Reconnecting { attempt } => "Reconnecting (attempt "@ + decimal(attempt as nat)
            + "/"@ + decimal(MAX_RETRIES as nat) + ")..."@,
        StreamLog::ReconnectFailed => "Reconnect failed: "@ + detail,
        StreamLog::Reconnected => "Reconnected successfully"@,
        StreamLog::NowPlaying => "Now playing: "@ + detail,
        StreamLog::MetadataFailed => "Metadata update failed: "@ + detail,
    }
}

fn joined(head: &str, detail: &str, tail: &str) -> (r: String)
    ensures
        r@ == head@ + detail@ + tail@,
{
    let mut out = String::new();
    out.append(head);
    out.append(detail);
    out.append(tail);
    assert(out@ =~= head@ + detail@ + tail@);
    out
}

fn prefixed(head: &str, detail: &str) -> (r: String)
    ensures
        r@ == head@ + detail@,
{
    let mut out = String::new();
    out.append(head);
    out.append(detail);
    assert(out@ =~= head@ + detail@);
    out
}

impl StreamLog {
    /// What the console says, if anything: a song without a text is not shown.
    pub fn text(&self, detail: &str) -> (r: Option<String>)
        ensures
            (match r {
                Some(t) => t@ == log_text(*self, detail@) && (*self == StreamLog::NowPlaying
                    ==> detail@.len() > 0),
                None => *self == StreamLog::NowPlaying && detail@.len() == 0,
            }),
    {
        match *self {
            StreamLog::Connected => Some("Connected to Icecast".to_string()),
            StreamLog::Started => Some("Streaming started".to_string()),
            StreamLog::SendFailed => Some(joined("Send failed: ", detail, ", reconnecting...")),
            StreamLog::Reconnecting { attempt } => {
                let mut out = String::new();
                out.append("Reconnecting (attempt ");
                push_decimal(&mut out, attempt as u64);
                out.append("/");
                push_decimal(&mut out, MAX_RETRIES as u64);
                out.append(")...");
                assert(out@ =~= log_text(*self, detail@));
                Some(out)
            },
            StreamLog::ReconnectFailed => Some(prefixed("Reconnect failed: ", detail)),
            StreamLog::Reconnected => Some("Reconnected successfully".to_string()),
            StreamLog::NowPlaying => if detail.is_empty() {
                None
            } else {
                Some(prefixed("Now playing: ", detail))
            },
            StreamLog::MetadataFailed => Some(prefixed("Metadata update failed: ", detail)),
        }
    }
}

/// What is said of a failure. `cause` is the error behind it.
pub open spec fn failure_text(failure: StreamFailure, cause: Seq<char>) -> Seq<char> {
    match failure {
        StreamFailure::Connect => cause,
        StreamFailure::SendHeaders => "Failed to send OGG headers: "@ + cause,
        StreamFailure::Encode => cause,
        StreamFailure::Cancelled => "Reconnection cancelled"@,
        StreamFailure::NoConnection => "Failed to reconnect after "@ + decimal(MAX_RETRIES as nat)
            + " attempts"@,
        StreamFailure::ResendHeaders => "Failed to re-send OGG headers: "@ + cause,
        StreamFailure::Resend => "Failed to send after reconnection: "@ + cause,
        StreamFailure::Finish => cause,
    }
}

impl StreamFailure {
    /// What is said of the failure.
    pub fn text(&self, cause: &str) -> (r: String)
        ensures
            r@ == failure_text(*self, cause@),
    {
        match *self {
            StreamFailure::Connect => cause.to_string(),
            StreamFailure::SendHeaders => prefixed("Failed to send OGG headers: ", cause),
            StreamFailure::Encode => cause.to_string(),
            StreamFailure::Cancelled => "Reconnection cancelled".to_string(),
            StreamFailure::NoConnection => {
                let mut out = String::new();
                out.append("Failed to reconnect after ");
                push_decimal(&mut out, MAX_RETRIES as u64);
                out.append(" attempts");
                assert(out@ =~= failure_text(*self, cause@));
                out
            },
            StreamFailure::ResendHeaders => prefixed("Failed to re-send OGG headers: ", cause),
            StreamFailure::Resend => prefixed("Failed to send after reconnection: ", cause),
            StreamFailure::Finish => cause.to_string(),
        }
    }
}

// What holds of every course.

/// Where a stream stands after events.
pub open spec fn state_after(bare: bool, events: Seq<StreamEvent>) -> StreamState
    decreases events.len(),
{
    if events.len() == 0 {
        StreamState::Connecting
    } else {
        next_state(bare, state_after(bare, events.drop_last()), events.last())
    }
}

/// Whether the connection has been sent the headers: a new one has not, unless there are none.
pub open spec fn headers_sent(bare: bool, events: Seq<StreamEvent>) -> bool
    decreases events.len(),
{
    if events.len() == 0 {
        false
    } else {
        let earlier = events.drop_last();
        if events.last() == StreamEvent::Succeeded {
            match action_of(state_after(bare, earlier)) {
                StreamAction::Connect => bare,
                StreamAction::Send { payload: Payload::Headers } => true,
                _ => headers_sent(bare, earlier),
            }
        } else {
            headers_sent(bare, earlier)
        }
    }
}

/// Whether pages of samples have been encoded and not been sent.
pub open spec fn block_pending(bare: bool, events: Seq<StreamEvent>) -> bool
    decreases events.len(),
{
    if events.len() == 0 {
        false
    } else {
        let earlier = events.drop_last();
        match (action_of(state_after(bare, earlier)), events.last()) {
            (StreamAction::Encode, StreamEvent::Encoded { empty }) => !empty,
            (StreamAction::Send { payload: Payload::Block }, StreamEvent::Succeeded) => false,
            _ => block_pending(bare, earlier),
        }
    }
}

/// Whether a stream stands where only a connection with headers brings it.
spec fn past_headers(s: StreamState) -> bool {
    match s {
        StreamState::Waiting => true,
        StreamState::Encoding => true,
        StreamState::Sending => true,
        StreamState::Resending => true,
        StreamState::ReadingMetadata => true,
        StreamState::Announcing => true,
        StreamState::Finishing => true,
        StreamState::SendingTail => true,
        _ => false,
    }
}

proof fn lemma_headers(bare: bool, events: Seq<StreamEvent>)
    ensures
        past_headers(state_after(bare, events)) ==> headers_sent(bare, events),
    decreases events.len(),
{
    if events.len() > 0 {
        lemma_headers(bare, events.drop_last());
    }
}

/// Pages of samples go only over a connection that has been sent the headers, also after it was
/// opened again.
pub proof fn headers_come_first(bare: bool, events: Seq<StreamEvent>, payload: Payload)
    requires
        action_of(state_after(bare, events)) == (StreamAction::Send { payload }),
        payload != Payload::Headers,
    ensures
        headers_sent(bare, events),
{
    lemma_headers(bare, events);
}

spec fn nothing_pending(s: StreamState) -> bool {
    match s {
        StreamState::Connecting => true,
        StreamState::SendingHeaders => true,
        StreamState::Waiting => true,
        StreamState::Encoding => true,
        StreamState::ReadingMetadata => true,
        StreamState::Announcing => true,
        StreamState::Finishing => true,
        StreamState::SendingTail => true,
        StreamState::Done => true,
        _ => false,
    }
}

proof fn lemma_pending(bare: bool, events: Seq<StreamEvent>)
    ensures
        nothing_pending(state_after(bare, events)) ==> !block_pending(bare, events),
    decreases events.len(),
{
    if events.len() > 0 {
        lemma_pending(bare, events.drop_last());
    }
}

/// Pages that have been encoded are sent before more samples are waited for and before the stream
/// ends well: a connection that breaks loses none of them.
pub proof fn no_block_is_skipped(bare: bool, events: Seq<StreamEvent>)
    requires
        ({
            let a = action_of(state_after(bare, events));
            a == StreamAction::Receive || a == StreamAction::Encode || a == StreamAction::Finish
                || a == StreamAction::Complete
        }),
    ensures
        !block_pending(bare, events),
{
    lemma_pending(bare, events);
}

/// Whether a stream stands between a broken connection and the next.
pub open spec fn is_retrying(s: StreamState) -> bool {
    s is CheckingStop || s is Pausing || s is Reconnecting
}

/// How many events are at most left until a connection stands or the stream has failed.
pub open spec fn retries_left(s: StreamState) -> int {
    match s {
        StreamState::CheckingStop { attempt } => 3 * (MAX_RETRIES - attempt) + 3,
        StreamState::Pausing { attempt } => 3 * (MAX_RETRIES - attempt) + 2,
        StreamState::Reconnecting { attempt } => 3 * (MAX_RETRIES - attempt) + 1,
        _ => 0,
    }
}

/// An attempt to reconnect is one of the first to the last that are allowed.
pub proof fn attempts_are_bounded(bare: bool, events: Seq<StreamEvent>)
    ensures
        (match state_after(bare, events) {
            StreamState::CheckingStop { attempt } => 1 <= attempt <= MAX_RETRIES,
            StreamState::Pausing { attempt } => 1 <= attempt <= MAX_RETRIES,
            StreamState::Reconnecting { attempt } => 1 <= attempt <= MAX_RETRIES,
            _ => true,
        }),
    decreases events.len(),
{
    if events.len() > 0 {
        attempts_are_bounded(bare, events.drop_last());
    }
}

/// Reconnecting comes to an end: every event that changes something leaves fewer to come.
pub proof fn retrying_ends(bare: bool, events: Seq<StreamEvent>, e: StreamEvent)
    requires
        is_retrying(state_after(bare, events)),
        next_state(bare, state_after(bare, events), e) != state_after(bare, events),
    ensures
        0 < retries_left(state_after(bare, events)) <= 3 * MAX_RETRIES,
        retries_left(next_state(bare, state_after(bare, events), e)) < retries_left(
            state_after(bare, events),
        ),
{
    attempts_are_bounded(bare, events);
}

/// Whether a stream is on its way to the end.
pub open spec fn is_ending(s: StreamState) -> bool {
    s is Finishing || s is SendingTail || s is Done || s is Failed
}

/// A stream that is told to stop finishes its encoder and does not wait for samples again.
pub proof fn stop_is_final(bare: bool, events: Seq<StreamEvent>, later: Seq<StreamEvent>)
    requires
        state_after(bare, events) == StreamState::Waiting,
    ensures
        state_after(bare, events.push(StreamEvent::Stopped)) == StreamState::Finishing,
        is_ending(state_after(bare, events.push(StreamEvent::Stopped) + later)),
    decreases later.len(),
{
    let stopped = events.push(StreamEvent::Stopped);
    assert(stopped.drop_last() =~= events);
    if later.len() == 0 {
        assert(stopped + later =~= stopped);
    } else {
        stop_is_final(bare, events, later.drop_last());
        assert((stopped + later).drop_last() =~= stopped + later.drop_last());
    }
}

/// A stream that has ended, well or not, stays so.
pub proof fn end_is_final(bare: bool, s: StreamState, e: StreamEvent)
    requires
        s is Done || s is Failed,
    ensures
        next_state(bare, s, e) == s,
{
}

/// Only a stop or the end of the samples leads to the end of the encoder, and both do: no song, no
/// error of an announcement and no time without samples ends the broadcast.
pub proof fn only_a_stop_finishes(bare: bool, s: StreamState, e: StreamEvent)
    ensures
        action_of(s) != StreamAction::Finish && action_of(next_state(bare, s, e))
            == StreamAction::Finish ==> action_of(s) == StreamAction::Receive && (e
            == StreamEvent::Stopped || e == StreamEvent::Disconnected),
        action_of(s) == StreamAction::Receive && (e == StreamEvent::Stopped || e
            == StreamEvent::Disconnected) ==> action_of(next_state(bare, s, e))
            == StreamAction::Finish,
{
}

/// The same of every course: where the encoder is to be finished, a stop or the end of the samples
/// is the last thing that changed where the stream stands.
pub proof fn finishing_was_asked_for(bare: bool, events: Seq<StreamEvent>)
    requires
        action_of(state_after(bare, events)) == StreamAction::Finish,
    ensures
        exists|i: int|
            0 <= i < events.len() && (#[trigger] events[i] == StreamEvent::Stopped || events[i]
                == StreamEvent::Disconnected),
    decreases events.len(),
{
    let earlier = events.drop_last();
    if action_of(state_after(bare, earlier)) == StreamAction::Finish {
        finishing_was_asked_for(bare, earlier);
        let i = choose|i: int|
            0 <= i < earlier.len() && (#[trigger] earlier[i] == StreamEvent::Stopped || earlier[i]
                == StreamEvent::Disconnected);
        assert(events[i] == earlier[i]);
    } else {
        only_a_stop_finishes(bare, state_after(bare, earlier), events.last());
        assert(events[events.len() - 1] == events.last());
    }
}

/// Music goes on after an announcement, whatever came of it, and without one where nothing changed.
/// Something is announced exactly where something changed.
pub proof fn music_goes_on_after_a_song(bare: bool, s: StreamState, e: StreamEvent, changed: bool)
    ensures
        action_of(s) == StreamAction::Announce && (e == StreamEvent::Succeeded || e
            == StreamEvent::Failed) ==> action_of(next_state(bare, s, e)) == StreamAction::Receive,
        action_of(s) == StreamAction::TakeMetadata ==> action_of(
            next_state(bare, s, StreamEvent::Metadata { changed }),
        ) == (if changed {
            StreamAction::Announce
        } else {
            StreamAction::Receive
        }),
        action_of(s) != StreamAction::Announce && action_of(next_state(bare, s, e))
            == StreamAction::Announce ==> action_of(s) == StreamAction::TakeMetadata && e == (
        StreamEvent::Metadata { changed: true }),
{
}

/// Samples that come are encoded, and nothing else is. A wait without samples goes on. The pages of
/// a block are sent where there are any, and then, as where there are none, what is being played is
/// looked at: once for each block.
pub proof fn every_block_takes_its_way(bare: bool, s: StreamState, e: StreamEvent, empty: bool)
    ensures
        action_of(s) == StreamAction::Receive ==> {
            &&& action_of(next_state(bare, s, StreamEvent::Received)) == StreamAction::Encode
            &&& next_state(bare, s, StreamEvent::TimedOut) == s
        },
        action_of(s) != StreamAction::Encode && action_of(next_state(bare, s, e))
            == StreamAction::Encode ==> action_of(s) == StreamAction::Receive && e
            == StreamEvent::Received,
        action_of(s) == StreamAction::Encode ==> action_of(
            next_state(bare, s, StreamEvent::Encoded { empty }),
        ) == (if empty {
            StreamAction::TakeMetadata
        } else {
            StreamAction::Send { payload: Payload::Block }
        }),
        action_of(s) == (StreamAction::Send { payload: Payload::Block }) ==> action_of(
            next_state(bare, s, StreamEvent::Succeeded),
        ) == StreamAction::TakeMetadata,
        action_of(s) != StreamAction::TakeMetadata && action_of(next_state(bare, s, e))
            == StreamAction::TakeMetadata ==> {
            ||| action_of(s) == StreamAction::Encode && e == (StreamEvent::Encoded { empty: true })
            ||| action_of(s) == (StreamAction::Send { payload: Payload::Block }) && e
                == StreamEvent::Succeeded
        },
{
}

/// A connection that stands is sent the headers where there are any. Behind them the first goes on
/// to the music and a later one to the block that was not sent.
pub proof fn connections_begin_with_headers(bare: bool, attempt: u32)
    ensures
        action_of(next_state(bare, StreamState::Connecting, StreamEvent::Succeeded)) == (if bare {
            StreamAction::Receive
        } else {
            StreamAction::Send { payload: Payload::Headers }
        }),
        action_of(
            next_state(bare, StreamState::Reconnecting { attempt }, StreamEvent::Succeeded),
        ) == (StreamAction::Send {
            payload: (if bare {
                Payload::Block
            } else {
                Payload::Headers
            }),
        }),
        !bare ==> ({
            let first = next_state(bare, StreamState::Connecting, StreamEvent::Succeeded);
            let later = next_state(
                bare,
                StreamState::Reconnecting { attempt },
                StreamEvent::Succeeded,
            );
            &&& action_of(next_state(bare, first, StreamEvent::Succeeded)) == StreamAction::Receive
            &&& action_of(next_state(bare, later, StreamEvent::Succeeded)) == (StreamAction::Send {
                payload: Payload::Block,
            })
        }),
        action_of(StreamState::Connecting) == StreamAction::Connect,
        action_of(StreamState::Reconnecting { attempt }) == StreamAction::Connect,
{
}

/// A send that fails is tried again over a new connection, at most five times, each time after a
/// look at the stop flag and a pause.
pub proof fn a_broken_connection_is_tried_again(bare: bool, attempt: u32)
    requires
        1 <= attempt <= 5,
    ensures
        next_state(bare, StreamState::Sending, StreamEvent::Failed) == (
        StreamState::CheckingStop { attempt: 1 }),
        ({
            let look = StreamState::CheckingStop { attempt };
            let pause = next_state(bare, look, StreamEvent::StopFlag { stop: false });
            let open = next_state(bare, pause, StreamEvent::Paused);
            let again = next_state(bare, open, StreamEvent::Failed);
            &&& action_of(look) == StreamAction::CheckStop
            &&& action_of(pause) == StreamAction::Pause
            &&& action_of(open) == StreamAction::Connect
            &&& attempt < 5 ==> again == (StreamState::CheckingStop { attempt: (attempt + 1) as u32 })
            &&& attempt == 5 ==> action_of(again) == (StreamAction::Report {
                failure: StreamFailure::NoConnection,
            })
            &&& action_of(next_state(bare, look, StreamEvent::StopFlag { stop: true })) == (
            StreamAction::Report { failure: StreamFailure::Cancelled })
        }),
{
}

/// What makes a stream fail: what was to be done, and what came of it.
pub open spec fn fails_with(s: StreamState, e: StreamEvent, failure: StreamFailure) -> bool {
    match failure {
        StreamFailure::Connect => s == StreamState::Connecting && e == StreamEvent::Failed,
        StreamFailure::SendHeaders => s == StreamState::SendingHeaders && e == StreamEvent::Failed,
        StreamFailure::Encode => action_of(s) == StreamAction::Encode && e == StreamEvent::Failed,
        StreamFailure::Cancelled => action_of(s) == StreamAction::CheckStop && e == (
        StreamEvent::StopFlag { stop: true }),
        StreamFailure::NoConnection => (s matches StreamState::Reconnecting { attempt }
            && attempt >= 5) && e == StreamEvent::Failed,
        StreamFailure::ResendHeaders => s == StreamState::ResendingHeaders && e
            == StreamEvent::Failed,
        StreamFailure::Resend => s == StreamState::Resending && e == StreamEvent::Failed,
        StreamFailure::Finish => action_of(s) == StreamAction::Finish && e == StreamEvent::Failed,
    }
}

/// A stream fails exactly where something fails that it cannot do without, and says what: nothing
/// else ends it with an error.
pub proof fn a_stream_fails_only_so(
    bare: bool,
    s: StreamState,
    e: StreamEvent,
    failure: StreamFailure,
)
    requires
        !(s is Failed),
    ensures
        action_of(next_state(bare, s, e)) == (StreamAction::Report { failure }) <==> fails_with(
            s,
            e,
            failure,
        ),
{
}

/// A stream ends well exactly behind the end of its encoder: at once where that gave no pages,
/// otherwise once these were sent, whatever came of that.
pub proof fn a_stream_ends_well_only_so(bare: bool, s: StreamState, e: StreamEvent)
    ensures
        action_of(s) == StreamAction::Finish ==> {
            &&& action_of(next_state(bare, s, StreamEvent::Encoded { empty: true }))
                == StreamAction::Complete
            &&& action_of(next_state(bare, s, StreamEvent::Encoded { empty: false })) == (
            StreamAction::Send { payload: Payload::Tail })
        },
        action_of(s) == (StreamAction::Send { payload: Payload::Tail }) && (e
            == StreamEvent::Succeeded || e == StreamEvent::Failed) ==> action_of(
            next_state(bare, s, e),
        ) == StreamAction::Complete,
        action_of(s) != StreamAction::Complete && action_of(next_state(bare, s, e))
            == StreamAction::Complete ==> {
            ||| action_of(s) == StreamAction::Finish && e == (StreamEvent::Encoded { empty: true })
            ||| action_of(s) == (StreamAction::Send { payload: Payload::Tail }) && (e
                == StreamEvent::Succeeded || e == StreamEvent::Failed)
        },
{
}

/// Whether an event can come of what is to be done.
pub open spec fn answers(action: StreamAction, e: StreamEvent) -> bool {
    match action {
        StreamAction::Connect => e == StreamEvent::Succeeded || e == StreamEvent::Failed,
        StreamAction::Send { payload } => e == StreamEvent::Succeeded || e == StreamEvent::Failed,
        StreamAction::Receive => e == StreamEvent::Stopped || e == StreamEvent::TimedOut || e
            == StreamEvent::Disconnected || e == StreamEvent::Received,
        StreamAction::Encode => e is Encoded || e == StreamEvent::Failed,
        StreamAction::CheckStop => e is StopFlag,
        StreamAction::Pause => e == StreamEvent::Paused,
        StreamAction::TakeMetadata => e is Metadata,
        StreamAction::Announce => e == StreamEvent::Succeeded || e == StreamEvent::Failed,
        StreamAction::Finish => e is Encoded || e == StreamEvent::Failed,
        StreamAction::Complete => false,
        StreamAction::Report { failure } => false,
    }
}

/// A stream moves exactly where an event answers what was to be done, but for a wait without samples,
/// and says nothing of any other event.
pub proof fn only_answers_count(bare: bool, s: StreamState, e: StreamEvent)
    ensures
        next_state(bare, s, e) != s <==> answers(action_of(s), e) && e != StreamEvent::TimedOut,
        !answers(action_of(s), e) ==> log_of(bare, s, e) is None,
{
}

/// What is to be done fixes where a stream stands, but for which connection it is on.
pub proof fn actions_tell_states_apart(s: StreamState, t: StreamState)
    requires
        action_of(s) == action_of(t),
    ensures
        s == t || {
            ||| s == StreamState::Connecting && t is Reconnecting
            ||| s is Reconnecting && (t == StreamState::Connecting || t is Reconnecting)
            ||| s == StreamState::SendingHeaders && t == StreamState::ResendingHeaders
            ||| s == StreamState::ResendingHeaders && t == StreamState::SendingHeaders
            ||| s == StreamState::Sending && t == StreamState::Resending
            ||| s == StreamState::Resending && t == StreamState::Sending
            ||| s is CheckingStop && t is CheckingStop
            ||| s is Pausing && t is Pausing
        },
{
}

/// When the console says what.
pub open spec fn says(bare: bool, s: StreamState, e: StreamEvent, line: StreamLog) -> bool {
    match line {
        StreamLog::Connected => s == StreamState::Connecting && e == StreamEvent::Succeeded,
        StreamLog::Started => s == StreamState::SendingHeaders && e == StreamEvent::Succeeded,
        StreamLog::SendFailed => s == StreamState::Sending && e == StreamEvent::Failed,
        StreamLog::Reconnecting { attempt } => s == (StreamState::CheckingStop { attempt }) && e
            == (StreamEvent::StopFlag { stop: false }),
        StreamLog::ReconnectFailed => s is Reconnecting && e == StreamEvent::Failed,
        StreamLog::Reconnected => e == StreamEvent::Succeeded && (s
            == StreamState::ResendingHeaders || (bare && s is Reconnecting)),
        StreamLog::NowPlaying => action_of(s) == StreamAction::TakeMetadata && e == (
        StreamEvent::Metadata { changed: true }),
        StreamLog::MetadataFailed => action_of(s) == StreamAction::Announce && e
            == StreamEvent::Failed,
    }
}

/// The console says each thing exactly when it happens.
pub proof fn the_console_says_what_happens(
    bare: bool,
    s: StreamState,
    e: StreamEvent,
    line: StreamLog,
)
    ensures
        log_of(bare, s, e) == Some(line) <==> says(bare, s, e, line),
{
}

/// What the console says of an error or a song ends with it, that of a broken connection has it
/// before its last words, and the rest does not depend on it.
pub proof fn messages_carry_their_detail(line: StreamLog, detail: Seq<char>, other: Seq<char>)
    ensures
        line == StreamLog::ReconnectFailed || line == StreamLog::NowPlaying || line
            == StreamLog::MetadataFailed ==> log_text(line, detail) == log_text(
            line,
            Seq::empty(),
        ) + detail,
        line == StreamLog::SendFailed ==> log_text(line, detail) == "Send failed: "@ + detail
            + ", reconnecting..."@,
        line == StreamLog::Connected || line == StreamLog::Started || line
            == StreamLog::Reconnected || line is Reconnecting ==> log_text(line, detail)
            == log_text(line, other),
{
    assert("Reconnect failed: "@ + Seq::<char>::empty() =~= "Reconnect failed: "@);
    assert("Now playing: "@ + Seq::<char>::empty() =~= "Now playing: "@);
    assert("Metadata update failed: "@ + Seq::<char>::empty() =~= "Metadata update failed: "@);
}

/// What is said of a failure ends with its cause, unless the stream was cancelled or has run out of
/// attempts.
pub proof fn failures_carry_their_cause(failure: StreamFailure, cause: Seq<char>, other: Seq<char>)
    ensures
        failure != StreamFailure::Cancelled && failure != StreamFailure::NoConnection
            ==> failure_text(failure, cause) == failure_text(failure, Seq::empty()) + cause,
        failure == StreamFailure::Connect || failure == StreamFailure::Encode || failure
            == StreamFailure::Finish ==> failure_text(failure, cause) == cause,
        failure == StreamFailure::Cancelled || failure == StreamFailure::NoConnection
            ==> failure_text(failure, cause) == failure_text(failure, other),
{
    let none = Seq::<char>::empty();
    assert(none + cause =~= cause);
    assert("Failed to send OGG headers: "@ + none =~= "Failed to send OGG headers: "@);
    assert("Failed to re-send OGG headers: "@ + none =~= "Failed to re-send OGG headers: "@);
    assert("Failed to send after reconnection: "@ + none
        =~= "Failed to send after reconnection: "@);
}

} // verus!
