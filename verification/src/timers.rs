//! What the window shows from time to time: the state of the stream, the clock, the microphone
//! and what is being played.
use vstd::prelude::*;
use crate::state::{AppState, StateView};
use crate::stream::TrackMetadata;
use crate::text::push_decimal_two;
use crate::text::{all_digits, decimal_two, decimal_two_reads_back, digits_value};

verus! {

/// How the thread of a stream ended.
#[derive(Debug)]
pub enum StreamEnd {
    /// With an error.
    Failed(String),
    /// With a panic.
    Panicked,
    /// As it should.
    Completed,
}

/// What the window says of the end of a stream.
pub open spec fn end_text(end: StreamEnd) -> Seq<char> {
    match end {
        StreamEnd::Failed(message) => "Error: "@ + message@,
        StreamEnd::Panicked => "Stream thread panicked"@,
        StreamEnd::Completed => "Icecast Streaming Client"@,
    }
}

fn error_text(message: &str) -> (r: String)
    ensures
        r@ == "Error: "@ + message@,
{
    let mut out = String::new();
    out.append("Error: ");
    out.append(message);
    assert(out@ =~= "Error: "@ + message@);
    out
}

impl StateView {
    /// What runs once a stream has ended by itself. After an error that it reported its thread
    /// may still be held.
    pub open spec fn stream_ended(self, held: bool) -> StateView {
        StateView {
            is_streaming: false,
            is_streaming_flag: false,
            stream_stop: false,
            timer_seconds: 0,
            stream_thread: held,
            ..self
        }
    }
}

impl AppState {
    /// Takes in the error that the stream reported and how its thread ended, each where there is
    /// one. Gives what the window says once the stream has ended, and nothing while it goes on or
    /// where there is none. An error that was reported counts first.
    pub fn check_stream(&mut self, error: &Option<String>, end: &Option<StreamEnd>) -> (r: Option<
        String,
    >)
        ensures
            ({
                let before = old(self)@;
                let after = final(self)@;
                match (*error, *end) {
                    (Some(message), _) if before.is_streaming => after == before.stream_ended(
                        before.stream_thread,
                    ) && (r matches Some(text) && text@ == "Error: "@ + message@),
                    (None, Some(e)) if before.is_streaming && before.stream_thread => after
                        == before.stream_ended(false) && (r matches Some(text) && text@
                        == end_text(e)),
                    _ => after == before && r is None,
                }
            }),
            old(self)@.well_formed() ==> final(self)@.well_formed(),
            r is Some <==> old(self).is_streaming && (*error is Some || (old(self).stream_thread
                && *end is Some)),
            r is Some ==> !final(self).is_streaming && !final(self).is_streaming_flag,
            r is None ==> final(self).is_streaming == old(self).is_streaming
                && final(self).timer_seconds == old(self).timer_seconds,
            final(self)@.same_capture(old(self)@) && final(self)@.same_mic(old(self)@),
    {
        if !self.is_streaming {
            return None;
        }
        if let Some(message) = error {
            self.is_streaming = false;
            self.is_streaming_flag = false;
            self.stream_stop = false;
            self.timer_seconds = 0;
            return Some(error_text(message.as_str()));
        }
        if self.stream_thread {
            if let Some(e) = end {
                self.stream_thread = false;
                self.is_streaming = false;
                self.is_streaming_flag = false;
                self.stream_stop = false;
                self.timer_seconds = 0;
                let text = match e {
                    StreamEnd::Failed(message) => error_text(message.as_str()),
                    StreamEnd::Panicked => "Stream thread panicked".to_string(),
                    StreamEnd::Completed => "Icecast Streaming Client".to_string(),
                };
                return Some(text);
            }
        }
        None
    }

    /// Counts a second of the stream. Gives what its clock shows, where there is a stream.
    pub fn tick(&mut self) -> (r: Option<String>)
        requires
            old(self).is_streaming ==> old(self).timer_seconds < u32::MAX,
        ensures
            ({
                let before = old(self)@;
                let after = final(self)@;
                if before.is_streaming {
                    &&& after.timer_seconds == before.timer_seconds + 1
                    &&& after == (StateView { timer_seconds: after.timer_seconds, ..before })
                    &&& r matches Some(text) && text@ == clock(after.timer_seconds as nat)
                } else {
                    after == before && r is None
                }
            }),
            old(self)@.well_formed() ==> final(self)@.well_formed(),
    {
        if self.is_streaming {
            self.timer_seconds = self.timer_seconds + 1;
            Some(clock_text(self.timer_seconds))
        } else {
            None
        }
    }
}

/// The hours, minutes and seconds of a number of seconds, as a clock shows them.
pub open spec fn clock(t: nat) -> Seq<char> {
    decimal_two(t / 3600) + ":"@ + decimal_two((t % 3600) / 60) + ":"@ + decimal_two(t % 60)
}

/// The hours, minutes and seconds of a number of seconds, as a clock shows them.
pub fn clock_text(t: u32) -> (r: String)
    ensures
        r@ == clock(t as nat),
{
    let mut out = String::new();
    push_decimal_two(&mut out, (t / 3600) as u64);
    out.append(":");
    push_decimal_two(&mut out, ((t % 3600) / 60) as u64);
    out.append(":");
    push_decimal_two(&mut out, (t % 60) as u64);
    assert(out@ =~= clock(t as nat));
    out
}

/// What is said of the microphone.
pub fn mic_tooltip(active: bool) -> (r: String)
    ensures
        r@ == if active {
            "Mic LIVE"@
        } else {
            "Mic (click or hold PTT)"@
        },
{
    if active {
        "Mic LIVE".to_string()
    } else {
        "Mic (click or hold PTT)".to_string()
    }
}

/// The title and the artist to show, each where there is one: what is missing leaves what was
/// shown before.
pub fn now_playing(meta: &TrackMetadata) -> (r: (Option<String>, Option<String>))
    ensures
        (match r.0 {
            Some(t) => meta.title@.len() > 0 && t@ == meta.title@,
            None => meta.title@.len() == 0,
        }),
        (match r.1 {
            Some(a) => meta.artist@.len() > 0 && a@ == meta.artist@,
            None => meta.artist@.len() == 0,
        }),
{
    let title = if meta.title.as_str().is_empty() {
        None
    } else {
        Some(meta.title.clone())
    };
    let artist = if meta.artist.as_str().is_empty() {
        None
    } else {
        Some(meta.artist.clone())
    };
    (title, artist)
}

// What holds of the clock.

/// A clock tells the time: what it shows for hours, minutes and seconds adds up to the seconds,
/// minutes and seconds are two digits below sixty, and hours are two digits at least.
pub proof fn clock_tells_seconds(t: nat)
    ensures
        ({
            let (h, m, s) = (
                decimal_two(t / 3600),
                decimal_two((t % 3600) / 60),
                decimal_two(t % 60),
            );
            &&& clock(t) == h + ":"@ + m + ":"@ + s
            &&& digits_value(h) * 3600 + digits_value(m) * 60 + digits_value(s) == t
            &&& digits_value(m) < 60
            &&& digits_value(s) < 60
            &&& h.len() >= 2
            &&& m.len() == 2
            &&& s.len() == 2
            &&& all_digits(h) && all_digits(m) && all_digits(s)
        }),
{
    decimal_two_reads_back(t / 3600);
    decimal_two_reads_back((t % 3600) / 60);
    decimal_two_reads_back(t % 60);
}

/// The window names the error of a stream that failed, and nothing it says of another end looks so.
pub proof fn ends_are_told_apart(end: StreamEnd)
    ensures
        end matches StreamEnd::Failed(message) ==> end_text(end) == seq![
            'E',
            'r',
            'r',
            'o',
            'r',
            ':',
            ' ',
        ] + message@,
        end is Panicked ==> end_text(end) == "Stream thread panicked"@,
        end is Completed ==> end_text(end) == "Icecast Streaming Client"@,
        end is Failed <==> end_text(end).len() > 0 && end_text(end)[0] == 'E',
{
    reveal_strlit("Error: ");
    reveal_strlit("Stream thread panicked");
    reveal_strlit("Icecast Streaming Client");
    assert("Error: "@ =~= seq!['E', 'r', 'r', 'o', 'r', ':', ' ']);
}

/// A stream that ended by itself leaves what a stream that was stopped leaves, but for its thread,
/// and what is captured goes on.
pub proof fn an_ended_stream_is_as_stopped(before: StateView, held: bool)
    ensures
        ({
            let after = before.stream_ended(held);
            &&& !after.is_streaming && !after.is_streaming_flag && !after.stream_stop
            &&& after.timer_seconds == 0 && after.stream_thread == held
            &&& after.same_capture(before) && after.same_mic(before)
        }),
        before.stream_ended(false) == before.stream_stopped(),
{
}

/// A second later the clock shows one second more, and no two times look the same.
pub proof fn clocks_differ(t: nat, u: nat)
    ensures
        clock(t) == clock(u) ==> t == u,
{
    clock_tells_seconds(t);
    clock_tells_seconds(u);
    reveal_strlit(":");
    let (h, m, s) = (decimal_two(t / 3600), decimal_two((t % 3600) / 60), decimal_two(t % 60));
    let (i, n, r) = (decimal_two(u / 3600), decimal_two((u % 3600) / 60), decimal_two(u % 60));
    if clock(t) == clock(u) {
        let (a, b) = (clock(t), clock(u));
        assert(a.len() == h.len() + 6 && b.len() == i.len() + 6);
        let k = h.len() as int;
        assert(a.take(k) =~= h && b.take(k) =~= i);
        assert(a.subrange(k + 1, k + 3) =~= m && b.subrange(k + 1, k + 3) =~= n);
        assert(a.subrange(k + 4, k + 6) =~= s && b.subrange(k + 4, k + 6) =~= r);
    }
}

} // verus!
