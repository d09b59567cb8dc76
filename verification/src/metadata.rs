//! What is being played, as the player reports it.
use vstd::prelude::*;
use crate::stream::TrackMetadata;
use crate::text::split_first;
use crate::text::{split_at_first, splitting_keeps_text};

verus! {

/// The artist and the title of a line: what stands before the first tab and behind it. A line
/// without a tab is a title.
pub open spec fn line_parts(line: Seq<char>) -> (Seq<char>, Seq<char>) {
    match split_at_first(line, '\t') {
        Some((artist, title)) => (artist, title),
        None => (Seq::empty(), line),
    }
}

/// Reads the artist and the title of a line.
pub fn parse_line(line: &str) -> (r: (String, String))
    ensures
        (r.0@, r.1@) == line_parts(line@),
{
    match split_first(line, '\t') {
        Some((artist, title)) => (artist, title),
        None => (String::new(), line.to_string()),
    }
}

/// What a [`TrackMetadata`] holds.
pub struct TrackView {
    pub artist: Seq<char>,
    pub title: Seq<char>,
    pub changed: bool,
}

impl View for TrackMetadata {
    type V = TrackView;

    open spec fn view(&self) -> TrackView {
        TrackView { artist: self.artist@, title: self.title@, changed: self.changed }
    }
}

/// What a line of the player says is being played, still to be announced.
pub open spec fn track_of(line: Seq<char>) -> TrackView {
    let (artist, title) = line_parts(line);
    TrackView { artist, title, changed: true }
}

impl TrackView {
    /// The same, with nothing to be announced.
    pub open spec fn settled(self) -> TrackView {
        TrackView { changed: false, ..self }
    }

    /// What is to be announced.
    pub open spec fn announcement(self) -> Option<TrackView> {
        if self.changed {
            Some(self.settled())
        } else {
            None
        }
    }
}

impl TrackMetadata {
    /// Takes over what a line of the player says, and notes that it is to be announced.
    pub fn update(&mut self, line: &str)
        ensures
            final(self)@ == track_of(line@),
    {
        let (artist, title) = parse_line(line);
        self.artist = artist;
        self.title = title;
        self.changed = true;
    }

    /// What is to be announced, where it has changed since this was last asked.
    pub fn take_changed(&mut self) -> (r: Option<TrackMetadata>)
        ensures
            final(self)@ == old(self)@.settled(),
            (match r {
                Some(m) => old(self)@.announcement() == Some(m@),
                None => old(self)@.announcement() is None,
            }),
    {
        if self.changed {
            self.changed = false;
            Some(
                TrackMetadata {
                    artist: self.artist.clone(),
                    title: self.title.clone(),
                    changed: false,
                },
            )
        } else {
            None
        }
    }
}

/// What a line of the player says is announced once: the first time that this is asked, and not
/// again before the next line.
pub proof fn announced_once(line: Seq<char>)
    ensures
        ({
            let (artist, title) = line_parts(line);
            track_of(line).announcement() == Some(TrackView { artist, title, changed: false })
        }),
        track_of(line).settled().announcement() is None,
{
}

/// A line is its artist, a tab and its title, where it has a tab, and none stands in the artist.
/// Otherwise all of it is the title.
pub proof fn lines_are_artist_and_title(line: Seq<char>)
    ensures
        ({
            let (artist, title) = line_parts(line);
            if line.contains('\t') {
                line == artist + seq!['\t'] + title && !artist.contains('\t')
            } else {
                artist.len() == 0 && title == line
            }
        }),
{
    splitting_keeps_text(line, '\t');
    if let Some((artist, title)) = split_at_first(line, '\t') {
        assert(line[artist.len() as int] == '\t');
    }
}

/// Taking what is to be announced keeps it shown.
pub proof fn announcing_keeps_the_track(track: TrackView)
    ensures
        track.settled().artist == track.artist,
        track.settled().title == track.title,
        !track.settled().changed,
        track.announcement() is Some <==> track.changed,
        track.announcement() matches Some(t) ==> t.artist == track.artist && t.title == track.title,
{
}

} // verus!
