//! A snapshot of the remote player: its status and the tracks of its queue.

use vstd::prelude::*;

verus! {

/// Whether the player plays, pauses or has stopped.
#[derive(Clone, Copy, Debug, PartialEq, Eq)]
pub enum PlayState {
    Playing,
    Paused,
    Stopped,
}

/// The three-valued single mode.
#[derive(Clone, Copy, Debug, PartialEq, Eq)]
pub enum SingleMode {
    Off,
    Single,
    Oneshot,
}

/// The queue position that plays, and the seconds played of it.
#[derive(Clone, Copy, Debug, PartialEq, Eq)]
pub struct Song {
    pub pos: usize,
    pub elapsed: u16,
}

/// The player's flags and the song that plays, if any.
#[derive(Clone, Copy, Debug, PartialEq, Eq)]
pub struct Status {
    pub repeat: bool,
    pub random: bool,
    pub single: SingleMode,
    pub consume: bool,
    pub queue_len: usize,
    pub state: PlayState,
    pub song: Option<Song>,
}

/// One entry of the queue. `time` is its duration in seconds.
#[derive(Clone, Debug, PartialEq, Eq)]
pub struct Track {
    pub file: String,
    pub artist: Option<String>,
    pub album: Option<String>,
    pub title: Option<String>,
    pub time: u16,
}

/// The queue position that plays, if any.
pub open spec fn playing_pos(status: &Status) -> Option<usize> {
    match status.song {
        Some(song) => Some(song.pos),
        None => None,
    }
}

/// The track that plays: the one at the playing position, absent when nothing plays or
/// when that position lies outside the queue.
pub open spec fn spec_current_track(status: &Status, queue: Seq<Track>) -> Option<&Track> {
    match status.song {
        Some(song) => if song.pos < queue.len() {
            Some(&queue[song.pos as int])
        } else {
            None
        },
        None => None,
    }
}

/// Looks up the track that plays.
pub fn current_track<'a>(status: &Status, queue: &'a [Track]) -> (r: Option<&'a Track>)
    ensures
        r == spec_current_track(status, queue@),
{
    match status.song {
        Some(song) => if song.pos < queue.len() {
            Some(&queue[song.pos])
        } else {
            None
        },
        None => None,
    }
}

} // verus!
