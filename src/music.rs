//! Background music: which track plays, and the fade out and in around a
//! change of track.
use vstd::prelude::*;

verus! {

/// Length of a fade, in milliseconds.
pub const TRACK_CHANGE_MS: u64 = 500;
/// Full volume, in thousandths.
pub const FULL_VOLUME: u64 = 1000;

/// What the audio channel must do at a tick.
#[derive(Clone, Copy, Debug, PartialEq, Eq, Structural)]
pub enum MusicCommand {
    /// Set the channel's volume, in thousandths of full volume.
    SetVolume(u64),
    /// Silence the channel, stop it, and start this track looping.
    SwitchTo(usize),
    Nothing,
}

/// Track selection and fade state. The track playing is `changing_from`;
/// while it differs from `changing_to`, the music fades out and then changes.
#[derive(Clone, Copy, Debug, PartialEq, Eq, Structural)]
pub struct MusicState {
    pub track_count: usize,
    pub next_track_index: Option<usize>,
    /// When the last change began; `None` before any.
    pub last_track_change: Option<u64>,
    pub changing_from: usize,
    pub changing_to: usize,
}

/// The volume `elapsed` milliseconds into a fade: rising from silence when
/// fading in, falling from full volume when fading out.
pub open spec fn fade_volume(elapsed: u64, fading_in: bool) -> u64 {
    let up = (elapsed as int * FULL_VOLUME as int / TRACK_CHANGE_MS as int) as u64;
    if fading_in { up } else { (FULL_VOLUME - up) as u64 }
}

/// One tick of the music at time `now`: the state after it and the command
/// for the channel. A pending request starts a change now; within a fade the
/// volume follows [`fade_volume`]; once a fade out is over the track changes
/// and a fade in begins.
pub open spec fn music_tick_spec(m: MusicState, now: u64) -> (MusicState, MusicCommand) {
    let m1 = match m.next_track_index {
        Some(i) => MusicState { next_track_index: None, last_track_change: Some(now), changing_to: i, ..m },
        None => m,
    };
    let in_fade = match m1.last_track_change {
        Some(t) => now >= t && now - t < TRACK_CHANGE_MS,
        None => false,
    };
    if in_fade {
        (m1, MusicCommand::SetVolume(fade_volume((now - m1.last_track_change->0) as u64, m1.changing_from == m1.changing_to)))
    } else if m1.changing_from != m1.changing_to {
        (
            MusicState { changing_from: m1.changing_to, last_track_change: Some(now), ..m1 },
            MusicCommand::SwitchTo(m1.changing_to),
        )
    } else {
        (m1, MusicCommand::Nothing)
    }
}

impl MusicState {
    /// Music over `track_count` tracks, the first one playing at full volume.
    pub fn new(track_count: usize) -> (r: MusicState)
        ensures
            r == (MusicState {
                track_count,
                next_track_index: None,
                last_track_change: None,
                changing_from: 0,
                changing_to: 0,
            }),
    {
        MusicState { track_count, next_track_index: None, last_track_change: None, changing_from: 0, changing_to: 0 }
    }

    /// Asks for track `index`; a track that does not exist is ignored.
    pub fn switch_tracks(&mut self, index: usize)
        ensures
            index >= old(self).track_count ==> *final(self) == *old(self),
            index < old(self).track_count ==> *final(self) == (MusicState {
                next_track_index: Some(index),
                changing_to: index,
                ..*old(self)
            }),
    {
        if self.track_count <= index {
            return;
        }
        self.next_track_index = Some(index);
        self.changing_to = index;
    }

    /// One tick at time `now`.
    pub fn music_system(&mut self, now: u64) -> (r: MusicCommand)
        ensures
            (*final(self), r) == music_tick_spec(*old(self), now),
    {
        if let Some(i) = self.next_track_index {
            self.next_track_index = None;
            self.last_track_change = Some(now);
            self.changing_to = i;
        }
        let in_fade = match self.last_track_change {
            Some(t) => now >= t && now - t < TRACK_CHANGE_MS,
            None => false,
        };
        if in_fade {
            let elapsed = now - self.last_track_change.unwrap();
            let up = elapsed * FULL_VOLUME / TRACK_CHANGE_MS;
            if self.changing_from == self.changing_to {
                MusicCommand::SetVolume(up)
            } else {
                MusicCommand::SetVolume(FULL_VOLUME - up)
            }
        } else if self.changing_from != self.changing_to {
            self.changing_from = self.changing_to;
            self.last_track_change = Some(now);
            MusicCommand::SwitchTo(self.changing_to)
        } else {
            MusicCommand::Nothing
        }
    }
}

} // verus!
