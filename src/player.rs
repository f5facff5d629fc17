//! The playback session state machine. The audio device itself is driven
//! by the caller; this type decides what each transport operation does to
//! the session and what the queries report.
use vstd::prelude::*;
use crate::text::{two_digit_decimal, two_digits};

verus! {

#[derive(Debug, Clone, Copy, PartialEq, Eq, Structural)]
pub enum PlaybackState {
    Stopped,
    Playing,
    Paused,
}

/// The abstract state of the player.
#[derive(Debug, Clone, Copy, PartialEq, Eq, Structural)]
pub struct PlayerModel {
    /// An output session exists.
    pub has_session: bool,
    pub current_episode_id: Option<i32>,
    /// Playback speed in percent; kept across track changes.
    pub speed_percent: u32,
    pub state: PlaybackState,
    pub duration_secs: u64,
}

pub open spec fn after_play(m: PlayerModel, episode_id: i32, duration_secs: i64) -> PlayerModel {
    PlayerModel {
        has_session: true,
        current_episode_id: Some(episode_id),
        speed_percent: m.speed_percent,
        state: PlaybackState::Playing,
        duration_secs: if duration_secs < 0 {
            0
        } else {
            duration_secs as u64
        },
    }
}

pub open spec fn after_teardown(m: PlayerModel) -> PlayerModel {
    PlayerModel { has_session: false, ..m }
}

pub open spec fn after_pause(m: PlayerModel) -> PlayerModel {
    if m.has_session {
        PlayerModel { state: PlaybackState::Paused, ..m }
    } else {
        m
    }
}

pub open spec fn after_resume(m: PlayerModel) -> PlayerModel {
    if m.has_session {
        PlayerModel { state: PlaybackState::Playing, ..m }
    } else {
        m
    }
}

pub open spec fn after_stop(m: PlayerModel) -> PlayerModel {
    PlayerModel {
        has_session: false,
        current_episode_id: None,
        state: PlaybackState::Stopped,
        ..m
    }
}

/// A skip length in milliseconds; negative lengths count as none.
pub open spec fn skip_millis(seconds: i32) -> int {
    if seconds < 0 {
        0
    } else {
        seconds * 1000
    }
}

/// Owns the single playback session.
#[derive(Debug)]
pub struct AudioPlayer {
    has_session: bool,
    current_episode_id: Option<i32>,
    speed_percent: u32,
    state: PlaybackState,
    duration_secs: u64,
}

impl View for AudioPlayer {
    type V = PlayerModel;

    closed spec fn view(&self) -> PlayerModel {
        PlayerModel {
            has_session: self.has_session,
            current_episode_id: self.current_episode_id,
            speed_percent: self.speed_percent,
            state: self.state,
            duration_secs: self.duration_secs,
        }
    }
}

impl AudioPlayer {
    pub fn new() -> (r: AudioPlayer)
        ensures
            r@ == (PlayerModel {
                has_session: false,
                current_episode_id: None,
                speed_percent: 100,
                state: PlaybackState::Stopped,
                duration_secs: 0,
            }),
    {
        AudioPlayer {
            has_session: false,
            current_episode_id: None,
            speed_percent: 100,
            state: PlaybackState::Stopped,
            duration_secs: 0,
        }
    }

    /// Records that the previous session's output was stopped and dropped
    /// on the way to opening a new one.
    pub fn teardown(&mut self)
        ensures
            final(self)@ == after_teardown(old(self)@),
    {
        self.has_session = false;
    }

    /// Records that a new session started playing `episode_id`; a negative
    /// duration is kept as zero.
    pub fn play(&mut self, episode_id: i32, duration_secs: i64)
        ensures
            final(self)@ == after_play(old(self)@, episode_id, duration_secs),
    {
        self.has_session = true;
        self.current_episode_id = Some(episode_id);
        self.state = PlaybackState::Playing;
        self.duration_secs = if duration_secs < 0 {
            0
        } else {
            duration_secs as u64
        };
    }

    /// Pauses the session, if there is one; returns whether there was.
    pub fn pause(&mut self) -> (r: bool)
        ensures
            r == old(self)@.has_session,
            final(self)@ == after_pause(old(self)@),
    {
        if self.has_session {
            self.state = PlaybackState::Paused;
        }
        self.has_session
    }

    /// Resumes the session, if there is one; returns whether there was.
    pub fn resume(&mut self) -> (r: bool)
        ensures
            r == old(self)@.has_session,
            final(self)@ == after_resume(old(self)@),
    {
        if self.has_session {
            self.state = PlaybackState::Playing;
        }
        self.has_session
    }

    /// Ends the session; returns whether there was one to stop.
    pub fn stop(&mut self) -> (r: bool)
        ensures
            r == old(self)@.has_session,
            final(self)@ == after_stop(old(self)@),
    {
        let had = self.has_session;
        self.has_session = false;
        self.current_episode_id = None;
        self.state = PlaybackState::Stopped;
        had
    }

    /// Remembers the speed for this and later sessions; returns whether a
    /// session is there to apply it to now.
    pub fn set_speed(&mut self, speed_percent: u32) -> (r: bool)
        ensures
            r == old(self)@.has_session,
            final(self)@ == (PlayerModel { speed_percent, ..old(self)@ }),
    {
        self.speed_percent = speed_percent;
        self.has_session
    }

    pub fn has_session(&self) -> (r: bool)
        ensures
            r == self@.has_session,
    {
        self.has_session
    }

    /// Where to seek for a forward skip from `position_ms`, if a session
    /// is active; the target is not clamped to the end of the track.
    pub fn skip_forward(&self, position_ms: u64, seconds: i32) -> (r: Option<u64>)
        ensures
            r is Some <==> self@.has_session,
            r matches Some(t) ==> t == if position_ms + skip_millis(seconds) > u64::MAX {
                u64::MAX as int
            } else {
                position_ms + skip_millis(seconds)
            },
    {
        if !self.has_session {
            return None;
        }
        let step: u64 = if seconds < 0 {
            0
        } else {
            seconds as u64 * 1000
        };
        Some(position_ms.saturating_add(step))
    }

    /// Where to seek for a backward skip from `position_ms`, if a session
    /// is active; never before the start.
    pub fn skip_backward(&self, position_ms: u64, seconds: i32) -> (r: Option<u64>)
        ensures
            r is Some <==> self@.has_session,
            r matches Some(t) ==> t == if position_ms < skip_millis(seconds) {
                0
            } else {
                position_ms - skip_millis(seconds)
            },
    {
        if !self.has_session {
            return None;
        }
        let step: u64 = if seconds < 0 {
            0
        } else {
            seconds as u64 * 1000
        };
        Some(position_ms.saturating_sub(step))
    }

    /// The position to report, given the output's own position.
    pub fn get_position(&self, output_position_ms: u64) -> (r: u64)
        ensures
            r == if self@.has_session {
                output_position_ms
            } else {
                0
            },
    {
        if self.has_session {
            output_position_ms
        } else {
            0
        }
    }

    pub fn get_state(&self) -> (r: PlaybackState)
        ensures
            r == self@.state,
    {
        self.state
    }

    pub fn get_current_episode_id(&self) -> (r: Option<i32>)
        ensures
            r == self@.current_episode_id,
    {
        self.current_episode_id
    }

    pub fn get_speed(&self) -> (r: u32)
        ensures
            r == self@.speed_percent,
    {
        self.speed_percent
    }

    pub fn get_duration(&self) -> (r: u64)
        ensures
            r == self@.duration_secs,
    {
        self.duration_secs
    }

    /// The session ran out of audio by itself: it exists, its output is
    /// empty, and it is still meant to be playing.
    pub fn is_finished(&self, output_empty: bool) -> (r: bool)
        ensures
            r == (self@.has_session && output_empty && self@.state == PlaybackState::Playing),
    {
        self.has_session && output_empty && self.state == PlaybackState::Playing
    }
}

/// The transport operations move the state as expected: `play` starts
/// playing, `pause` then pauses and `resume` plays again, `stop` stops
/// and forgets the episode, and a backward skip stays at or after the
/// start and at or before where it began.
pub proof fn lemma_transport(m: PlayerModel, episode_id: i32, duration_secs: i64, position_ms: u64, seconds: i32)
    ensures
        after_play(m, episode_id, duration_secs).state == PlaybackState::Playing,
        after_play(m, episode_id, duration_secs).current_episode_id == Some(episode_id),
        after_pause(after_play(m, episode_id, duration_secs)).state == PlaybackState::Paused,
        after_resume(after_pause(after_play(m, episode_id, duration_secs))).state
            == PlaybackState::Playing,
        after_stop(m).state == PlaybackState::Stopped,
        after_stop(m).current_episode_id is None,
        (if position_ms < skip_millis(seconds) {
            0
        } else {
            position_ms - skip_millis(seconds)
        }) >= 0,
        (if position_ms < skip_millis(seconds) {
            0
        } else {
            position_ms - skip_millis(seconds)
        }) <= position_ms,
{
}

/// `MM:SS`, or `HH:MM:SS` from one hour on.
pub open spec fn clock_text(total_secs: nat) -> Seq<char> {
    let hours = total_secs / 3600;
    let minutes = (total_secs % 3600) / 60;
    let seconds = total_secs % 60;
    if hours > 0 {
        two_digits(hours) + ":"@ + two_digits(minutes) + ":"@ + two_digits(seconds)
    } else {
        two_digits(minutes) + ":"@ + two_digits(seconds)
    }
}

pub fn format_duration(total_secs: u64) -> (r: String)
    ensures
        r@ == clock_text(total_secs as nat),
{
    let hours = total_secs / 3600;
    let minutes = (total_secs % 3600) / 60;
    let seconds = total_secs % 60;
    if hours > 0 {
        two_digit_decimal(hours).concat(":").concat(two_digit_decimal(minutes).as_str()).concat(
            ":",
        ).concat(two_digit_decimal(seconds).as_str())
    } else {
        two_digit_decimal(minutes).concat(":").concat(two_digit_decimal(seconds).as_str())
    }
}

} // verus!
