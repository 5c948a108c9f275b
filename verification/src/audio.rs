//! The playback engine: play, pause and stop transitions over a single
//! owned state, the resume-position bookkeeping they maintain, and the
//! step the background sequencer takes to move to the next track.
//!
//! The engine decides; the caller owns the clock, the audio output and
//! the file system, performs what a transition asks for, and hands the
//! engine plain values: the discovered files and the current time.

use vstd::prelude::*;

use crate::catalog::FileEntry;
use crate::catalog::Track;
use crate::catalog::filter_tracks;
use crate::catalog::resume_point;
use crate::catalog::shuffle_tracks;
use crate::catalog::sort_tracks;
use crate::catalog::total_of;
use crate::catalog::lemma_total_permutation;
use crate::catalog::spec_kept;
use crate::catalog::spec_prefix;
use crate::catalog::spec_skipped;
use crate::catalog::spec_sorted;
use crate::catalog::spec_total;
use crate::config::Config;
use crate::util::file_name;
use crate::util::format_time;
use crate::util::spec_file_name;
use crate::util::spec_format_time;

verus! {

/// What the engine is doing.
pub enum Status {
    Idle,
    Playing,
    Paused,
}

/// Why an operation was refused.
#[derive(Debug)]
pub enum PlaybackError {
    /// The configuration could not be read or is invalid; carries the
    /// description given by whoever loaded it.
    Config(String),
    /// No playable file was found under the configured directories.
    NoPlayableTracks,
    /// Play was asked for while audio was already playing.
    AlreadyPlaying,
    /// Pause was asked for while no audio was playing.
    NotPlaying,
}

/// The text shown to the user for each error.
pub open spec fn spec_error_message(e: PlaybackError) -> Seq<char> {
    match e {
        PlaybackError::Config(s) => s@,
        PlaybackError::NoPlayableTracks => "Couldn't read any audio files"@,
        PlaybackError::AlreadyPlaying => "Audio is already playing."@,
        PlaybackError::NotPlaying => "No audio is playing."@,
    }
}

impl PlaybackError {
    /// Renders the error as the text shown to the user.
    pub fn message(&self) -> (r: String)
        ensures
            r@ == spec_error_message(*self),
    {
        match self {
            PlaybackError::Config(s) => s.clone(),
            PlaybackError::NoPlayableTracks => "Couldn't read any audio files".to_owned(),
            PlaybackError::AlreadyPlaying => "Audio is already playing.".to_owned(),
            PlaybackError::NotPlaying => "No audio is playing.".to_owned(),
        }
    }
}

/// The playback engine's whole state. One value of this type exists per
/// server process; the caller guards it with a lock, since a command
/// task and the sequencing task both reach it.
pub struct Playback {
    /// The configuration, present once the catalog has been built.
    pub config: Option<Config>,
    /// Seconds of playback accumulated across pause and resume cycles,
    /// counted from the start of the track list.
    pub uptime: u64,
    /// The caller's clock at the moment playback last started.
    pub start_time: u64,
    /// The catalog, in playback order.
    pub tracks: Vec<Track>,
    /// Index of the track the sequencer will load next.
    pub current_track: usize,
    /// Offset in seconds at which the next loaded track starts; consumed
    /// by the first load after a (re)start.
    pub pending_offset: u64,
    /// The summed duration of the catalog, in seconds.
    pub total_duration: u64,
    /// What the engine is doing.
    pub status: Status,
}

impl Playback {
    /// The engine's invariant: once the catalog is built it is non-empty
    /// with a positive, correctly summed total duration, the current
    /// index stays inside it, and audio only plays or pauses with a
    /// catalog present.
    pub open spec fn wf(self) -> bool {
        &&& self.config is Some ==> {
            &&& self.tracks@.len() > 0
            &&& self.total_duration == spec_total(self.tracks@)
            &&& self.total_duration > 0
            &&& self.current_track < self.tracks@.len()
        }
        &&& self.config is None ==> self.tracks@.len() == 0
        &&& !(self.status is Idle) ==> self.config is Some
    }
}

/// The name of the track the engine stands at.
pub open spec fn spec_track_name(s: Playback) -> Seq<char> {
    spec_file_name(s.tracks@[s.current_track as int].path@)
}

/// Message for a fresh start.
pub open spec fn playing_message(name: Seq<char>) -> Seq<char> {
    "Playing "@ + name
}

/// Message for resuming paused audio.
pub open spec fn unpausing_message(name: Seq<char>) -> Seq<char> {
    "Unpausing "@ + name
}

/// Message for a pause, with the accumulated uptime.
pub open spec fn pausing_message(name: Seq<char>, uptime: u64) -> Seq<char> {
    "Pausing "@ + name + " after "@ + spec_format_time(uptime)
}

/// Message for a stop, with the accumulated uptime.
pub open spec fn stopped_message(uptime: u64) -> Seq<char> {
    "Playback stopped after "@ + spec_format_time(uptime)
}

/// Seconds from the last resume to now, zero if the clock went back.
pub open spec fn spec_elapsed(start_time: u64, now: u64) -> u64 {
    if now >= start_time {
        (now - start_time) as u64
    } else {
        0
    }
}

/// An uptime with an elapsed stretch folded in, saturating at the top.
pub open spec fn spec_folded_uptime(uptime: u64, start_time: u64, now: u64) -> u64 {
    if uptime + spec_elapsed(start_time, now) > u64::MAX {
        u64::MAX
    } else {
        (uptime + spec_elapsed(start_time, now)) as u64
    }
}

/// What play does: refused while playing; otherwise the engine starts
/// or resumes at the track it stands at, remembering when.
pub open spec fn play_step(s: Playback, now: u64) -> (Playback, Result<
    Seq<char>,
    PlaybackError,
>) {
    if s.config is None {
        (s, Err(PlaybackError::NoPlayableTracks))
    } else if s.status is Playing {
        (s, Err(PlaybackError::AlreadyPlaying))
    } else if s.status is Paused {
        (
            Playback { status: Status::Playing, start_time: now, ..s },
            Ok(unpausing_message(spec_track_name(s))),
        )
    } else {
        (
            Playback { status: Status::Playing, start_time: now, ..s },
            Ok(playing_message(spec_track_name(s))),
        )
    }
}

/// What pause does: refused unless playing; otherwise the time since
/// the last resume is folded into the uptime and the engine pauses.
pub open spec fn pause_step(s: Playback, now: u64) -> (Playback, Result<
    Seq<char>,
    PlaybackError,
>) {
    if !(s.status is Playing) {
        (s, Err(PlaybackError::NotPlaying))
    } else {
        let up = spec_folded_uptime(s.uptime, s.start_time, now);
        (
            Playback { status: Status::Paused, uptime: up, ..s },
            Ok(pausing_message(spec_track_name(s), up)),
        )
    }
}

/// The resume offset a persisting stop writes back: the uptime reduced
/// modulo the total duration, or zero when resuming is disabled.
pub open spec fn spec_persisted_start(c: Config, uptime: u64, total_duration: u64) -> u64 {
    if c.resume_playback {
        (uptime as int % total_duration as int) as u64
    } else {
        0
    }
}

/// What stop does: it always succeeds; a final elapsed stretch is folded
/// into the uptime if audio was playing, and a persisting stop writes
/// the clamped resume offset into the configuration.
pub open spec fn stop_step(s: Playback, persist: bool, now: u64) -> (Playback, Seq<char>) {
    let up = if s.status is Playing {
        spec_folded_uptime(s.uptime, s.start_time, now)
    } else {
        s.uptime
    };
    let cfg = match s.config {
        Some(c) => if persist {
            Some(Config { start_point: spec_persisted_start(c, up, s.total_duration), ..c })
        } else {
            Some(c)
        },
        None => None,
    };
    (
        Playback { status: Status::Idle, uptime: up, config: cfg, ..s },
        stopped_message(up),
    )
}

impl Playback {
    /// A fresh engine: idle, with no catalog and no accumulated uptime.
    pub fn new() -> (r: Playback)
        ensures
            r.wf(),
            r.config is None,
            r.status is Idle,
            r.uptime == 0,
            r.start_time == 0,
            r.tracks@.len() == 0,
            r.current_track == 0,
            r.pending_offset == 0,
            r.total_duration == 0,
    {
        Playback {
            config: None,
            uptime: 0,
            start_time: 0,
            tracks: Vec::new(),
            current_track: 0,
            pending_offset: 0,
            total_duration: 0,
            status: Status::Idle,
        }
    }

    /// Builds the catalog once, from the files the caller discovered:
    /// filters them down to playable tracks, orders them as the
    /// configuration asks, sums the total duration, and converts the
    /// configured start point into a track index and an offset within
    /// it. Returns the paths of the skipped files, for the caller to
    /// warn about. A second call leaves the engine as it is.
    pub fn init(&mut self, config: Config, entries: Vec<FileEntry>) -> (r: Result<
        Vec<String>,
        PlaybackError,
    >)
        requires
            old(self).wf(),
            spec_total(spec_kept(entries@)) <= u64::MAX,
        ensures
            final(self).wf(),
            old(self).config is Some ==> *final(self) == *old(self) && (r matches Ok(v)
                && v@.len() == 0),
            old(self).config is None && spec_total(spec_kept(entries@)) == 0 ==> *final(self)
                == *old(self) && r == Err::<Vec<String>, PlaybackError>(
                PlaybackError::NoPlayableTracks,
            ),
            old(self).config is None && spec_total(spec_kept(entries@)) != 0 ==> {
                &&& (r matches Ok(v) && v@ == spec_skipped(entries@))
                &&& final(self).config == Some(config)
                &&& final(self).tracks@.to_multiset() == spec_kept(entries@).to_multiset()
                &&& (config.randomize_tracks != Some(true) ==> spec_sorted(final(self).tracks@))
                &&& final(self).total_duration == spec_total(spec_kept(entries@))
                &&& final(self).uptime == config.start_point as int % spec_total(
                    spec_kept(entries@),
                )
                &&& final(self).current_track < final(self).tracks@.len()
                &&& (final(self).pending_offset as int)
                    < final(self).tracks@[final(self).current_track as int].duration
                &&& spec_prefix(final(self).tracks@, final(self).current_track as int)
                    + final(self).pending_offset
                    == config.start_point as int % spec_total(spec_kept(entries@))
                &&& final(self).status == old(self).status
                &&& final(self).start_time == old(self).start_time
            },
    {
        if self.config.is_some() {
            return Ok(Vec::new());
        }

        let (tracks, skipped) = filter_tracks(entries);
        let mut tracks = tracks;
        let randomize = match config.randomize_tracks {
            Some(true) => true,
            _ => false,
        };
        if randomize {
            shuffle_tracks(&mut tracks);
        } else {
            sort_tracks(&mut tracks);
        }
        proof {
            lemma_total_permutation(spec_kept(entries@), tracks@);
        }

        let total = total_of(&tracks);
        if total == 0 {
            return Err(PlaybackError::NoPlayableTracks);
        }

        let (index, offset) = resume_point(&tracks, config.start_point);
        let up = config.start_point % total;
        self.uptime = up;
        self.tracks = tracks;
        self.current_track = index;
        self.pending_offset = offset;
        self.total_duration = total;
        self.config = Some(config);
        Ok(skipped)
    }

    /// Whether the catalog has been built yet.
    pub fn is_initialized(&self) -> (r: bool)
        ensures
            r == (self.config is Some),
    {
        self.config.is_some()
    }

    /// A borrow of the configuration, for the caller to persist.
    pub fn configuration(&self) -> (r: &Option<Config>)
        ensures
            r == &self.config,
    {
        &self.config
    }

    fn current_track_name(&self) -> (r: String)
        requires
            self.wf(),
            self.config is Some,
        ensures
            r@ == spec_track_name(*self),
    {
        file_name(self.tracks[self.current_track].path.as_str())
    }

    /// Starts or resumes playback. Refused when nothing playable is
    /// known or audio is already playing; a paused engine resumes in
    /// place, without rebuilding the catalog.
    pub fn play(&mut self, now: u64) -> (r: Result<String, PlaybackError>)
        requires
            old(self).wf(),
        ensures
            final(self).wf(),
            *final(self) == play_step(*old(self), now).0,
            (match (r, play_step(*old(self), now).1) {
                (Ok(m), Ok(sm)) => m@ == sm,
                (Err(e), Err(se)) => e == se,
                _ => false,
            }),
    {
        if self.config.is_none() {
            return Err(PlaybackError::NoPlayableTracks);
        }
        match self.status {
            Status::Playing => Err(PlaybackError::AlreadyPlaying),
            Status::Paused => {
                let name = self.current_track_name();
                self.status = Status::Playing;
                self.start_time = now;
                let mut m = "Unpausing ".to_owned();
                m.append(name.as_str());
                Ok(m)
            },
            Status::Idle => {
                let name = self.current_track_name();
                self.status = Status::Playing;
                self.start_time = now;
                let mut m = "Playing ".to_owned();
                m.append(name.as_str());
                Ok(m)
            },
        }
    }

    /// Pauses playback, folding the elapsed stretch since the last
    /// resume into the uptime. Refused while nothing is playing.
    pub fn pause(&mut self, now: u64) -> (r: Result<String, PlaybackError>)
        requires
            old(self).wf(),
        ensures
            final(self).wf(),
            *final(self) == pause_step(*old(self), now).0,
            (match (r, pause_step(*old(self), now).1) {
                (Ok(m), Ok(sm)) => m@ == sm,
                (Err(e), Err(se)) => e == se,
                _ => false,
            }),
    {
        match self.status {
            Status::Playing => {},
            _ => {
                return Err(PlaybackError::NotPlaying);
            },
        }
        let elapsed = if now >= self.start_time {
            now - self.start_time
        } else {
            0
        };
        let up = if self.uptime <= u64::MAX - elapsed {
            self.uptime + elapsed
        } else {
            u64::MAX
        };
        let name = self.current_track_name();
        self.uptime = up;
        self.status = Status::Paused;
        let t = format_time(up);
        let mut m = "Pausing ".to_owned();
        m.append(name.as_str());
        m.append(" after ");
        m.append(t.as_str());
        Ok(m)
    }

    /// Stops playback; always succeeds. A final elapsed stretch is
    /// folded into the uptime if audio was playing, and a persisting
    /// stop writes the resume offset, reduced modulo the catalog's
    /// total duration, back into the configuration — or zero when
    /// resuming is disabled.
    pub fn stop(&mut self, persist: bool, now: u64) -> (r: String)
        requires
            old(self).wf(),
        ensures
            final(self).wf(),
            *final(self) == stop_step(*old(self), persist, now).0,
            r@ == stop_step(*old(self), persist, now).1,
    {
        let playing = match self.status {
            Status::Playing => true,
            _ => false,
        };
        if playing {
            let elapsed = if now >= self.start_time {
                now - self.start_time
            } else {
                0
            };
            self.uptime = if self.uptime <= u64::MAX - elapsed {
                self.uptime + elapsed
            } else {
                u64::MAX
            };
        }
        self.status = Status::Idle;

        if persist {
            let total = self.total_duration;
            let taken = self.config.take();
            match taken {
                Some(mut cfg) => {
                    cfg.start_point = 0;
                    cfg.clamp_seek_start(self.uptime, total);
                    proof {
                        if cfg.resume_playback && self.uptime < total {
                            vstd::arithmetic::div_mod::lemma_small_mod(
                                self.uptime as nat,
                                total as nat,
                            );
                        }
                    }
                    self.config = Some(cfg);
                },
                None => {},
            }
        }
        let t = format_time(self.uptime);
        let mut m = "Playback stopped after ".to_owned();
        m.append(t.as_str());
        m
    }

    /// The sequencer's step once the output has drained: hands back the
    /// track to load and the offset to start it at, then advances the
    /// index, wrapping at the end of the catalog, and clears the offset
    /// so that later tracks start at their beginning.
    pub fn next_track(&mut self) -> (r: (usize, u64))
        requires
            old(self).wf(),
            old(self).config is Some,
        ensures
            final(self).wf(),
            r.0 == old(self).current_track,
            r.1 == old(self).pending_offset,
            final(self).current_track == (old(self).current_track + 1) % (
            old(self).tracks@.len() as int),
            final(self).pending_offset == 0,
            *final(self) == (Playback {
                current_track: final(self).current_track,
                pending_offset: 0,
                ..*old(self)
            }),
    {
        let index = self.current_track;
        let offset = self.pending_offset;
        let count = self.tracks.len();
        self.current_track = if index + 1 == count {
            0
        } else {
            index + 1
        };
        self.pending_offset = 0;
        proof {
            if index + 1 == old(self).tracks@.len() {
                assert((index + 1) as int % old(self).tracks@.len() as int == 0);
            } else {
                vstd::arithmetic::div_mod::lemma_small_mod(
                    (index + 1) as nat,
                    old(self).tracks@.len() as nat,
                );
            }
        }
        (index, offset)
    }
}

} // verus!
