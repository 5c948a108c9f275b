//! Laws the engine obeys across several calls, stated over the same
//! transition functions that the executable operations are proved
//! against.

use vstd::prelude::*;

use crate::audio::Playback;
use crate::audio::PlaybackError;
use crate::audio::Status;
use crate::audio::pause_step;
use crate::audio::play_step;
use crate::audio::stop_step;
use crate::audio::spec_track_name;
use crate::audio::unpausing_message;
use crate::config::spec_validated;

verus! {

/// Pausing twice without an intervening play: the first pause succeeds
/// and leaves the engine paused, so the second is refused as not
/// playing and changes nothing.
pub proof fn lemma_pause_twice_refused(s: Playback, now1: u64, now2: u64)
    requires
        s.status is Playing,
    ensures
        ({
            let (s1, r1) = pause_step(s, now1);
            let (s2, r2) = pause_step(s1, now2);
            &&& r1 is Ok
            &&& r2 == Err::<Seq<char>, PlaybackError>(PlaybackError::NotPlaying)
            &&& s2 == s1
        }),
{
}

/// Playing twice while the first play left audio playing: the second
/// call is refused as already playing and changes nothing.
pub proof fn lemma_play_twice_refused(s: Playback, now1: u64, now2: u64)
    requires
        s.config is Some,
        !(s.status is Playing),
    ensures
        ({
            let (s1, r1) = play_step(s, now1);
            let (s2, r2) = play_step(s1, now2);
            &&& r1 is Ok
            &&& r2 == Err::<Seq<char>, PlaybackError>(PlaybackError::AlreadyPlaying)
            &&& s2 == s1
        }),
{
}

/// A play on a paused engine resumes in place: it succeeds as an
/// unpause and keeps the catalog, the position and the uptime exactly
/// as they were; nothing is rebuilt.
pub proof fn lemma_play_resumes_paused(s: Playback, now: u64)
    requires
        s.status is Paused,
        s.config is Some,
    ensures
        ({
            let (s1, r1) = play_step(s, now);
            &&& r1 == Ok::<Seq<char>, PlaybackError>(unpausing_message(spec_track_name(s)))
            &&& s1.status is Playing
            &&& s1.tracks == s.tracks
            &&& s1.config == s.config
            &&& s1.current_track == s.current_track
            &&& s1.pending_offset == s.pending_offset
            &&& s1.uptime == s.uptime
            &&& s1.total_duration == s.total_duration
        }),
{
}

/// The round trip of a persisting stop: the configuration it writes
/// carries the uptime reduced modulo the catalog's total duration, or
/// zero when resuming is disabled — and reloading that configuration
/// through validation hands the same value back.
pub proof fn lemma_stop_round_trip(s: Playback, now: u64, default_directory: Seq<char>)
    requires
        s.wf(),
        (match s.config {
            Some(c) => c@ == spec_validated(c@, default_directory),
            None => false,
        }),
    ensures
        ({
            let (s1, m) = stop_step(s, true, now);
            match s1.config {
                Some(c2) => {
                    &&& c2.start_point == if c2.resume_playback {
                        s1.uptime as int % s.total_duration as int
                    } else {
                        0
                    }
                    &&& spec_validated(c2@, default_directory).start_point == c2.start_point
                },
                None => false,
            }
        }),
{
    let (s1, m) = stop_step(s, true, now);
    let c = s.config.unwrap();
    let c2 = s1.config.unwrap();
    if c.resume_playback {
        assert(c.playback_order is None);
        assert(c.randomize_tracks != Some(true));
    } else {
        vstd::arithmetic::div_mod::lemma_mod_self_0(s.total_duration as int);
    }
}

} // verus!
