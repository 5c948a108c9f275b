//! The persisted configuration: which directories to search, whether to
//! randomize the track order, and the resume offset written back on a
//! persisting stop.

use vstd::prelude::*;

verus! {

/// Order in which the catalog is played.
///
/// Deprecated in favour of the `randomize_tracks` flag, but still read
/// from older configuration files.
pub enum PlaybackOrder {
    Random,
    Alphabetical,
}

/// The configuration as the engine sees it: the on-disk text format is a
/// collaborator's concern, the values are plain.
pub struct Config {
    pub start_point: u64,
    pub resume_playback: bool,
    pub audio_directories: Vec<String>,
    pub randomize_tracks: Option<bool>,
    pub playback_order: Option<PlaybackOrder>,
}

/// The mathematical model of a configuration.
pub struct ConfigView {
    pub start_point: u64,
    pub resume_playback: bool,
    pub audio_directories: Seq<Seq<char>>,
    pub randomize_tracks: Option<bool>,
    pub playback_order: Option<PlaybackOrder>,
}

impl View for Config {
    type V = ConfigView;

    open spec fn view(&self) -> ConfigView {
        ConfigView {
            start_point: self.start_point,
            resume_playback: self.resume_playback,
            audio_directories: self.audio_directories.deep_view(),
            randomize_tracks: self.randomize_tracks,
            playback_order: self.playback_order,
        }
    }
}

/// Relies on home::home_dir: the path of the user's home directory, when
/// the system reports one. The value depends on the environment, so
/// nothing is promised of it.
#[verifier::external_body]
fn home_directory() -> (r: Option<String>) {
    home::home_dir().and_then(|p| p.to_str().map(|s| s.to_string()))
}

/// The directory searched when none is configured: the "Music" folder
/// under the user's home directory, or "Music" alone when no home
/// directory is known.
pub fn default_audio_directory() -> (r: String) {
    match home_directory() {
        Some(h) => {
            let mut p = h;
            p.append("/Music");
            p
        },
        None => "Music".to_owned(),
    }
}

/// The resume offset after folding an uptime into it: zero when resuming
/// is disabled, otherwise the sum reduced modulo the catalog's total
/// duration once it reaches it.
pub open spec fn spec_clamped(c: ConfigView, duration: u64, total_duration: u64) -> int {
    if !c.resume_playback {
        0
    } else if c.start_point + duration >= total_duration {
        (c.start_point + duration) % (total_duration as int)
    } else {
        c.start_point + duration
    }
}

/// A configuration after validation: the deprecated ordering field is
/// folded into `randomize_tracks`, a random order disables resuming,
/// disabled resuming clears the start point, and an empty directory list
/// falls back to the given default.
pub open spec fn spec_validated(c: ConfigView, default_directory: Seq<char>) -> ConfigView {
    let c1 = if c.playback_order is Some {
        ConfigView {
            randomize_tracks: Some(c.playback_order == Some(PlaybackOrder::Random)),
            playback_order: None,
            ..c
        }
    } else {
        c
    };
    let c2 = if c1.randomize_tracks == Some(true) {
        ConfigView { resume_playback: false, ..c1 }
    } else {
        c1
    };
    let c3 = if !c2.resume_playback {
        ConfigView { start_point: 0, ..c2 }
    } else {
        c2
    };
    if c3.audio_directories.len() == 0 {
        ConfigView { audio_directories: seq![default_directory], ..c3 }
    } else {
        c3
    }
}

impl Config {
    /// The configuration written on first use: resume from the start,
    /// play the default directory in a random order.
    pub fn new() -> (r: Config)
        ensures
            r.start_point == 0,
            r.resume_playback,
            r@.audio_directories.len() == 1,
            r.randomize_tracks == Some(true),
            r.playback_order is None,
    {
        Config {
            start_point: 0,
            resume_playback: true,
            audio_directories: vec![default_audio_directory()],
            randomize_tracks: Some(true),
            playback_order: None,
        }
    }

    /// Folds an elapsed duration into the resume offset and keeps the
    /// offset below the catalog's total duration; clears it when
    /// resuming is disabled.
    pub fn clamp_seek_start(&mut self, duration: u64, total_duration: u64)
        requires
            old(self).resume_playback ==> total_duration > 0,
            old(self).resume_playback ==> old(self).start_point + duration <= u64::MAX,
        ensures
            final(self).start_point == spec_clamped(old(self)@, duration, total_duration),
            final(self).resume_playback == old(self).resume_playback,
            final(self).audio_directories == old(self).audio_directories,
            final(self).randomize_tracks == old(self).randomize_tracks,
            final(self).playback_order == old(self).playback_order,
    {
        if !self.resume_playback {
            self.start_point = 0;
            return ;
        }
        self.start_point = self.start_point + duration;
        if self.start_point >= total_duration {
            self.start_point = self.start_point % total_duration;
        }
    }
}

/// Normalizes a loaded configuration; whether each listed directory
/// exists is checked by the caller, which owns the file system.
pub fn validate_config(config: Config, default_directory: String) -> (r: Config)
    ensures
        r@ == spec_validated(config@, default_directory@),
{
    let mut config = config;
    if let Some(order) = &config.playback_order {
        match order {
            PlaybackOrder::Alphabetical => {
                config.randomize_tracks = Some(false);
            },
            PlaybackOrder::Random => {
                config.randomize_tracks = Some(true);
            },
        }
        config.playback_order = None;
    }

    if let Some(true) = config.randomize_tracks {
        config.resume_playback = false;
    }

    if !config.resume_playback {
        config.start_point = 0;
    }

    if config.audio_directories.is_empty() {
        config.audio_directories = vec![default_directory];
        proof {
            assert(config@.audio_directories =~= seq![default_directory@]);
        }
    }

    config
}

} // verus!
