//! The request/response protocol and the two roles speaking it: framing
//! of payloads on the wire, the server's dispatch of one command to the
//! playback engine, and the client's decision of what to do with a
//! command before anything is sent.

use vstd::prelude::*;

use crate::audio::Playback;
use crate::audio::PlaybackError;
use crate::audio::play_step;
use crate::audio::pause_step;
use crate::audio::stop_step;
use crate::audio::spec_error_message;

verus! {

/// The loopback address the server binds; owning it is what makes a
/// process the single running instance.
pub const ADDR: &'static str = "127.0.0.1:1234";

/// What a client can ask for. Play, pause and stop drive the engine;
/// the rest are dispatched to external collaborators.
pub enum Command {
    /// Play audio.
    Play,
    /// Pause audio.
    Pause,
    /// Stop audio and shut the playback server down.
    Stop,
    /// Upgrade to the latest version of the program.
    Update,
    /// Download an audio file from the given url.
    Download { url: String },
    /// Run the playback server; hangs until the server is shut down.
    Start,
}

/// What the server answers: the outcome's text, marked as a success or
/// a failure.
pub enum Response {
    Success(String),
    Error(String),
}

/// Why a frame was refused.
#[derive(Debug)]
pub enum ProtocolError {
    /// A payload longer than the one-byte length prefix can carry.
    PayloadTooLarge,
    /// The data is not one whole frame: no length byte, or a payload
    /// whose length does not match it.
    MalformedFrame,
}

/// A payload as it stands on the wire: its length in one byte, then the
/// payload itself.
pub open spec fn spec_frame(payload: Seq<u8>) -> Seq<u8> {
    seq![payload.len() as u8] + payload
}

/// Whether a byte string is one whole well-formed frame.
pub open spec fn spec_well_framed(data: Seq<u8>) -> bool {
    data.len() >= 1 && data.len() == 1 + data[0]
}

/// Wraps a payload in the wire format: one length byte, then the
/// payload. Refused for payloads over 255 bytes, the most the single
/// length byte can state; no continuation mechanism exists.
pub fn encode_frame(payload: &Vec<u8>) -> (r: Result<Vec<u8>, ProtocolError>)
    ensures
        payload@.len() <= 255 ==> (r matches Ok(f) && f@ == spec_frame(payload@)),
        payload@.len() > 255 ==> r == Err::<Vec<u8>, ProtocolError>(ProtocolError::PayloadTooLarge),
{
    let n = payload.len();
    if n > 255 {
        return Err(ProtocolError::PayloadTooLarge);
    }
    let mut frame: Vec<u8> = Vec::new();
    frame.push(n as u8);
    let mut i: usize = 0;
    while i < n
        invariant
            i <= n,
            n == payload@.len() <= 255,
            frame@ == seq![n as u8] + payload@.take(i as int),
        decreases n - i,
    {
        frame.push(payload[i]);
        proof {
            assert(frame@ =~= seq![n as u8] + payload@.take(i + 1));
        }
        i += 1;
    }
    proof {
        assert(payload@.take(n as int) =~= payload@);
    }
    Ok(frame)
}

/// Reads one whole frame back into its payload. Refused unless the data
/// is exactly one well-formed frame.
pub fn decode_frame(data: &Vec<u8>) -> (r: Result<Vec<u8>, ProtocolError>)
    ensures
        spec_well_framed(data@) ==> (r matches Ok(p) && p@ == data@.skip(1)),
        !spec_well_framed(data@) ==> r == Err::<Vec<u8>, ProtocolError>(
            ProtocolError::MalformedFrame,
        ),
{
    let n = data.len();
    if n == 0 {
        return Err(ProtocolError::MalformedFrame);
    }
    let stated = data[0] as usize;
    if n - 1 != stated {
        return Err(ProtocolError::MalformedFrame);
    }
    let mut payload: Vec<u8> = Vec::new();
    let mut i: usize = 1;
    while i < n
        invariant
            1 <= i <= n,
            n == data@.len(),
            payload@ == data@.subrange(1, i as int),
        decreases n - i,
    {
        payload.push(data[i]);
        proof {
            assert(payload@ =~= data@.subrange(1, i + 1));
        }
        i += 1;
    }
    proof {
        assert(data@.subrange(1, n as int) =~= data@.skip(1));
    }
    Ok(payload)
}

/// Framing loses nothing: a payload that fits is read back unchanged
/// from its frame, whose length byte states the payload's length.
pub proof fn lemma_frame_round_trip(payload: Seq<u8>)
    requires
        payload.len() <= 255,
    ensures
        spec_well_framed(spec_frame(payload)),
        spec_frame(payload).skip(1) == payload,
        spec_frame(payload).len() == 1 + payload.len(),
{
    assert(spec_frame(payload).skip(1) =~= payload);
}

/// The server: receives commands, runs them against the engine it owns,
/// and answers with the outcome.
pub struct Server {
    pub playback: Playback,
}

impl Server {
    /// A server around a fresh, idle engine.
    pub fn new() -> (r: Server)
        ensures
            r.playback.wf(),
            r.playback.config is None,
            r.playback.status is Idle,
    {
        Server { playback: Playback::new() }
    }

    /// Whether the first play still has to build the catalog, in which
    /// case the caller must load the configuration and discover files
    /// before dispatching.
    pub fn needs_catalog(&self) -> (r: bool)
        ensures
            r == (self.playback.config is None),
    {
        !self.playback.is_initialized()
    }

    /// Runs one command against the engine and maps the outcome to the
    /// response sent back. The second part of the result asks the caller
    /// to shut down, exactly on a stop. A caller that failed to prepare
    /// the catalog for a play hands in the error instead; the engine is
    /// then left alone and the error is the answer. Errors never ask for
    /// a shutdown: the server outlives a failed command.
    pub fn handle_request(&mut self, cmd: &Command, init_error: Option<PlaybackError>, now: u64)
        -> (r: (Response, bool))
        requires
            old(self).playback.wf(),
        ensures
            final(self).playback.wf(),
            r.1 == (cmd is Stop),
            (match cmd {
                Command::Play => match init_error {
                    Some(e) => final(self).playback == old(self).playback && (
                    r.0 matches Response::Error(m) && m@ == spec_error_message(e)),
                    None => {
                        &&& final(self).playback == play_step(old(self).playback, now).0
                        &&& match play_step(old(self).playback, now).1 {
                            Ok(sm) => r.0 matches Response::Success(m) && m@ == sm,
                            Err(se) => r.0 matches Response::Error(m) && m@
                                == spec_error_message(se),
                        }
                    },
                },
                Command::Pause => {
                    &&& final(self).playback == pause_step(old(self).playback, now).0
                    &&& match pause_step(old(self).playback, now).1 {
                        Ok(sm) => r.0 matches Response::Success(m) && m@ == sm,
                        Err(se) => r.0 matches Response::Error(m) && m@ == spec_error_message(se),
                    }
                },
                Command::Stop => {
                    &&& final(self).playback == stop_step(old(self).playback, true, now).0
                    &&& (r.0 matches Response::Success(m) && m@ == stop_step(
                        old(self).playback,
                        true,
                        now,
                    ).1)
                },
                _ => final(self).playback == old(self).playback && (
                r.0 matches Response::Success(m) && m@.len() == 0),
            }),
    {
        match cmd {
            Command::Play => {
                match init_error {
                    Some(e) => (Response::Error(e.message()), false),
                    None => match self.playback.play(now) {
                        Ok(m) => (Response::Success(m), false),
                        Err(e) => (Response::Error(e.message()), false),
                    },
                }
            },
            Command::Pause => {
                match self.playback.pause(now) {
                    Ok(m) => (Response::Success(m), false),
                    Err(e) => (Response::Error(e.message()), false),
                }
            },
            Command::Stop => {
                let m = self.playback.stop(true, now);
                (Response::Success(m), true)
            },
            _ => (Response::Success(String::new()), false),
        }
    }
}

/// What a client does with a command, decided before any I/O.
pub enum ClientAction {
    /// Report that no server is running; issued for a stop with no
    /// server bound, which must not spawn one just to stop it.
    ReportNoServer,
    /// Run the self-update collaborator.
    RunUpdate,
    /// Run the download collaborator with this url.
    RunDownload(String),
    /// Spawn the server if none is running, then send the command and
    /// print the response.
    SendRequest,
}

/// The client's decision: a stop with no server running is only
/// reported; updates and downloads run their collaborators locally;
/// everything else goes to the server, spawned first if need be.
pub open spec fn spec_client_action(server_running: bool, command: Command) -> ClientAction {
    if !server_running && command is Stop {
        ClientAction::ReportNoServer
    } else {
        match command {
            Command::Update => ClientAction::RunUpdate,
            Command::Download { url } => ClientAction::RunDownload(url),
            _ => ClientAction::SendRequest,
        }
    }
}

/// The client: sends one command to the server and prints the answer.
pub struct Client;

impl Client {
    /// Decides what to do with one command, given whether a server is
    /// already running. The caller performs the returned action.
    pub fn run(&self, server_running: bool, command: Command) -> (r: ClientAction)
        ensures
            r == spec_client_action(server_running, command),
    {
        if !server_running {
            match &command {
                Command::Stop => {
                    return ClientAction::ReportNoServer;
                },
                _ => {},
            }
        }
        match command {
            Command::Update => ClientAction::RunUpdate,
            Command::Download { url } => ClientAction::RunDownload(url),
            _ => ClientAction::SendRequest,
        }
    }
}

} // verus!
