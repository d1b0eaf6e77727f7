//! The command processor: what each inbound command does to the engine, and
//! what it leaves for the host to do.

use vstd::prelude::*;
use crate::amplitude::{clamped, GAIN_UNIT};
use crate::decode::DecodeError;
use crate::mixer::{installed, removed, Mixer};
use crate::voice::VoiceState;
use crate::wav::{decode_wav, decoded_wav};

verus! {

/// A command from the front end. Volumes are gains in units of 2^-16.
#[derive(Debug)]
pub enum Command {
    /// Trigger the sound in a file on a pad. `pan` is accepted and has no
    /// effect: the output is mono.
    Play { pad_id: usize, file_path: String, volume: i32, pan: i32 },
    /// Silence a pad.
    Stop { pad_id: usize },
    /// Summarise the sound in a file for display.
    Load { pad_id: usize, file_path: String },
    /// Set the master volume.
    SetMasterVolume { volume: i32 },
}

/// What is left for the host to do once a command has been dispatched.
#[derive(Debug)]
pub enum Action {
    /// Nothing: the command has taken effect.
    Done,
    /// Read the file and hand its contents to `play_file`, before any other
    /// command is taken.
    ReadAndPlay { pad_id: usize, file_path: String, volume: i32 },
    /// Read and summarise the file on a worker, away from the command path.
    ReadAndSummarize { pad_id: usize, file_path: String },
}

/// Why a command had no effect.
#[derive(Clone, Copy, Debug, PartialEq, Eq, Structural)]
pub enum EngineError {
    /// No output device could be opened.
    DeviceUnavailable,
    /// The file to play does not exist.
    FileNotFound,
    /// The file is not a readable audio stream.
    Unreadable,
    /// The file is encoded in a way that is not played.
    UnsupportedFormat,
    /// The message was not a command.
    MalformedCommand,
}

/// The engine's error for a decoder's error.
pub open spec fn error_of(e: DecodeError) -> EngineError {
    match e {
        DecodeError::Unreadable => EngineError::Unreadable,
        DecodeError::UnsupportedFormat => EngineError::UnsupportedFormat,
    }
}

/// Turns a decoder's error into the engine's.
pub fn from_decode_error(e: DecodeError) -> (out: EngineError)
    ensures
        out == error_of(e),
{
    match e {
        DecodeError::Unreadable => EngineError::Unreadable,
        DecodeError::UnsupportedFormat => EngineError::UnsupportedFormat,
    }
}

/// Applies one command to the engine as far as that needs no file. `Stop`
/// and `SetMasterVolume` take effect at once; `Play` and `Load` leave the
/// engine as it is and say what the host is to read.
pub fn dispatch(mixer: &mut Mixer, command: Command) -> (action: Action)
    requires
        old(mixer).wf(),
    ensures
        final(mixer).wf(),
        match command {
            Command::Play { pad_id, file_path, volume, pan } => {
                &&& action == (Action::ReadAndPlay { pad_id, file_path, volume })
                &&& final(mixer)@ == old(mixer)@
            },
            Command::Stop { pad_id } => {
                &&& action == Action::Done
                &&& final(mixer)@.slots == removed(old(mixer)@.slots, pad_id)
                &&& final(mixer)@.master == old(mixer)@.master
            },
            Command::Load { pad_id, file_path } => {
                &&& action == (Action::ReadAndSummarize { pad_id, file_path })
                &&& final(mixer)@ == old(mixer)@
            },
            Command::SetMasterVolume { volume } => {
                &&& action == Action::Done
                &&& final(mixer)@.slots == old(mixer)@.slots
                &&& final(mixer)@.master == clamped(volume as int, 0, GAIN_UNIT as int)
            },
        },
{
    match command {
        Command::Play { pad_id, file_path, volume, pan: _ } => Action::ReadAndPlay {
            pad_id,
            file_path,
            volume,
        },
        Command::Stop { pad_id } => {
            mixer.stop(pad_id);
            Action::Done
        },
        Command::Load { pad_id, file_path } => Action::ReadAndSummarize { pad_id, file_path },
        Command::SetMasterVolume { volume } => {
            mixer.set_master_volume(volume);
            Action::Done
        },
    }
}

/// Takes a message that may have failed to parse. One that is no command is
/// reported and changes nothing.
pub fn handle(mixer: &mut Mixer, message: Option<Command>) -> (result: Result<Action, EngineError>)
    requires
        old(mixer).wf(),
    ensures
        final(mixer).wf(),
        message.is_none() ==> final(mixer)@ == old(mixer)@ && result == Err::<Action, EngineError>(
            EngineError::MalformedCommand,
        ),
        message.is_some() ==> result.is_ok(),
        message.is_some() ==> match message.unwrap() {
            Command::Play { pad_id, file_path, volume, pan } => {
                &&& result.unwrap() == (Action::ReadAndPlay { pad_id, file_path, volume })
                &&& final(mixer)@ == old(mixer)@
            },
            Command::Stop { pad_id } => {
                &&& result.unwrap() == Action::Done
                &&& final(mixer)@.slots == removed(old(mixer)@.slots, pad_id)
                &&& final(mixer)@.master == old(mixer)@.master
            },
            Command::Load { pad_id, file_path } => {
                &&& result.unwrap() == (Action::ReadAndSummarize { pad_id, file_path })
                &&& final(mixer)@ == old(mixer)@
            },
            Command::SetMasterVolume { volume } => {
                &&& result.unwrap() == Action::Done
                &&& final(mixer)@.slots == old(mixer)@.slots
                &&& final(mixer)@.master == clamped(volume as int, 0, GAIN_UNIT as int)
            },
        },
{
    match message {
        Some(command) => Ok(dispatch(mixer, command)),
        None => Err(EngineError::MalformedCommand),
    }
}

/// Installs a decoded sound on a pad, or reports why there is none. After a
/// failure the engine is as it was.
pub fn play_decoded(
    mixer: &mut Mixer,
    pad_id: usize,
    sound: Result<Vec<i32>, DecodeError>,
    volume: i32,
) -> (result: Result<(), EngineError>)
    requires
        old(mixer).wf(),
    ensures
        final(mixer).wf(),
        final(mixer)@.master == old(mixer)@.master,
        match sound {
            Ok(samples) => {
                &&& result.is_ok()
                &&& final(mixer)@.slots == installed(
                    old(mixer)@.slots,
                    pad_id,
                    VoiceState::fresh(samples@, volume),
                )
            },
            Err(e) => {
                &&& result == Err::<(), EngineError>(error_of(e))
                &&& final(mixer)@ == old(mixer)@
            },
        },
{
    match sound {
        Ok(samples) => {
            mixer.play(pad_id, samples, volume);
            Ok(())
        },
        Err(e) => Err(from_decode_error(e)),
    }
}

/// Completes a `Play`: decodes the contents of the file for playback at
/// `target_rate` and installs the voice. A file that does not exist, or that
/// cannot be decoded, is reported and leaves the engine as it was.
pub fn play_file(
    mixer: &mut Mixer,
    pad_id: usize,
    contents: Option<Vec<u8>>,
    volume: i32,
    target_rate: u32,
) -> (result: Result<(), EngineError>)
    requires
        old(mixer).wf(),
    ensures
        final(mixer).wf(),
        final(mixer)@.master == old(mixer)@.master,
        match contents {
            None => {
                &&& result == Err::<(), EngineError>(EngineError::FileNotFound)
                &&& final(mixer)@ == old(mixer)@
            },
            Some(bytes) => match decoded_wav(bytes@, target_rate) {
                Ok(samples) => {
                    &&& result.is_ok()
                    &&& final(mixer)@.slots == installed(
                        old(mixer)@.slots,
                        pad_id,
                        VoiceState::fresh(samples, volume),
                    )
                },
                Err(e) => {
                    &&& result == Err::<(), EngineError>(error_of(e))
                    &&& final(mixer)@ == old(mixer)@
                },
            },
        },
{
    match contents {
        None => Err(EngineError::FileNotFound),
        Some(bytes) => {
            let sound = decode_wav(&bytes, target_rate);
            play_decoded(mixer, pad_id, sound, volume)
        },
    }
}

} // verus!
