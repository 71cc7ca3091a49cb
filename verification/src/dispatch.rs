//! The dispatcher: what is done for each pending track, step by step.
//!
//! The work on one track alternates between decisions and work on files.
//! The decisions are made here. The caller performs each [`Action`] it is
//! given, reports what came of it as an [`Event`], and is told the next
//! action, until the track is finished.

use crate::config::Mode;
use crate::error::{CopyError, DecodeError, TrackError, TranscodeError};
use crate::fingerprint::{Track, TrackKind, TrackView};
use crate::track::{
    container_kind, container_kind_of, inject_metadata, injected, target_format,
    target_format_of, ContainerKind, DecodedTrack,
};
use vstd::prelude::*;
use vstd::string::*;

verus! {

/// What the caller is asked to do for a track. Names are file names under
/// the root of the destination; sources are paths as the fingerprint has
/// them.
#[derive(Debug, PartialEq, Eq)]
pub enum Action {
    /// Copy the file at `source`, byte for byte, to `name`.
    Copy { source: String, name: String },
    /// Run the transcoder on the file at `source`, with the output at `name`.
    Transcode { source: String, name: String },
    /// Decode the container at `source`.
    Decode { source: String },
    /// Write `bytes` to `name`.
    Write { name: String, bytes: Vec<u8> },
    /// Run the transcoder on the file `from` of the destination, with the
    /// output at `name`.
    Convert { from: String, name: String },
    /// Remove the file `name`.
    Remove { name: String },
    /// Nothing more: the work on the track has ended as given.
    Finish(Result<(), TrackError>),
}

/// An action as contracts speak of it.
pub enum ActionView {
    Copy { source: Seq<char>, name: Seq<char> },
    Transcode { source: Seq<char>, name: Seq<char> },
    Decode { source: Seq<char> },
    Write { name: Seq<char>, bytes: Seq<u8> },
    Convert { from: Seq<char>, name: Seq<char> },
    Remove { name: Seq<char> },
    Finish(Result<(), TrackError>),
}

impl View for Action {
    type V = ActionView;

    open spec fn view(&self) -> ActionView {
        match *self {
            Action::Copy { source, name } => ActionView::Copy { source: source@, name: name@ },
            Action::Transcode { source, name } => ActionView::Transcode {
                source: source@,
                name: name@,
            },
            Action::Decode { source } => ActionView::Decode { source: source@ },
            Action::Write { name, bytes } => ActionView::Write { name: name@, bytes: bytes@ },
            Action::Convert { from, name } => ActionView::Convert { from: from@, name: name@ },
            Action::Remove { name } => ActionView::Remove { name: name@ },
            Action::Finish(outcome) => ActionView::Finish(outcome),
        }
    }
}

/// What the work on a track waits for.
#[derive(Debug, PartialEq, Eq)]
pub enum TaskState {
    /// The copy of the source file.
    Copying,
    /// The transcoder's run on the source file.
    Transcoding,
    /// The decoding of the container.
    Decoding,
    /// The writing of the decoded track to `name`. `convert` says that the
    /// file is to be delivered as MP3 afterwards.
    Writing { name: String, convert: bool },
    /// The transcoder's run on the written file `from`.
    Converting { from: String },
    /// The removal of the written file.
    Removing,
    /// Nothing: the work has ended as given.
    Finished(Result<(), TrackError>),
}

/// A state as contracts speak of it.
pub enum StateView {
    Copying,
    Transcoding,
    Decoding,
    Writing { name: Seq<char>, convert: bool },
    Converting { from: Seq<char> },
    Removing,
    Finished(Result<(), TrackError>),
}

impl View for TaskState {
    type V = StateView;

    open spec fn view(&self) -> StateView {
        match *self {
            TaskState::Copying => StateView::Copying,
            TaskState::Transcoding => StateView::Transcoding,
            TaskState::Decoding => StateView::Decoding,
            TaskState::Writing { name, convert } => StateView::Writing { name: name@, convert },
            TaskState::Converting { from } => StateView::Converting { from: from@ },
            TaskState::Removing => StateView::Removing,
            TaskState::Finished(outcome) => StateView::Finished(outcome),
        }
    }
}

/// What came of an action.
#[derive(Clone, Debug, PartialEq, Eq)]
pub enum Event {
    /// The file was copied, written or removed, or the transcoder ran and
    /// reported success.
    Completed,
    /// The file could not be copied, written or removed.
    Failed,
    /// The transcoder gave no output.
    TranscoderFailed(TranscodeError),
    /// The container was decoded.
    Decoded(DecodedTrack),
    /// The container could not be decoded.
    DecodeFailed(DecodeError),
}

/// The name of the MP3 file of a track: `<stem>.mp3`.
pub open spec fn mp3_name(stem: Seq<char>) -> Seq<char> {
    stem + ".mp3"@
}

/// The name of the file that a decoded track is written to:
/// `<stem>.<format>`.
pub open spec fn decoded_name(stem: Seq<char>, format: Seq<char>) -> Seq<char> {
    stem + "."@ + format
}

/// The end of the work on a track.
pub open spec fn finished(outcome: Result<(), TrackError>) -> (StateView, ActionView) {
    (StateView::Finished(outcome), ActionView::Finish(outcome))
}

/// A verbatim copy of the track's file under its own file name. A track
/// whose path names no file fails.
pub open spec fn copy_step(track: TrackView) -> (StateView, ActionView) {
    match track.file_name {
        Some(name) => (StateView::Copying, ActionView::Copy { source: track.path, name }),
        None => finished(Err(TrackError::Copy(CopyError::InvalidSourceName))),
    }
}

/// How the work on a track begins. It goes by the kind of file and the
/// policy alone: MP3 is copied; FLAC is copied by the default policy and
/// transcoded to `<stem>.mp3` by the legacy policy; a container is
/// decoded.
pub open spec fn first_step(track: TrackView, mode: Mode) -> (StateView, ActionView) {
    match track.kind {
        TrackKind::Mp3 => copy_step(track),
        TrackKind::Flac => match mode {
            Mode::Default => copy_step(track),
            Mode::Legacy => (
                StateView::Transcoding,
                ActionView::Transcode { source: track.path, name: mp3_name(track.stem) },
            ),
        },
        TrackKind::Ncm => (StateView::Decoding, ActionView::Decode { source: track.path }),
    }
}

/// What follows the decoding of a container: its audio, with the metadata
/// written into it, is written to `<stem>.<format>`. By the legacy policy
/// FLAC is marked for delivery as MP3. Where the metadata cannot be
/// written, the track fails.
pub open spec fn decoded_step(stem: Seq<char>, mode: Mode, decoded: DecodedTrack) -> (
    StateView,
    ActionView,
) {
    let format = target_format(decoded.native_format@);
    let kind = container_kind(format);
    match injected(kind, decoded.metadata.tag_text(), decoded.cover@, decoded.audio@) {
        Ok(bytes) => (
            StateView::Writing {
                name: decoded_name(stem, format),
                convert: mode == Mode::Legacy && kind == ContainerKind::Flac,
            },
            ActionView::Write { name: decoded_name(stem, format), bytes },
        ),
        Err(e) => finished(Err(TrackError::MetadataInjection(e))),
    }
}

/// How the work on a track goes on after an event.
///
/// Each state waits for one action, and one event tells its success; every
/// other event counts as the failure of that action and ends the work with
/// it. A copy or a transcoder's run on the source ends the work with
/// success. A decoded container is written; a written file that is marked
/// for it is handed to the transcoder and then removed. Work that has ended
/// stays as it ended.
pub open spec fn next_step(stem: Seq<char>, mode: Mode, state: StateView, event: Event) -> (
    StateView,
    ActionView,
) {
    match state {
        StateView::Copying => match event {
            Event::Completed => finished(Ok(())),
            _ => finished(Err(TrackError::Copy(CopyError::Copy))),
        },
        StateView::Transcoding => match event {
            Event::Completed => finished(Ok(())),
            Event::TranscoderFailed(e) => finished(Err(TrackError::Transcode(e))),
            _ => finished(Err(TrackError::Transcode(TranscodeError::Launch))),
        },
        StateView::Decoding => match event {
            Event::Decoded(decoded) => decoded_step(stem, mode, decoded),
            Event::DecodeFailed(e) => finished(Err(TrackError::Decode(e))),
            _ => finished(Err(TrackError::Decode(DecodeError::Unreadable))),
        },
        StateView::Writing { name, convert } => match event {
            Event::Completed => if convert {
                (
                    StateView::Converting { from: name },
                    ActionView::Convert { from: name, name: mp3_name(stem) },
                )
            } else {
                finished(Ok(()))
            },
            _ => finished(Err(TrackError::Copy(CopyError::Write))),
        },
        StateView::Converting { from } => match event {
            Event::Completed => (StateView::Removing, ActionView::Remove { name: from }),
            Event::TranscoderFailed(e) => finished(Err(TrackError::Transcode(e))),
            _ => finished(Err(TrackError::Transcode(TranscodeError::Launch))),
        },
        StateView::Removing => match event {
            Event::Completed => finished(Ok(())),
            _ => finished(Err(TrackError::Copy(CopyError::Remove))),
        },
        StateView::Finished(outcome) => finished(outcome),
    }
}

/// `<stem>.mp3`.
fn make_mp3_name(stem: &str) -> (name: String)
    ensures
        name@ == mp3_name(stem@),
{
    let mut name = String::from_str(stem);
    name.append(".mp3");
    name
}

/// `<stem>.<format>`.
fn make_decoded_name(stem: &str, format: &str) -> (name: String)
    ensures
        name@ == decoded_name(stem@, format@),
{
    let mut name = String::from_str(stem);
    name.append(".");
    name.append(format);
    name
}

/// The end of the work on a track.
fn finish(outcome: Result<(), TrackError>) -> (r: (TaskState, Action))
    ensures
        (r.0@, r.1@) == finished(outcome),
{
    (TaskState::Finished(outcome), Action::Finish(outcome))
}

/// A verbatim copy of the track's file under its own file name.
fn copy_file(track: &Track) -> (r: (TaskState, Action))
    ensures
        (r.0@, r.1@) == copy_step(track@),
{
    match &track.file_name {
        Some(name) => (
            TaskState::Copying,
            Action::Copy { source: track.path.clone(), name: name.clone() },
        ),
        None => finish(Err(TrackError::Copy(CopyError::InvalidSourceName))),
    }
}

/// Begins the work on a track: the state it waits in and the first action.
///
/// The action goes by the kind of file and the policy alone. MP3 is
/// copied under its own file name. FLAC is copied by the default policy
/// and handed to the transcoder, for `<stem>.mp3`, by the legacy policy. A
/// container is decoded.
pub fn begin(track: &Track, mode: &Mode) -> (r: (TaskState, Action))
    ensures
        (r.0@, r.1@) == first_step(track@, *mode),
{
    match track.kind {
        TrackKind::Mp3 => copy_file(track),
        TrackKind::Flac => match mode {
            Mode::Default => copy_file(track),
            Mode::Legacy => (
                TaskState::Transcoding,
                Action::Transcode {
                    source: track.path.clone(),
                    name: make_mp3_name(track.stem.as_str()),
                },
            ),
        },
        TrackKind::Ncm => (TaskState::Decoding, Action::Decode { source: track.path.clone() }),
    }
}

/// Goes on with a decoded container: writes the metadata into the audio
/// and asks for the result to be written to `<stem>.<format>`.
pub fn write_decoded(stem: &str, mode: &Mode, decoded: DecodedTrack) -> (r: (TaskState, Action))
    ensures
        (r.0@, r.1@) == decoded_step(stem@, *mode, decoded),
{
    let format = target_format_of(decoded.native_format.as_str());
    let kind = container_kind_of(format.as_str());
    let DecodedTrack { audio, native_format, cover, metadata } = decoded;
    match inject_metadata(kind, &metadata, cover.as_slice(), audio) {
        Ok(bytes) => {
            let convert = match (mode, kind) {
                (Mode::Legacy, ContainerKind::Flac) => true,
                _ => false,
            };
            (
                TaskState::Writing { name: make_decoded_name(stem, format.as_str()), convert },
                Action::Write { name: make_decoded_name(stem, format.as_str()), bytes },
            )
        },
        Err(e) => finish(Err(TrackError::MetadataInjection(e))),
    }
}

/// Goes on with the work on a track after an event: the next state and the
/// next action.
///
/// `stem` is the stem of the track, `state` what the work waited for and
/// `event` what came of the action that was asked for last.
pub fn advance(stem: &str, mode: &Mode, state: TaskState, event: Event) -> (r: (TaskState, Action))
    ensures
        (r.0@, r.1@) == next_step(stem@, *mode, state@, event),
{
    match state {
        TaskState::Copying => match event {
            Event::Completed => finish(Ok(())),
            _ => finish(Err(TrackError::Copy(CopyError::Copy))),
        },
        TaskState::Transcoding => match event {
            Event::Completed => finish(Ok(())),
            Event::TranscoderFailed(e) => finish(Err(TrackError::Transcode(e))),
            _ => finish(Err(TrackError::Transcode(TranscodeError::Launch))),
        },
        TaskState::Decoding => match event {
            Event::Decoded(decoded) => write_decoded(stem, mode, decoded),
            Event::DecodeFailed(e) => finish(Err(TrackError::Decode(e))),
            _ => finish(Err(TrackError::Decode(DecodeError::Unreadable))),
        },
        TaskState::Writing { name, convert } => match event {
            Event::Completed => if convert {
                (
                    TaskState::Converting { from: name.clone() },
                    Action::Convert { from: name, name: make_mp3_name(stem) },
                )
            } else {
                finish(Ok(()))
            },
            _ => finish(Err(TrackError::Copy(CopyError::Write))),
        },
        TaskState::Converting { from } => match event {
            Event::Completed => (TaskState::Removing, Action::Remove { name: from }),
            Event::TranscoderFailed(e) => finish(Err(TrackError::Transcode(e))),
            _ => finish(Err(TrackError::Transcode(TranscodeError::Launch))),
        },
        TaskState::Removing => match event {
            Event::Completed => finish(Ok(())),
            _ => finish(Err(TrackError::Copy(CopyError::Remove))),
        },
        TaskState::Finished(outcome) => finish(outcome),
    }
}

/// The number of events that the work on a track can still take in a
/// state.
pub open spec fn events_left(state: StateView) -> nat {
    match state {
        StateView::Decoding => 4,
        StateView::Writing { .. } => 3,
        StateView::Converting { .. } => 2,
        StateView::Copying | StateView::Transcoding | StateView::Removing => 1,
        StateView::Finished(_) => 0,
    }
}

/// Whether a state and an action belong together: the work has ended if and
/// only if the action is to finish, and then both give one outcome.
pub open spec fn agree(state: StateView, action: ActionView) -> bool {
    match state {
        StateView::Finished(outcome) => action == ActionView::Finish(outcome),
        _ => !(action is Finish),
    }
}

/// The work on a track begins with a state and an action that belong
/// together.
pub proof fn lemma_work_begins(track: TrackView, mode: Mode)
    ensures
        agree(first_step(track, mode).0, first_step(track, mode).1),
{
}

/// The work on a track ends: every event brings it nearer to its end, so
/// that no track takes more than four events, and the state and the action
/// that follow an event belong together.
pub proof fn lemma_work_ends(stem: Seq<char>, mode: Mode, state: StateView, event: Event)
    ensures
        agree(next_step(stem, mode, state, event).0, next_step(stem, mode, state, event).1),
        !(state is Finished) ==> events_left(next_step(stem, mode, state, event).0) < events_left(
            state,
        ),
        state is Finished ==> next_step(stem, mode, state, event).0 == state,
{
}

} // verus!
