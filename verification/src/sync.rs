//! A run: the plan for the pending tracks, the transcoder's invocation,
//! and what the run as a whole comes to.

pub use crate::detect::compare_music_dicts;
pub use crate::fingerprint::get_music_dict;

use crate::config::Mode;
use crate::dispatch::{begin, first_step, Action, Event, TaskState};
use crate::error::{CopyError, DecodeError, MetadataInjectionError, TrackError, TranscodeError};
use crate::fingerprint::{lists, FingerprintMap, Track, TrackKind, TrackView};
use crate::text::text_view;
use vstd::prelude::*;
use vstd::string::*;

verus! {

/// The work on one pending track: the track, the state the work waits in
/// and the action that is to be performed next.
#[derive(Debug, PartialEq, Eq)]
pub struct SyncTask {
    pub track: Track,
    pub state: TaskState,
    pub action: Action,
}

/// Whether a list of tasks is the plan for the pending tracks: one task for
/// each track, with the track as the map has it, beginning as the
/// dispatcher begins the work on that track.
pub open spec fn plans(tasks: Seq<SyncTask>, pending: Map<Seq<char>, TrackView>, mode: Mode) -> bool {
    &&& pending.dom().finite()
    &&& tasks.len() == pending.dom().len()
    &&& forall|i: int|
        0 <= i < tasks.len() ==> {
            let task = #[trigger] tasks[i];
            &&& pending.contains_key(task.track@.stem)
            &&& pending[task.track@.stem] == task.track@
            &&& (task.state@, task.action@) == first_step(task.track@, mode)
        }
    &&& forall|stem: Seq<char>| #[trigger]
        pending.contains_key(stem) ==> exists|i: int|
            0 <= i < tasks.len() && (#[trigger] tasks[i]).track@.stem == stem
}

/// Plans the synchronisation of the pending tracks.
///
/// The result holds one task for each pending track, each with the first
/// action that the dispatcher asks for. The tasks do not depend on one
/// another and may be worked on in any order or side by side.
pub fn sync_music_library(new_songs: &FingerprintMap, mode: &Mode) -> (tasks: Vec<SyncTask>)
    ensures
        plans(tasks@, new_songs@, *mode),
{
    let list = new_songs.tracks();
    let mut tasks: Vec<SyncTask> = Vec::new();
    let mut i: usize = 0;
    while i < list.len()
        invariant
            i <= list.len(),
            lists(list@, new_songs@),
            tasks@.len() == i,
            forall|j: int|
                0 <= j < i ==> {
                    let task = #[trigger] tasks@[j];
                    &&& task.track@ == list@[j]@
                    &&& (task.state@, task.action@) == first_step(task.track@, *mode)
                },
        decreases list.len() - i,
    {
        let track = list[i].clone();
        let (state, action) = begin(&track, mode);
        tasks.push(SyncTask { track, state, action });
        i = i + 1;
    }
    proof {
        assert forall|stem: Seq<char>| #[trigger] new_songs@.contains_key(stem) implies exists|
            j: int,
        |
            0 <= j < tasks@.len() && (#[trigger] tasks@[j]).track@.stem == stem by {
            let j = choose|j: int| 0 <= j < list@.len() && (#[trigger] list@[j])@.stem == stem;
            assert(tasks@[j].track@.stem == stem);
        }
        assert forall|j: int| 0 <= j < tasks@.len() implies new_songs@.contains_key(
            (#[trigger] tasks@[j]).track@.stem,
        ) && new_songs@[tasks@[j].track@.stem] == tasks@[j].track@ by {
            assert(list@[j]@ == tasks@[j].track@);
        }
    }
    tasks
}

/// What the status line says while a track is worked on: what is done,
/// by the kind of file, and the stem of the track.
pub open spec fn status_text(track: TrackView) -> Seq<char> {
    match track.kind {
        TrackKind::Mp3 => "Copying MP3: "@ + track.stem,
        TrackKind::Flac => "Processing FLAC: "@ + track.stem,
        TrackKind::Ncm => "Dumping NCM: "@ + track.stem,
    }
}

/// What the status line says while a track is worked on.
pub fn status_message(track: &Track) -> (message: String)
    ensures
        message@ == status_text(track@),
{
    let mut message = match track.kind {
        TrackKind::Mp3 => String::from_str("Copying MP3: "),
        TrackKind::Flac => String::from_str("Processing FLAC: "),
        TrackKind::Ncm => String::from_str("Dumping NCM: "),
    };
    message.append(track.stem.as_str());
    message
}

/// The transcoder's arguments for one run: read `input`, stay quiet, take
/// the best variable bit rate, carry the metadata of the input over, tag
/// the output with ID3v2.3, write `output`.
pub open spec fn transcoder_arguments(input: Seq<char>, output: Seq<char>) -> Seq<Seq<char>> {
    seq![
        "-i"@,
        input,
        "-loglevel"@,
        "quiet"@,
        "-q:a"@,
        "0"@,
        "-map_metadata"@,
        "0"@,
        "-id3v2_version"@,
        "3"@,
        output,
    ]
}

/// The texts of a list of arguments.
pub open spec fn texts(list: Seq<String>) -> Seq<Seq<char>> {
    Seq::new(list.len(), |i: int| list[i]@)
}

/// The arguments with which the transcoder is run to make an MP3 at
/// `output` from the file at `input`.
pub fn transcoder_args(input: &str, output: &str) -> (args: Vec<String>)
    ensures
        texts(args@) == transcoder_arguments(input@, output@),
{
    let mut args: Vec<String> = Vec::new();
    args.push(String::from_str("-i"));
    args.push(String::from_str(input));
    args.push(String::from_str("-loglevel"));
    args.push(String::from_str("quiet"));
    args.push(String::from_str("-q:a"));
    args.push(String::from_str("0"));
    args.push(String::from_str("-map_metadata"));
    args.push(String::from_str("0"));
    args.push(String::from_str("-id3v2_version"));
    args.push(String::from_str("3"));
    args.push(String::from_str(output));
    assert(texts(args@) =~= transcoder_arguments(input@, output@));
    args
}

/// The event that a run of the transcoder comes to. `exit` is missing
/// where the transcoder could not be found or started, and says otherwise
/// whether it reported success.
pub fn transcoder_event(exit: Option<bool>) -> (event: Event)
    ensures
        event == (match exit {
            None => Event::TranscoderFailed(TranscodeError::Launch),
            Some(false) => Event::TranscoderFailed(TranscodeError::ExitStatus),
            Some(true) => Event::Completed,
        }),
{
    match exit {
        None => Event::TranscoderFailed(TranscodeError::Launch),
        Some(false) => Event::TranscoderFailed(TranscodeError::ExitStatus),
        Some(true) => Event::Completed,
    }
}

/// Chooses the transcoder: the one that lies beside the program, if there
/// is one, and else the one on the search path.
pub fn find_ffmpeg(beside_program: Option<String>, on_search_path: Option<String>) -> (r: Option<
    String,
>)
    ensures
        text_view(r) == (match beside_program {
            Some(path) => Some(path@),
            None => text_view(on_search_path),
        }),
{
    match beside_program {
        Some(path) => Some(path),
        None => on_search_path,
    }
}

/// How the work on one track ended.
#[derive(Debug, PartialEq, Eq)]
pub struct TaskOutcome {
    /// The stem of the track.
    pub stem: String,
    pub result: Result<(), TrackError>,
}

/// The failure that a run reports.
#[derive(Clone, Debug, PartialEq, Eq)]
pub struct SyncFailure {
    /// The stem of the track that failed.
    pub stem: String,
    pub error: TrackError,
}

/// What is said of an error: the part of the work that failed.
pub open spec fn error_text(error: TrackError) -> Seq<char> {
    match error {
        TrackError::Decode(DecodeError::Unreadable) => "container could not be read"@,
        TrackError::Decode(DecodeError::Malformed) => "container is malformed"@,
        TrackError::Decode(DecodeError::Audio) => "audio could not be extracted"@,
        TrackError::Decode(DecodeError::Metadata) => "metadata could not be extracted"@,
        TrackError::Decode(DecodeError::Cover) => "cover could not be extracted"@,
        TrackError::MetadataInjection(MetadataInjectionError::MissingFrameSync) =>
            "metadata injection failed, audio has no MP3 frame sync"@,
        TrackError::MetadataInjection(MetadataInjectionError::MissingStreamMarker) =>
            "metadata injection failed, audio has no FLAC marker"@,
        TrackError::MetadataInjection(MetadataInjectionError::MissingStreamInfo) =>
            "metadata injection failed, audio has no STREAMINFO block"@,
        TrackError::MetadataInjection(MetadataInjectionError::TruncatedMetadata) =>
            "metadata injection failed, audio has cut-off metadata"@,
        TrackError::MetadataInjection(MetadataInjectionError::TagTooLarge) =>
            "metadata injection failed, tag is too large"@,
        TrackError::Transcode(TranscodeError::Launch) => "transcoder could not be run"@,
        TrackError::Transcode(TranscodeError::ExitStatus) => "transcoder reported failure"@,
        TrackError::Copy(CopyError::InvalidSourceName) => "source has no file name"@,
        TrackError::Copy(CopyError::Copy) => "file could not be copied"@,
        TrackError::Copy(CopyError::Write) => "file could not be written"@,
        TrackError::Copy(CopyError::Remove) => "intermediate file could not be removed"@,
    }
}

/// What is said of a failure: the stem of the track, then what failed.
pub open spec fn failure_text(stem: Seq<char>, error: TrackError) -> Seq<char> {
    stem + ": "@ + error_text(error)
}

/// What is said of an error.
pub fn describe_error(error: TrackError) -> (text: &'static str)
    ensures
        text@ == error_text(error),
{
    match error {
        TrackError::Decode(DecodeError::Unreadable) => "container could not be read",
        TrackError::Decode(DecodeError::Malformed) => "container is malformed",
        TrackError::Decode(DecodeError::Audio) => "audio could not be extracted",
        TrackError::Decode(DecodeError::Metadata) => "metadata could not be extracted",
        TrackError::Decode(DecodeError::Cover) => "cover could not be extracted",
        TrackError::MetadataInjection(MetadataInjectionError::MissingFrameSync) =>
            "metadata injection failed, audio has no MP3 frame sync",
        TrackError::MetadataInjection(MetadataInjectionError::MissingStreamMarker) =>
            "metadata injection failed, audio has no FLAC marker",
        TrackError::MetadataInjection(MetadataInjectionError::MissingStreamInfo) =>
            "metadata injection failed, audio has no STREAMINFO block",
        TrackError::MetadataInjection(MetadataInjectionError::TruncatedMetadata) =>
            "metadata injection failed, audio has cut-off metadata",
        TrackError::MetadataInjection(MetadataInjectionError::TagTooLarge) =>
            "metadata injection failed, tag is too large",
        TrackError::Transcode(TranscodeError::Launch) => "transcoder could not be run",
        TrackError::Transcode(TranscodeError::ExitStatus) => "transcoder reported failure",
        TrackError::Copy(CopyError::InvalidSourceName) => "source has no file name",
        TrackError::Copy(CopyError::Copy) => "file could not be copied",
        TrackError::Copy(CopyError::Write) => "file could not be written",
        TrackError::Copy(CopyError::Remove) => "intermediate file could not be removed",
    }
}

impl SyncFailure {
    /// What is said of the failure: the stem of the track, then what
    /// failed.
    pub fn describe(&self) -> (text: String)
        ensures
            text@ == failure_text(self.stem@, self.error),
    {
        let mut text = self.stem.clone();
        text.append(": ");
        text.append(describe_error(self.error));
        text
    }
}

/// The first failure among the outcomes of a run, with the stem of its
/// track.
pub open spec fn first_failure(outcomes: Seq<TaskOutcome>) -> Option<(Seq<char>, TrackError)>
    decreases outcomes.len(),
{
    if outcomes.len() == 0 {
        None
    } else {
        match outcomes[0].result {
            Err(e) => Some((outcomes[0].stem@, e)),
            Ok(_) => first_failure(outcomes.drop_first()),
        }
    }
}

/// The first failure is none if and only if no track failed; otherwise it
/// is the failure of the first track that failed.
pub proof fn lemma_first_failure(outcomes: Seq<TaskOutcome>)
    ensures
        first_failure(outcomes) is None <==> forall|i: int|
            0 <= i < outcomes.len() ==> (#[trigger] outcomes[i]).result is Ok,
        first_failure(outcomes) is Some ==> exists|i: int|
            {
                &&& 0 <= i < outcomes.len()
                &&& (#[trigger] outcomes[i]).result is Err
                &&& first_failure(outcomes) == Some(
                    (outcomes[i].stem@, outcomes[i].result->Err_0),
                )
                &&& forall|j: int| 0 <= j < i ==> (#[trigger] outcomes[j]).result is Ok
            },
    decreases outcomes.len(),
{
    if outcomes.len() == 0 {
    } else {
        let rest = outcomes.drop_first();
        lemma_first_failure(rest);
        match outcomes[0].result {
            Err(e) => {
                assert(outcomes[0].result is Err);
            },
            Ok(_) => {
                assert forall|i: int| 0 <= i < rest.len() implies (#[trigger] rest[i])
                    == outcomes[i + 1] by {}
                if first_failure(rest) is None {
                    assert forall|i: int| 0 <= i < outcomes.len() implies (
                    #[trigger] outcomes[i]).result is Ok by {
                        if i > 0 {
                            assert(rest[i - 1].result is Ok);
                        }
                    }
                } else {
                    let k = choose|i: int|
                        {
                            &&& 0 <= i < rest.len()
                            &&& (#[trigger] rest[i]).result is Err
                            &&& first_failure(rest) == Some((rest[i].stem@, rest[i].result->Err_0))
                            &&& forall|j: int| 0 <= j < i ==> (#[trigger] rest[j]).result is Ok
                        };
                    assert(outcomes[k + 1] == rest[k]);
                    assert forall|j: int| 0 <= j < k + 1 implies (
                    #[trigger] outcomes[j]).result is Ok by {
                        if j > 0 {
                            assert(rest[j - 1].result is Ok);
                        }
                    }
                    assert(outcomes[k + 1].result is Err);
                }
            },
        }
    }
}

/// What a run comes to: success if no track failed, and otherwise the
/// failure of the first track that failed, in the order of the outcomes.
pub fn run_result(outcomes: &[TaskOutcome]) -> (r: Result<(), SyncFailure>)
    ensures
        match r {
            Ok(_) => first_failure(outcomes@) is None,
            Err(f) => first_failure(outcomes@) == Some((f.stem@, f.error)),
        },
{
    let mut i: usize = 0;
    assert(outcomes@.skip(0) =~= outcomes@);
    while i < outcomes.len()
        invariant
            i <= outcomes.len(),
            first_failure(outcomes@) == first_failure(outcomes@.skip(i as int)),
        decreases outcomes.len() - i,
    {
        assert(outcomes@.skip(i as int).drop_first() =~= outcomes@.skip(i + 1));
        assert(outcomes@.skip(i as int)[0] == outcomes@[i as int]);
        match outcomes[i].result {
            Err(e) => {
                return Err(SyncFailure { stem: outcomes[i].stem.clone(), error: e });
            },
            Ok(_) => {},
        }
        i = i + 1;
    }
    assert(outcomes@.skip(i as int) =~= Seq::<TaskOutcome>::empty());
    Ok(())
}

} // verus!
