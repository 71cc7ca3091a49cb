use w4dj::config::Mode;
use w4dj::dispatch::{advance, Action, Event, TaskState};
use w4dj::error::{CopyError, DecodeError, MetadataInjectionError, TrackError, TranscodeError};
use w4dj::fingerprint::{FingerprintMap, Track, TrackKind};
use w4dj::sync::{
    describe_error, find_ffmpeg, run_result, status_message, sync_music_library, transcoder_args,
    transcoder_event, SyncFailure, TaskOutcome,
};

fn track(stem: &str, extension: &str, kind: TrackKind) -> Track {
    Track {
        stem: stem.to_string(),
        size: 1000,
        path: format!("/music/{}.{}", stem, extension),
        file_name: Some(format!("{}.{}", stem, extension)),
        kind,
    }
}

fn outcome(stem: &str, result: Result<(), TrackError>) -> TaskOutcome {
    TaskOutcome { stem: stem.to_string(), result }
}

#[test]
fn no_pending_tracks_no_tasks() {
    assert!(sync_music_library(&FingerprintMap::new(), &Mode::Default).is_empty());
    assert_eq!(run_result(&[]), Ok(()));
}

#[test]
fn one_task_for_each_pending_track() {
    let mut pending = FingerprintMap::new();
    pending.insert(track("track1", "mp3", TrackKind::Mp3));
    pending.insert(track("track2", "flac", TrackKind::Flac));
    pending.insert(track("track3", "ncm", TrackKind::Ncm));

    let mut tasks = sync_music_library(&pending, &Mode::Legacy);
    tasks.sort_by(|a, b| a.track.stem.cmp(&b.track.stem));
    assert_eq!(tasks.len(), 3);
    assert_eq!(tasks[0].track, track("track1", "mp3", TrackKind::Mp3));
    assert_eq!(tasks[0].state, TaskState::Copying);
    assert_eq!(
        tasks[0].action,
        Action::Copy { source: "/music/track1.mp3".to_string(), name: "track1.mp3".to_string() }
    );
    assert_eq!(tasks[1].track.stem, "track2");
    assert_eq!(tasks[1].state, TaskState::Transcoding);
    assert_eq!(
        tasks[1].action,
        Action::Transcode {
            source: "/music/track2.flac".to_string(),
            name: "track2.mp3".to_string()
        }
    );
    assert_eq!(tasks[2].track.stem, "track3");
    assert_eq!(tasks[2].state, TaskState::Decoding);
    assert_eq!(tasks[2].action, Action::Decode { source: "/music/track3.ncm".to_string() });

    let mut tasks = sync_music_library(&pending, &Mode::Default);
    tasks.sort_by(|a, b| a.track.stem.cmp(&b.track.stem));
    assert_eq!(tasks.len(), 3);
    assert_eq!(
        tasks[1].action,
        Action::Copy { source: "/music/track2.flac".to_string(), name: "track2.flac".to_string() }
    );
}

#[test]
fn one_failed_track_fails_the_run_and_the_others_complete() {
    let mut pending = FingerprintMap::new();
    pending.insert(track("track1", "mp3", TrackKind::Mp3));
    pending.insert(track("track4", "flac", TrackKind::Flac));
    pending.insert(track("track5", "flac", TrackKind::Flac));
    let mode = Mode::Legacy;

    let mut outcomes: Vec<TaskOutcome> = Vec::new();
    for task in sync_music_library(&pending, &mode) {
        let event = if task.track.stem == "track4" {
            transcoder_event(Some(false))
        } else {
            Event::Completed
        };
        let (state, action) = advance(&task.track.stem, &mode, task.state, event);
        let result = match (state, action) {
            (TaskState::Finished(a), Action::Finish(b)) if a == b => a,
            other => panic!("unfinished {:?}", other),
        };
        outcomes.push(TaskOutcome { stem: task.track.stem, result });
    }
    assert_eq!(outcomes.len(), 3);
    for outcome in &outcomes {
        assert_eq!(outcome.result.is_err(), outcome.stem == "track4");
    }
    assert_eq!(
        run_result(&outcomes),
        Err(SyncFailure {
            stem: "track4".to_string(),
            error: TrackError::Transcode(TranscodeError::ExitStatus)
        })
    );
}

#[test]
fn run_succeeds_only_if_no_track_failed() {
    assert_eq!(run_result(&[outcome("a", Ok(())), outcome("b", Ok(()))]), Ok(()));
    let copy = TrackError::Copy(CopyError::Copy);
    let write = TrackError::Copy(CopyError::Write);
    assert_eq!(
        run_result(&[outcome("a", Ok(())), outcome("b", Err(copy)), outcome("c", Err(write))]),
        Err(SyncFailure { stem: "b".to_string(), error: copy })
    );
    assert_eq!(
        run_result(&[outcome("c", Err(write)), outcome("b", Err(copy))]),
        Err(SyncFailure { stem: "c".to_string(), error: write })
    );
}

#[test]
fn transcoder_is_run_with_fixed_settings() {
    assert_eq!(
        transcoder_args("/music/a.flac", "/out/a.mp3"),
        vec![
            "-i",
            "/music/a.flac",
            "-loglevel",
            "quiet",
            "-q:a",
            "0",
            "-map_metadata",
            "0",
            "-id3v2_version",
            "3",
            "/out/a.mp3"
        ]
    );
}

#[test]
fn transcoder_outcomes() {
    assert_eq!(transcoder_event(Some(true)), Event::Completed);
    assert_eq!(
        transcoder_event(Some(false)),
        Event::TranscoderFailed(TranscodeError::ExitStatus)
    );
    assert_eq!(transcoder_event(None), Event::TranscoderFailed(TranscodeError::Launch));
}

#[test]
fn transcoder_beside_the_program_is_preferred() {
    let beside = Some("/opt/w4dj/ffmpeg".to_string());
    let path = Some("/usr/bin/ffmpeg".to_string());
    assert_eq!(find_ffmpeg(beside.clone(), path.clone()), beside);
    assert_eq!(find_ffmpeg(beside.clone(), None), beside);
    assert_eq!(find_ffmpeg(None, path.clone()), path);
    assert_eq!(find_ffmpeg(None, None), None);
}

#[test]
fn status_names_the_work_and_the_track() {
    assert_eq!(status_message(&track("a", "mp3", TrackKind::Mp3)), "Copying MP3: a");
    assert_eq!(status_message(&track("b", "flac", TrackKind::Flac)), "Processing FLAC: b");
    assert_eq!(status_message(&track("晴天", "ncm", TrackKind::Ncm)), "Dumping NCM: 晴天");
}

#[test]
fn failure_names_the_track_and_what_failed() {
    let failure = SyncFailure {
        stem: "track4".to_string(),
        error: TrackError::Transcode(TranscodeError::ExitStatus),
    };
    assert_eq!(failure.describe(), "track4: transcoder reported failure");
    let failure = SyncFailure {
        stem: "晴天".to_string(),
        error: TrackError::Copy(CopyError::Copy),
    };
    assert_eq!(failure.describe(), "晴天: file could not be copied");
    assert_eq!(
        describe_error(TrackError::MetadataInjection(MetadataInjectionError::MissingStreamInfo)),
        "metadata injection failed, audio has no STREAMINFO block"
    );
    assert_eq!(
        describe_error(TrackError::Decode(DecodeError::Cover)),
        "cover could not be extracted"
    );
}
