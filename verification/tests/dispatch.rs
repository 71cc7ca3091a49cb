use w4dj::config::Mode;
use w4dj::dispatch::{advance, begin, write_decoded, Action, Event, TaskState};
use w4dj::error::{DecodeError, CopyError, MetadataInjectionError, TrackError, TranscodeError};
use w4dj::fingerprint::{Track, TrackKind};
use w4dj::flac::tag_flac;
use w4dj::id3::tag_mp3;
use w4dj::track::{Artist, DecodedTrack, TrackMetadata};

fn track(stem: &str, extension: &str, kind: TrackKind) -> Track {
    Track {
        stem: stem.to_string(),
        size: 1000,
        path: format!("/music/sub/{}.{}", stem, extension),
        file_name: Some(format!("{}.{}", stem, extension)),
        kind,
    }
}

fn flac_audio() -> Vec<u8> {
    let mut audio = b"fLaC\x80\x00\x00\x22".to_vec();
    audio.extend_from_slice(&[7u8; 34]);
    audio.extend_from_slice(&[0xFF, 0xF8, 1, 2, 3]);
    audio
}

fn mp3_audio() -> Vec<u8> {
    vec![0xFF, 0xFB, 0x90, 0x00, 9, 9]
}

fn decoded(format: &str, audio: Vec<u8>) -> DecodedTrack {
    DecodedTrack {
        audio,
        native_format: format.to_string(),
        cover: vec![0xFF, 0xD8, 0xFF, 0xE0],
        metadata: TrackMetadata {
            title: "Title".to_string(),
            id: 1,
            album: "Album".to_string(),
            artists: vec![Artist { name: "Artist".to_string(), id: 2 }],
            bitrate: 0,
            duration: 0,
            mv_id: Some(3),
            alias: None,
        },
    }
}

#[test]
fn mp3_is_copied_under_its_file_name() {
    for mode in [Mode::Default, Mode::Legacy] {
        let (state, action) = begin(&track("track1", "mp3", TrackKind::Mp3), &mode);
        assert_eq!(state, TaskState::Copying);
        assert_eq!(
            action,
            Action::Copy {
                source: "/music/sub/track1.mp3".to_string(),
                name: "track1.mp3".to_string()
            }
        );
        let (state, action) = advance("track1", &mode, state, Event::Completed);
        assert_eq!(state, TaskState::Finished(Ok(())));
        assert_eq!(action, Action::Finish(Ok(())));
    }
}

#[test]
fn flac_is_copied_by_default() {
    let (state, action) = begin(&track("track2", "FLAC", TrackKind::Flac), &Mode::Default);
    assert_eq!(state, TaskState::Copying);
    assert_eq!(
        action,
        Action::Copy {
            source: "/music/sub/track2.FLAC".to_string(),
            name: "track2.FLAC".to_string()
        }
    );
}

#[test]
fn flac_is_transcoded_by_legacy() {
    let (state, action) = begin(&track("track4", "flac", TrackKind::Flac), &Mode::Legacy);
    assert_eq!(state, TaskState::Transcoding);
    assert_eq!(
        action,
        Action::Transcode {
            source: "/music/sub/track4.flac".to_string(),
            name: "track4.mp3".to_string()
        }
    );
    let (state, action) = advance("track4", &Mode::Legacy, state, Event::Completed);
    assert_eq!(state, TaskState::Finished(Ok(())));
    assert_eq!(action, Action::Finish(Ok(())));
}

#[test]
fn failed_transcoder_fails_the_track() {
    for error in [TranscodeError::ExitStatus, TranscodeError::Launch] {
        let (state, _) = begin(&track("track4", "flac", TrackKind::Flac), &Mode::Legacy);
        let (state, action) =
            advance("track4", &Mode::Legacy, state, Event::TranscoderFailed(error));
        assert_eq!(state, TaskState::Finished(Err(TrackError::Transcode(error))));
        assert_eq!(action, Action::Finish(Err(TrackError::Transcode(error))));
    }
}

#[test]
fn track_without_file_name_cannot_be_copied() {
    let mut t = track("x", "mp3", TrackKind::Mp3);
    t.file_name = None;
    let (state, action) = begin(&t, &Mode::Default);
    let failure = Err(TrackError::Copy(CopyError::InvalidSourceName));
    assert_eq!(state, TaskState::Finished(failure));
    assert_eq!(action, Action::Finish(failure));
}

#[test]
fn failed_copy_fails_the_track() {
    let (state, action) = advance("t", &Mode::Default, TaskState::Copying, Event::Failed);
    assert_eq!(state, TaskState::Finished(Err(TrackError::Copy(CopyError::Copy))));
    assert_eq!(action, Action::Finish(Err(TrackError::Copy(CopyError::Copy))));
}

#[test]
fn container_in_legacy_mode_ends_as_mp3_only() {
    let mode = Mode::Legacy;
    let (state, action) = begin(&track("track3", "ncm", TrackKind::Ncm), &mode);
    assert_eq!(state, TaskState::Decoding);
    assert_eq!(action, Action::Decode { source: "/music/sub/track3.ncm".to_string() });

    let found = decoded("flac", flac_audio());
    let expected =
        tag_flac("Title", "Artist", "Album", &[0xFF, 0xD8, 0xFF, 0xE0], &flac_audio()).unwrap();
    let (state, action) = advance("track3", &mode, state, Event::Decoded(found));
    assert_eq!(state, TaskState::Writing { name: "track3.flac".to_string(), convert: true });
    assert_eq!(action, Action::Write { name: "track3.flac".to_string(), bytes: expected });

    let (state, action) = advance("track3", &mode, state, Event::Completed);
    assert_eq!(state, TaskState::Converting { from: "track3.flac".to_string() });
    assert_eq!(
        action,
        Action::Convert { from: "track3.flac".to_string(), name: "track3.mp3".to_string() }
    );

    let (state, action) = advance("track3", &mode, state, Event::Completed);
    assert_eq!(state, TaskState::Removing);
    assert_eq!(action, Action::Remove { name: "track3.flac".to_string() });

    let (state, action) = advance("track3", &mode, state, Event::Completed);
    assert_eq!(state, TaskState::Finished(Ok(())));
    assert_eq!(action, Action::Finish(Ok(())));
}

#[test]
fn container_in_default_mode_stays_flac() {
    let mode = Mode::Default;
    let (state, _) = begin(&track("track3", "ncm", TrackKind::Ncm), &mode);
    let (state, action) = advance("track3", &mode, state, Event::Decoded(decoded("", flac_audio())));
    assert_eq!(state, TaskState::Writing { name: "track3.flac".to_string(), convert: false });
    match action {
        Action::Write { name, bytes } => {
            assert_eq!(name, "track3.flac");
            assert!(bytes.starts_with(b"fLaC"));
            assert!(bytes.ends_with(&[0xFF, 0xF8, 1, 2, 3]));
        }
        other => panic!("unexpected action {:?}", other),
    }
    let (state, action) = advance("track3", &mode, state, Event::Completed);
    assert_eq!(state, TaskState::Finished(Ok(())));
    assert_eq!(action, Action::Finish(Ok(())));
}

#[test]
fn decoded_mp3_is_never_converted() {
    for mode in [Mode::Default, Mode::Legacy] {
        let (state, action) = write_decoded("song", &mode, decoded("MP3", mp3_audio()));
        let expected =
            tag_mp3("Title", "Artist", "Album", &[0xFF, 0xD8, 0xFF, 0xE0], &mp3_audio()).unwrap();
        assert_eq!(state, TaskState::Writing { name: "song.mp3".to_string(), convert: false });
        assert_eq!(action, Action::Write { name: "song.mp3".to_string(), bytes: expected });
    }
}

#[test]
fn decoded_audio_of_another_format_is_written_as_it_is() {
    let audio = b"OggS....".to_vec();
    let (state, action) = write_decoded("song", &Mode::Legacy, decoded("Ogg", audio.clone()));
    assert_eq!(state, TaskState::Writing { name: "song.ogg".to_string(), convert: false });
    assert_eq!(action, Action::Write { name: "song.ogg".to_string(), bytes: audio });
}

#[test]
fn failed_injection_fails_the_track() {
    let (state, action) = write_decoded("song", &Mode::Default, decoded("flac", mp3_audio()));
    let failure =
        Err(TrackError::MetadataInjection(MetadataInjectionError::MissingStreamMarker));
    assert_eq!(state, TaskState::Finished(failure));
    assert_eq!(action, Action::Finish(failure));
    let (_, action) = write_decoded("song", &Mode::Default, decoded("mp3", flac_audio()));
    assert_eq!(
        action,
        Action::Finish(Err(TrackError::MetadataInjection(
            MetadataInjectionError::MissingFrameSync
        )))
    );
}

#[test]
fn each_decode_failure_is_reported_as_itself() {
    for error in [
        DecodeError::Unreadable,
        DecodeError::Malformed,
        DecodeError::Audio,
        DecodeError::Metadata,
        DecodeError::Cover,
    ] {
        let (state, action) =
            advance("t", &Mode::Default, TaskState::Decoding, Event::DecodeFailed(error));
        assert_eq!(state, TaskState::Finished(Err(TrackError::Decode(error))));
        assert_eq!(action, Action::Finish(Err(TrackError::Decode(error))));
    }
}

#[test]
fn failures_after_writing_fail_the_track() {
    let writing = TaskState::Writing { name: "t.flac".to_string(), convert: true };
    let (_, action) = advance("t", &Mode::Legacy, writing, Event::Failed);
    assert_eq!(action, Action::Finish(Err(TrackError::Copy(CopyError::Write))));

    let converting = TaskState::Converting { from: "t.flac".to_string() };
    let (_, action) = advance(
        "t",
        &Mode::Legacy,
        converting,
        Event::TranscoderFailed(TranscodeError::ExitStatus),
    );
    assert_eq!(action, Action::Finish(Err(TrackError::Transcode(TranscodeError::ExitStatus))));

    let (_, action) = advance("t", &Mode::Legacy, TaskState::Removing, Event::Failed);
    assert_eq!(action, Action::Finish(Err(TrackError::Copy(CopyError::Remove))));
}

#[test]
fn events_that_were_not_asked_for_count_as_failure() {
    let (_, action) = advance("t", &Mode::Default, TaskState::Copying, Event::DecodeFailed(DecodeError::Audio));
    assert_eq!(action, Action::Finish(Err(TrackError::Copy(CopyError::Copy))));
    let (_, action) = advance("t", &Mode::Default, TaskState::Transcoding, Event::Failed);
    assert_eq!(action, Action::Finish(Err(TrackError::Transcode(TranscodeError::Launch))));
    let (_, action) = advance("t", &Mode::Default, TaskState::Decoding, Event::Completed);
    assert_eq!(action, Action::Finish(Err(TrackError::Decode(DecodeError::Unreadable))));
    let (_, action) = advance(
        "t",
        &Mode::Default,
        TaskState::Removing,
        Event::Decoded(decoded("mp3", mp3_audio())),
    );
    assert_eq!(action, Action::Finish(Err(TrackError::Copy(CopyError::Remove))));
}

#[test]
fn finished_work_stays_finished() {
    let failure = Err(TrackError::Copy(CopyError::Copy));
    for event in [Event::Completed, Event::Failed] {
        let (state, action) = advance("t", &Mode::Default, TaskState::Finished(failure), event);
        assert_eq!(state, TaskState::Finished(failure));
        assert_eq!(action, Action::Finish(failure));
    }
    let (state, _) = advance("t", &Mode::Default, TaskState::Finished(Ok(())), Event::Failed);
    assert_eq!(state, TaskState::Finished(Ok(())));
}
