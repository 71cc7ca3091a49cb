use w4dj::error::MetadataInjectionError;
use w4dj::id3::{read_tag, tag_mp3};

fn audio() -> Vec<u8> {
    vec![0xFF, 0xFB, 0x90, 0x00, 1, 2, 3, 4, 5]
}

#[test]
fn tagged_mp3_reads_back() {
    let out = tag_mp3("Song", "Singer", "Record", &[], &audio()).unwrap();
    let tag = read_tag(&out).unwrap();
    assert_eq!(tag.title.as_deref(), Some("Song"));
    assert_eq!(tag.artist.as_deref(), Some("Singer"));
    assert_eq!(tag.album.as_deref(), Some("Record"));
    assert_eq!(&out[tag.audio_start..], &audio()[..]);
}

#[test]
fn tag_bytes_are_exact() {
    let out = tag_mp3("A", "B", "C", &[], &audio()).unwrap();
    let mut expected: Vec<u8> = vec![0x49, 0x44, 0x33, 0x03, 0x00, 0x00, 0x00, 0x00, 0x00, 0x2D];
    expected.extend_from_slice(b"TIT2");
    expected.extend_from_slice(&[0, 0, 0, 5, 0, 0, 0x01, 0xFF, 0xFE, 0x41, 0x00]);
    expected.extend_from_slice(b"TPE1");
    expected.extend_from_slice(&[0, 0, 0, 5, 0, 0, 0x01, 0xFF, 0xFE, 0x42, 0x00]);
    expected.extend_from_slice(b"TALB");
    expected.extend_from_slice(&[0, 0, 0, 5, 0, 0, 0x01, 0xFF, 0xFE, 0x43, 0x00]);
    expected.extend_from_slice(&audio());
    assert_eq!(out, expected);
}

#[test]
fn cover_is_attached_as_front_cover() {
    let jpeg = vec![0xFF, 0xD8, 0xFF, 0xE0, 9, 9];
    let out = tag_mp3("", "", "", &jpeg, &audio()).unwrap();
    let mut expected: Vec<u8> = vec![0x49, 0x44, 0x33, 0x03, 0x00, 0x00, 0x00, 0x00, 0x00, 0x45];
    for id in [b"TIT2", b"TPE1", b"TALB"] {
        expected.extend_from_slice(id);
        expected.extend_from_slice(&[0, 0, 0, 3, 0, 0, 0x01, 0xFF, 0xFE]);
    }
    expected.extend_from_slice(b"APIC");
    expected.extend_from_slice(&[0, 0, 0, 20, 0, 0, 0x00]);
    expected.extend_from_slice(b"image/jpeg");
    expected.extend_from_slice(&[0x00, 0x03, 0x00]);
    expected.extend_from_slice(&jpeg);
    expected.extend_from_slice(&audio());
    assert_eq!(out, expected);
    let tag = read_tag(&out).unwrap();
    assert_eq!(tag.title.as_deref(), Some(""));
    assert_eq!(&out[tag.audio_start..], &audio()[..]);
}

#[test]
fn png_cover_is_named_as_png() {
    let png = vec![0x89, 0x50, 0x4E, 0x47, 0x0D, 0x0A, 0x1A, 0x0A, 1, 2, 3];
    let out = tag_mp3("t", "a", "l", &png, &audio()).unwrap();
    let at = out.windows(4).position(|w| w == b"APIC").unwrap();
    assert_eq!(&out[at + 10..at + 21], b"\x00image/png\x00");
    assert_eq!(out[at + 21], 0x03);
    assert_eq!(out[at + 22], 0x00);
    assert_eq!(&out[at + 23..at + 23 + png.len()], &png[..]);
}

#[test]
fn texts_beyond_ascii_read_back() {
    let title = "晴天";
    let artist = "Ünïcödé 🎵 artist";
    let album = "𝄞 clef";
    let out = tag_mp3(title, artist, album, &[1, 2, 3], &audio()).unwrap();
    let tag = read_tag(&out).unwrap();
    assert_eq!(tag.title.as_deref(), Some(title));
    assert_eq!(tag.artist.as_deref(), Some(artist));
    assert_eq!(tag.album.as_deref(), Some(album));
    assert_eq!(&out[tag.audio_start..], &audio()[..]);
}

#[test]
fn audio_without_frame_sync_is_refused() {
    assert_eq!(
        tag_mp3("t", "a", "l", &[], &[]).unwrap_err(),
        MetadataInjectionError::MissingFrameSync
    );
    assert_eq!(
        tag_mp3("t", "a", "l", &[], &[0xFF]).unwrap_err(),
        MetadataInjectionError::MissingFrameSync
    );
    assert_eq!(
        tag_mp3("t", "a", "l", &[], &[0xFF, 0xDF, 0, 0]).unwrap_err(),
        MetadataInjectionError::MissingFrameSync
    );
    assert_eq!(
        tag_mp3("t", "a", "l", &[], b"fLaC").unwrap_err(),
        MetadataInjectionError::MissingFrameSync
    );
    assert!(tag_mp3("t", "a", "l", &[], &[0xFF, 0xE0]).is_ok());
}

#[test]
fn tag_too_large_is_refused() {
    let cover = vec![0u8; 0x1000_0000];
    assert_eq!(
        tag_mp3("t", "a", "l", &cover, &audio()).unwrap_err(),
        MetadataInjectionError::TagTooLarge
    );
}

#[test]
fn bytes_without_tag_give_no_tag() {
    assert!(read_tag(&[]).is_none());
    assert!(read_tag(&audio()).is_none());
    assert!(read_tag(b"ID3\x04\x00\x00\x00\x00\x00\x00").is_none());
    assert!(read_tag(b"ID3\x03\x00\x40\x00\x00\x00\x00").is_none());
    assert!(read_tag(b"ID3\x03\x00\x00\x00\x00\x00\x80").is_none());
    assert!(read_tag(b"ID3\x03\x00\x00\x00\x00\x00\x01").is_none());
}

#[test]
fn tag_without_frames_has_no_texts() {
    let mut bytes = b"ID3\x03\x00\x00\x00\x00\x00\x0c".to_vec();
    bytes.extend_from_slice(&[0u8; 12]);
    bytes.extend_from_slice(&audio());
    let tag = read_tag(&bytes).unwrap();
    assert_eq!(tag.title, None);
    assert_eq!(tag.artist, None);
    assert_eq!(tag.album, None);
    assert_eq!(tag.audio_start, 22);
}

#[test]
fn frames_of_other_kinds_are_passed_over() {
    let mut frames: Vec<u8> = Vec::new();
    frames.extend_from_slice(b"TYER");
    frames.extend_from_slice(&[0, 0, 0, 5, 0, 0, 0x00, b'2', b'0', b'2', b'0']);
    frames.extend_from_slice(b"TIT2");
    frames.extend_from_slice(&[0, 0, 0, 5, 0, 0x80, 1, 2, 3, 4, 5]);
    frames.extend_from_slice(b"TIT2");
    frames.extend_from_slice(&[0, 0, 0, 5, 0, 0, 0x01, 0xFF, 0xFE, b'x', 0]);
    frames.extend_from_slice(b"TALB");
    frames.extend_from_slice(&[0, 0, 0, 4, 0, 0, 0x00, b'a', b'b', b'c']);
    let mut bytes = b"ID3\x03\x00\x00\x00\x00\x00".to_vec();
    bytes.push(frames.len() as u8);
    bytes.extend_from_slice(&frames);
    let tag = read_tag(&bytes).unwrap();
    assert_eq!(tag.title.as_deref(), Some("x"));
    assert_eq!(tag.album, None);
    assert_eq!(tag.artist, None);
    assert_eq!(tag.audio_start, bytes.len());
}
