use w4dj::error::MetadataInjectionError;
use w4dj::flac::tag_flac;

fn stream_info() -> Vec<u8> {
    (0u8..34).collect()
}

fn frames() -> Vec<u8> {
    vec![0xFF, 0xF8, 0xC9, 0x18, 7, 7, 7]
}

fn block(last: bool, kind: u8, body: &[u8]) -> Vec<u8> {
    let mut out = vec![if last { 0x80 | kind } else { kind }];
    out.extend_from_slice(&[(body.len() >> 16) as u8, (body.len() >> 8) as u8, body.len() as u8]);
    out.extend_from_slice(body);
    out
}

fn comments(title: &str, artist: &str, album: &str) -> Vec<u8> {
    let mut body: Vec<u8> = vec![4, 0, 0, 0];
    body.extend_from_slice(b"w4dj");
    body.extend_from_slice(&[3, 0, 0, 0]);
    for entry in [
        format!("TITLE={}", title),
        format!("ARTIST={}", artist),
        format!("ALBUM={}", album),
    ] {
        body.extend_from_slice(&(entry.len() as u32).to_le_bytes());
        body.extend_from_slice(entry.as_bytes());
    }
    body
}

fn picture(mime: &str, image: &[u8]) -> Vec<u8> {
    let mut body: Vec<u8> = vec![0, 0, 0, 3];
    body.extend_from_slice(&(mime.len() as u32).to_be_bytes());
    body.extend_from_slice(mime.as_bytes());
    body.extend_from_slice(&[0u8; 20]);
    body.extend_from_slice(&(image.len() as u32).to_be_bytes());
    body.extend_from_slice(image);
    body
}

fn stream(blocks: &[Vec<u8>]) -> Vec<u8> {
    let mut out = b"fLaC".to_vec();
    for b in blocks {
        out.extend_from_slice(b);
    }
    out.extend_from_slice(&frames());
    out
}

#[test]
fn comments_are_added_behind_stream_info() {
    let input = stream(&[block(true, 0, &stream_info())]);
    let out = tag_flac("T", "A", "L", &[], &input).unwrap();
    let mut expected = b"fLaC".to_vec();
    expected.extend_from_slice(&[0x00, 0x00, 0x00, 0x22]);
    expected.extend_from_slice(&stream_info());
    expected.extend_from_slice(&[0x84, 0x00, 0x00, 0x2E]);
    expected.extend_from_slice(&[4, 0, 0, 0]);
    expected.extend_from_slice(b"w4dj");
    expected.extend_from_slice(&[3, 0, 0, 0]);
    expected.extend_from_slice(&[7, 0, 0, 0]);
    expected.extend_from_slice(b"TITLE=T");
    expected.extend_from_slice(&[8, 0, 0, 0]);
    expected.extend_from_slice(b"ARTIST=A");
    expected.extend_from_slice(&[7, 0, 0, 0]);
    expected.extend_from_slice(b"ALBUM=L");
    expected.extend_from_slice(&frames());
    assert_eq!(out, expected);
}

#[test]
fn cover_is_added_as_last_block() {
    let jpeg = vec![0xFF, 0xD8, 0xFF, 0xE0, 1, 2];
    let input = stream(&[block(true, 0, &stream_info())]);
    let out = tag_flac("晴天", "周杰伦", "叶惠美", &jpeg, &input).unwrap();
    let expected = stream(&[
        block(false, 0, &stream_info()),
        block(false, 4, &comments("晴天", "周杰伦", "叶惠美")),
        block(true, 6, &picture("image/jpeg", &jpeg)),
    ]);
    assert_eq!(out, expected);
}

#[test]
fn png_picture_block_is_named_as_png() {
    let png = vec![0x89, 0x50, 0x4E, 0x47, 0x0D, 0x0A, 0x1A, 0x0A, 1];
    let input = stream(&[block(true, 0, &stream_info())]);
    let out = tag_flac("t", "a", "l", &png, &input).unwrap();
    let expected = stream(&[
        block(false, 0, &stream_info()),
        block(false, 4, &comments("t", "a", "l")),
        block(true, 6, &picture("image/png", &png)),
    ]);
    assert_eq!(out, expected);
}

#[test]
fn other_blocks_stay_and_old_comments_go() {
    let seek_table = vec![9u8; 18];
    let padding = vec![0u8; 5];
    let old_picture = picture("image/jpeg", &[1, 2, 3]);
    let input = stream(&[
        block(false, 0, &stream_info()),
        block(false, 4, &comments("old", "old", "old")),
        block(false, 3, &seek_table),
        block(false, 6, &old_picture),
        block(true, 1, &padding),
    ]);
    let out = tag_flac("new", "artist", "album", &[], &input).unwrap();
    let expected = stream(&[
        block(false, 0, &stream_info()),
        block(false, 3, &seek_table),
        block(false, 6, &old_picture),
        block(false, 1, &padding),
        block(true, 4, &comments("new", "artist", "album")),
    ]);
    assert_eq!(out, expected);
}

#[test]
fn last_block_may_be_the_old_comments() {
    let input = stream(&[
        block(false, 0, &stream_info()),
        block(true, 4, &comments("old", "old", "old")),
    ]);
    let out = tag_flac("n", "a", "l", &[], &input).unwrap();
    let expected = stream(&[
        block(false, 0, &stream_info()),
        block(true, 4, &comments("n", "a", "l")),
    ]);
    assert_eq!(out, expected);
}

#[test]
fn stream_without_marker_is_refused() {
    for bad in [&b""[..], &b"fLa"[..], &b"OggS\x00\x00\x00\x00"[..], &[0xFF, 0xFB, 0x90, 0x00][..]] {
        assert_eq!(
            tag_flac("t", "a", "l", &[], bad).unwrap_err(),
            MetadataInjectionError::MissingStreamMarker
        );
    }
}

#[test]
fn stream_without_stream_info_is_refused() {
    assert_eq!(
        tag_flac("t", "a", "l", &[], b"fLaC").unwrap_err(),
        MetadataInjectionError::MissingStreamInfo
    );
    let input = stream(&[block(true, 4, &comments("x", "y", "z"))]);
    assert_eq!(
        tag_flac("t", "a", "l", &[], &input).unwrap_err(),
        MetadataInjectionError::MissingStreamInfo
    );
}

#[test]
fn cut_off_metadata_is_refused() {
    let whole = stream(&[block(false, 0, &stream_info())]);
    assert_eq!(
        tag_flac("t", "a", "l", &[], &whole[..whole.len() - frames().len()]).unwrap_err(),
        MetadataInjectionError::TruncatedMetadata
    );
    let short = &b"fLaC\x80\x00\x00\x22\x01\x02"[..];
    assert_eq!(
        tag_flac("t", "a", "l", &[], short).unwrap_err(),
        MetadataInjectionError::TruncatedMetadata
    );
    assert_eq!(
        tag_flac("t", "a", "l", &[], b"fLaC\x00\x00").unwrap_err(),
        MetadataInjectionError::TruncatedMetadata
    );
}

#[test]
fn block_too_large_is_refused() {
    let input = stream(&[block(true, 0, &stream_info())]);
    let cover = vec![0u8; 0x0100_0000];
    assert_eq!(
        tag_flac("t", "a", "l", &cover, &input).unwrap_err(),
        MetadataInjectionError::TagTooLarge
    );
    let long = "x".repeat(0x0100_0000);
    assert_eq!(
        tag_flac(&long, "a", "l", &[], &input).unwrap_err(),
        MetadataInjectionError::TagTooLarge
    );
}
