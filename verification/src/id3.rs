//! ID3v2.3 tags: the tag that is written in front of MP3 audio, and its
//! reading.
//!
//! A tag is a header of ten bytes (`"ID3"`, the version, no flags, the length
//! of what follows in seven-bit form) and a run of frames. A frame is its
//! identifier of four letters, the length of its body in four bytes, two flag
//! bytes and the body. Texts are written in UTF-16 with a byte order mark.

use crate::bytes::{
    append, be32, be32_value, is_syncsafe, put_be32, put_syncsafe, read_be32, syncsafe,
    syncsafe_value,
};
use crate::error::MetadataInjectionError;
use crate::picture::{media_type, media_type_of};
use crate::text::{
    decode_utf16le, encode_utf16le, lemma_utf16le_round_trip, text_view, utf16le, utf16le_decode,
    TagText,
};
use vstd::prelude::*;

verus! {

/// The frames that this library writes and reads.
#[derive(Clone, Copy, Debug, PartialEq, Eq, Structural)]
pub enum FrameKind {
    /// `TIT2`: the title of the track.
    Title,
    /// `TPE1`: the lead artist.
    Artist,
    /// `TALB`: the album.
    Album,
    /// `APIC`: an attached picture.
    Picture,
}

impl FrameKind {
    /// The four letters that identify the frame.
    pub open spec fn id(self) -> Seq<u8> {
        match self {
            FrameKind::Title => seq![0x54u8, 0x49u8, 0x54u8, 0x32u8],
            FrameKind::Artist => seq![0x54u8, 0x50u8, 0x45u8, 0x31u8],
            FrameKind::Album => seq![0x54u8, 0x41u8, 0x4Cu8, 0x42u8],
            FrameKind::Picture => seq![0x41u8, 0x50u8, 0x49u8, 0x43u8],
        }
    }
}

/// The largest body that the header of a tag can announce: 2^28 - 1 bytes.
pub const MAX_TAG_BODY: u32 = 0x0FFF_FFFF;

/// The body of a text frame: encoding 1, the byte order mark of little
/// endian, the text in UTF-16.
pub open spec fn text_body(s: Seq<char>) -> Seq<u8> {
    seq![0x01u8, 0xFFu8, 0xFEu8] + utf16le(s)
}

/// The body of a picture frame: encoding 0, the media type, its end, the
/// picture type 3 (front cover), an empty description, the image.
pub open spec fn picture_body(image: Seq<u8>) -> Seq<u8> {
    seq![0x00u8] + media_type(image) + seq![0x00u8, 0x03u8, 0x00u8] + image
}

/// One frame: identifier, length of the body, no flags, body.
pub open spec fn frame(kind: FrameKind, body: Seq<u8>) -> Seq<u8>
    recommends
        body.len() <= u32::MAX,
{
    kind.id() + be32(body.len() as u32) + seq![0x00u8, 0x00u8] + body
}

/// The picture frame for a cover image, and nothing for an empty one.
pub open spec fn picture_frame(cover: Seq<u8>) -> Seq<u8> {
    if cover.len() > 0 {
        frame(FrameKind::Picture, picture_body(cover))
    } else {
        Seq::empty()
    }
}

/// The frames of a tag: title, artist, album and the cover.
pub open spec fn frames(text: TagText, cover: Seq<u8>) -> Seq<u8> {
    frame(FrameKind::Title, text_body(text.title)) + frame(
        FrameKind::Artist,
        text_body(text.artist),
    ) + frame(FrameKind::Album, text_body(text.album)) + picture_frame(cover)
}

/// The ten bytes in front of the frames.
pub open spec fn header(body_len: u32) -> Seq<u8>
    recommends
        body_len <= MAX_TAG_BODY,
{
    seq![0x49u8, 0x44u8, 0x33u8, 0x03u8, 0x00u8, 0x00u8] + syncsafe(body_len)
}

/// Whether audio begins with the sync of an MPEG frame: eleven set bits.
pub open spec fn starts_with_frame_sync(audio: Seq<u8>) -> bool {
    audio.len() >= 2 && audio[0] == 0xFF && audio[1] >= 0xE0
}

/// MP3 audio with its tag in front. The audio has to begin with a frame
/// sync, and the frames may not be longer than the header can say.
pub open spec fn tagged_mp3(text: TagText, cover: Seq<u8>, audio: Seq<u8>) -> Result<
    Seq<u8>,
    MetadataInjectionError,
> {
    if !starts_with_frame_sync(audio) {
        Err(MetadataInjectionError::MissingFrameSync)
    } else if frames(text, cover).len() > MAX_TAG_BODY {
        Err(MetadataInjectionError::TagTooLarge)
    } else {
        Ok(header(frames(text, cover).len() as u32) + frames(text, cover) + audio)
    }
}

/// The length of the frames of the tag that `bytes` begin with. There is
/// none where the bytes do not begin with the header of a version 2.3 tag
/// without flags, or end before the tag does.
pub open spec fn tag_body_len(bytes: Seq<u8>) -> Option<int> {
    if bytes.len() >= 10 && bytes[0] == 0x49 && bytes[1] == 0x44 && bytes[2] == 0x33 && bytes[3]
        == 0x03 && bytes[5] == 0x00 && is_syncsafe(bytes.subrange(6, 10)) && 10 + syncsafe_value(
        bytes.subrange(6, 10),
    ) <= bytes.len() {
        Some(syncsafe_value(bytes.subrange(6, 10)))
    } else {
        None
    }
}

/// The body of the first frame of a kind in a run of frames. The run ends
/// at padding or where a frame is cut short; a frame that is compressed or
/// encrypted is passed over.
pub open spec fn find_frame(run: Seq<u8>, kind: FrameKind) -> Option<Seq<u8>>
    decreases run.len(),
{
    if run.len() < 10 || run[0] == 0 {
        None
    } else {
        let size = be32_value(run.subrange(4, 8));
        if 10 + size > run.len() {
            None
        } else if run.subrange(0, 4) == kind.id() && run[9] == 0 {
            Some(run.subrange(10, 10 + size))
        } else {
            find_frame(run.skip(10 + size), kind)
        }
    }
}

/// The text in the body of a text frame, where it is written as this library
/// writes it.
pub open spec fn body_text(body: Seq<u8>) -> Option<Seq<char>> {
    if body.len() >= 3 && body[0] == 0x01 && body[1] == 0xFF && body[2] == 0xFE {
        utf16le_decode(body.skip(3))
    } else {
        None
    }
}

/// The text of the first frame of a kind in the tag that `bytes` begin with.
pub open spec fn tag_text(bytes: Seq<u8>, kind: FrameKind) -> Option<Seq<char>> {
    match tag_body_len(bytes) {
        Some(len) => match find_frame(bytes.subrange(10, 10 + len), kind) {
            Some(body) => body_text(body),
            None => None,
        },
        None => None,
    }
}

/// What follows the tag that `bytes` begin with: the audio.
pub open spec fn audio_after_tag(bytes: Seq<u8>) -> Option<Seq<u8>> {
    match tag_body_len(bytes) {
        Some(len) => Some(bytes.skip(10 + len)),
        None => None,
    }
}

/// Appends the four letters of a frame.
fn put_frame_id(out: &mut Vec<u8>, kind: FrameKind)
    ensures
        final(out)@ == old(out)@ + kind.id(),
{
    match kind {
        FrameKind::Title => {
            out.push(0x54);
            out.push(0x49);
            out.push(0x54);
            out.push(0x32);
        },
        FrameKind::Artist => {
            out.push(0x54);
            out.push(0x50);
            out.push(0x45);
            out.push(0x31);
        },
        FrameKind::Album => {
            out.push(0x54);
            out.push(0x41);
            out.push(0x4C);
            out.push(0x42);
        },
        FrameKind::Picture => {
            out.push(0x41);
            out.push(0x50);
            out.push(0x49);
            out.push(0x43);
        },
    }
    assert(out@ =~= old(out)@ + kind.id());
}

/// Appends one frame.
fn put_frame(out: &mut Vec<u8>, kind: FrameKind, body: &[u8])
    requires
        body.len() <= u32::MAX,
    ensures
        final(out)@ == old(out)@ + frame(kind, body@),
{
    put_frame_id(out, kind);
    put_be32(out, body.len() as u32);
    out.push(0x00);
    out.push(0x00);
    append(out, body);
    assert(out@ =~= old(out)@ + frame(kind, body@));
}

/// The body of a text frame.
fn make_text_body(s: &str) -> (body: Vec<u8>)
    ensures
        body@ == text_body(s@),
{
    let mut body: Vec<u8> = Vec::new();
    body.push(0x01);
    body.push(0xFF);
    body.push(0xFE);
    let units = encode_utf16le(s);
    append(&mut body, units.as_slice());
    assert(body@ =~= text_body(s@));
    body
}

/// The body of a picture frame.
fn make_picture_body(image: &[u8]) -> (body: Vec<u8>)
    ensures
        body@ == picture_body(image@),
{
    let mut body: Vec<u8> = Vec::new();
    body.push(0x00);
    append(&mut body, media_type_of(image));
    body.push(0x00);
    body.push(0x03);
    body.push(0x00);
    append(&mut body, image);
    assert(body@ =~= picture_body(image@));
    body
}

/// A frame is ten bytes longer than its body.
pub proof fn lemma_frame_len(kind: FrameKind, body: Seq<u8>)
    ensures
        frame(kind, body).len() == 10 + body.len(),
{
}

/// Appends a frame unless its body alone is longer than a tag may be.
fn put_frame_checked(out: &mut Vec<u8>, kind: FrameKind, body: &[u8]) -> (fits: bool)
    ensures
        fits == (body.len() <= MAX_TAG_BODY),
        fits ==> final(out)@ == old(out)@ + frame(kind, body@),
        !fits ==> final(out)@ == old(out)@,
{
    if body.len() > MAX_TAG_BODY as usize {
        return false;
    }
    put_frame(out, kind, body);
    true
}

/// The frames of a tag, or nothing where they are longer than a tag may be.
fn make_frames(title: &str, artist: &str, album: &str, cover: &[u8]) -> (r: Option<Vec<u8>>)
    ensures
        match r {
            Some(run) => run@ == frames(
                TagText { title: title@, artist: artist@, album: album@ },
                cover@,
            ) && run@.len() <= MAX_TAG_BODY,
            None => frames(TagText { title: title@, artist: artist@, album: album@ }, cover@).len()
                > MAX_TAG_BODY,
        },
{
    let ghost text = TagText { title: title@, artist: artist@, album: album@ };
    proof {
        lemma_frame_len(FrameKind::Title, text_body(title@));
        lemma_frame_len(FrameKind::Artist, text_body(artist@));
        lemma_frame_len(FrameKind::Album, text_body(album@));
        lemma_frame_len(FrameKind::Picture, picture_body(cover@));
    }
    let mut run: Vec<u8> = Vec::new();
    let title_body = make_text_body(title);
    if !put_frame_checked(&mut run, FrameKind::Title, title_body.as_slice()) {
        return None;
    }
    let artist_body = make_text_body(artist);
    if !put_frame_checked(&mut run, FrameKind::Artist, artist_body.as_slice()) {
        return None;
    }
    let album_body = make_text_body(album);
    if !put_frame_checked(&mut run, FrameKind::Album, album_body.as_slice()) {
        return None;
    }
    if cover.len() > 0 {
        if cover.len() > MAX_TAG_BODY as usize {
            return None;
        }
        let body = make_picture_body(cover);
        if !put_frame_checked(&mut run, FrameKind::Picture, body.as_slice()) {
            return None;
        }
    }
    assert(run@ =~= frames(text, cover@));
    if run.len() > MAX_TAG_BODY as usize {
        return None;
    }
    Some(run)
}

/// Writes the tag of a track in front of its MP3 audio.
///
/// The result is the header, the frames for title, artist and album, the
/// picture frame where there is a cover, and then the audio, byte for byte.
/// Audio that does not begin with a frame sync is refused, and so is a tag
/// whose frames are longer than 2^28 - 1 bytes.
pub fn tag_mp3(title: &str, artist: &str, album: &str, cover: &[u8], audio: &[u8]) -> (r: Result<
    Vec<u8>,
    MetadataInjectionError,
>)
    ensures
        match r {
            Ok(out) => tagged_mp3(
                TagText { title: title@, artist: artist@, album: album@ },
                cover@,
                audio@,
            ) == Ok::<Seq<u8>, MetadataInjectionError>(out@),
            Err(e) => tagged_mp3(
                TagText { title: title@, artist: artist@, album: album@ },
                cover@,
                audio@,
            ) == Err::<Seq<u8>, MetadataInjectionError>(e),
        },
{
    if audio.len() < 2 || audio[0] != 0xFF || audio[1] < 0xE0 {
        return Err(MetadataInjectionError::MissingFrameSync);
    }
    match make_frames(title, artist, album, cover) {
        None => Err(MetadataInjectionError::TagTooLarge),
        Some(run) => {
            let mut out: Vec<u8> = Vec::new();
            out.push(0x49);
            out.push(0x44);
            out.push(0x33);
            out.push(0x03);
            out.push(0x00);
            out.push(0x00);
            put_syncsafe(&mut out, run.len() as u32);
            assert(out@ =~= header(run.len() as u32));
            append(&mut out, run.as_slice());
            append(&mut out, audio);
            Ok(out)
        },
    }
}

/// What was read from the tag in front of MP3 audio.
#[derive(Clone, Debug, PartialEq, Eq)]
pub struct Mp3Tag {
    /// The title, where the tag has a readable title frame.
    pub title: Option<String>,
    /// The lead artist, where the tag has a readable artist frame.
    pub artist: Option<String>,
    /// The album, where the tag has a readable album frame.
    pub album: Option<String>,
    /// Where the audio begins: the length of the tag.
    pub audio_start: usize,
}

/// Whether the four bytes at `at` are the letters of a frame.
fn is_frame_id(bytes: &[u8], at: usize, kind: FrameKind) -> (r: bool)
    requires
        at + 4 <= bytes.len(),
    ensures
        r == (bytes@.subrange(at as int, at + 4) == kind.id()),
{
    let r = match kind {
        FrameKind::Title => bytes[at] == 0x54 && bytes[at + 1] == 0x49 && bytes[at + 2] == 0x54
            && bytes[at + 3] == 0x32,
        FrameKind::Artist => bytes[at] == 0x54 && bytes[at + 1] == 0x50 && bytes[at + 2] == 0x45
            && bytes[at + 3] == 0x31,
        FrameKind::Album => bytes[at] == 0x54 && bytes[at + 1] == 0x41 && bytes[at + 2] == 0x4C
            && bytes[at + 3] == 0x42,
        FrameKind::Picture => bytes[at] == 0x41 && bytes[at + 1] == 0x50 && bytes[at + 2] == 0x49
            && bytes[at + 3] == 0x43,
    };
    assert(r == (bytes@.subrange(at as int, at + 4) =~= kind.id()));
    r
}

/// Where the body of the first frame of a kind lies in the run of frames
/// from `start` to `end`.
fn locate_frame(bytes: &[u8], start: usize, end: usize, kind: FrameKind) -> (r: Option<
    (usize, usize),
>)
    requires
        start <= end <= bytes.len(),
    ensures
        match r {
            Some((from, to)) => start <= from <= to <= end && find_frame(
                bytes@.subrange(start as int, end as int),
                kind,
            ) == Some(bytes@.subrange(from as int, to as int)),
            None => find_frame(bytes@.subrange(start as int, end as int), kind) is None,
        },
{
    let mut at: usize = start;
    loop
        invariant
            start <= at <= end <= bytes.len(),
            find_frame(bytes@.subrange(start as int, end as int), kind) == find_frame(
                bytes@.subrange(at as int, end as int),
                kind,
            ),
        decreases end - at,
    {
        let ghost run = bytes@.subrange(at as int, end as int);
        if end - at < 10 || bytes[at] == 0 {
            return None;
        }
        let size = read_be32(bytes, at + 4) as usize;
        assert(run.subrange(4, 8) =~= bytes@.subrange(at + 4, at + 8));
        if size > end - at - 10 {
            return None;
        }
        assert(run.subrange(0, 4) =~= bytes@.subrange(at as int, at + 4));
        if is_frame_id(bytes, at, kind) && bytes[at + 9] == 0 {
            assert(run.subrange(10, 10 + size) =~= bytes@.subrange(at + 10, at + 10 + size));
            return Some((at + 10, at + 10 + size));
        }
        assert(run.skip(10 + size) =~= bytes@.subrange(at + 10 + size, end as int));
        at = at + 10 + size;
    }
}

/// The text of the first frame of a kind in the run of frames from `start`
/// to `end`.
fn read_text_frame(bytes: &[u8], start: usize, end: usize, kind: FrameKind) -> (r: Option<String>)
    requires
        start <= end <= bytes.len(),
    ensures
        text_view(r) == (match find_frame(bytes@.subrange(start as int, end as int), kind) {
            Some(body) => body_text(body),
            None => None,
        }),
{
    match locate_frame(bytes, start, end, kind) {
        None => None,
        Some((from, to)) => {
            let ghost body = bytes@.subrange(from as int, to as int);
            if to - from < 3 || bytes[from] != 0x01 || bytes[from + 1] != 0xFF || bytes[from + 2]
                != 0xFE {
                return None;
            }
            let units = vstd::slice::slice_subrange(bytes, from + 3, to);
            assert(units@ =~= body.skip(3));
            decode_utf16le(units)
        },
    }
}

/// Reads the tag that MP3 bytes begin with.
///
/// There is a result where the bytes begin with the header of a version 2.3
/// tag without flags and hold the whole tag. It gives the texts of the first
/// title, artist and album frames, each where the frame is there and written
/// in UTF-16 with the byte order mark of little endian, and where the audio
/// begins.
pub fn read_tag(bytes: &[u8]) -> (r: Option<Mp3Tag>)
    ensures
        match r {
            Some(tag) => {
                &&& tag_body_len(bytes@) == Some(tag.audio_start - 10)
                &&& text_view(tag.title) == tag_text(bytes@, FrameKind::Title)
                &&& text_view(tag.artist) == tag_text(bytes@, FrameKind::Artist)
                &&& text_view(tag.album) == tag_text(bytes@, FrameKind::Album)
            },
            None => tag_body_len(bytes@) is None,
        },
{
    if bytes.len() < 10 || bytes[0] != 0x49 || bytes[1] != 0x44 || bytes[2] != 0x33 || bytes[3]
        != 0x03 || bytes[5] != 0x00 {
        return None;
    }
    if bytes[6] >= 0x80 || bytes[7] >= 0x80 || bytes[8] >= 0x80 || bytes[9] >= 0x80 {
        return None;
    }
    let len: u32 = bytes[6] as u32 * 0x20_0000 + bytes[7] as u32 * 0x4000 + bytes[8] as u32 * 0x80
        + bytes[9] as u32;
    if len as usize > bytes.len() - 10 {
        return None;
    }
    let end: usize = 10 + len as usize;
    let title = read_text_frame(bytes, 10, end, FrameKind::Title);
    let artist = read_text_frame(bytes, 10, end, FrameKind::Artist);
    let album = read_text_frame(bytes, 10, end, FrameKind::Album);
    Some(Mp3Tag { title, artist, album, audio_start: end })
}

/// The first frame of a run is found under its own kind.
proof fn lemma_find_first(kind: FrameKind, body: Seq<u8>, rest: Seq<u8>)
    requires
        body.len() <= u32::MAX,
    ensures
        find_frame(frame(kind, body) + rest, kind) == Some(body),
{
    let run = frame(kind, body) + rest;
    crate::bytes::lemma_be32_round_trip(body.len() as u32);
    assert(run.subrange(4, 8) =~= be32(body.len() as u32));
    assert(run.subrange(0, 4) =~= kind.id());
    assert(run.subrange(10, 10 + body.len() as int) =~= body);
}

/// A search for another kind passes over the first frame of a run.
proof fn lemma_find_next(first: FrameKind, body: Seq<u8>, rest: Seq<u8>, kind: FrameKind)
    requires
        body.len() <= u32::MAX,
        first != kind,
    ensures
        find_frame(frame(first, body) + rest, kind) == find_frame(rest, kind),
{
    let run = frame(first, body) + rest;
    crate::bytes::lemma_be32_round_trip(body.len() as u32);
    assert(run.subrange(4, 8) =~= be32(body.len() as u32));
    assert(run.subrange(0, 4) =~= first.id());
    assert(first.id() != kind.id()) by {
        assert(first.id()[1] != kind.id()[1] || first.id()[0] != kind.id()[0]);
    }
    assert(run.skip(10 + body.len() as int) =~= rest);
}

/// The body of a text frame reads as the text it was made from.
proof fn lemma_body_text(s: Seq<char>)
    ensures
        body_text(text_body(s)) == Some(s),
{
    lemma_utf16le_round_trip(s);
    assert(text_body(s).skip(3) =~= utf16le(s));
}

/// Behind a header that announces a run of frames stand that run and then
/// the audio.
proof fn lemma_tag_layout(run: Seq<u8>, audio: Seq<u8>)
    requires
        run.len() <= MAX_TAG_BODY,
    ensures
        tag_body_len(header(run.len() as u32) + run + audio) == Some(run.len() as int),
        (header(run.len() as u32) + run + audio).subrange(10, 10 + run.len() as int) == run,
        (header(run.len() as u32) + run + audio).skip(10 + run.len() as int) == audio,
{
    let n = run.len() as u32;
    let out = header(n) + run + audio;
    crate::bytes::lemma_syncsafe_round_trip(n);
    assert(header(n).len() == 10);
    assert(out.subrange(6, 10) =~= syncsafe(n));
    assert(out[0] == 0x49 && out[1] == 0x44 && out[2] == 0x33 && out[3] == 0x03 && out[5] == 0x00);
    assert(out.subrange(10, 10 + n) =~= run);
    assert(out.skip(10 + n) =~= audio);
}

/// The frames of a tag hold the bodies of its three texts.
proof fn lemma_frames_found(text: TagText, cover: Seq<u8>)
    requires
        frames(text, cover).len() <= MAX_TAG_BODY,
    ensures
        find_frame(frames(text, cover), FrameKind::Title) == Some(text_body(text.title)),
        find_frame(frames(text, cover), FrameKind::Artist) == Some(text_body(text.artist)),
        find_frame(frames(text, cover), FrameKind::Album) == Some(text_body(text.album)),
{
    let run = frames(text, cover);
    let title = text_body(text.title);
    let artist = text_body(text.artist);
    let album = text_body(text.album);
    let picture = picture_frame(cover);
    lemma_frame_len(FrameKind::Title, title);
    lemma_frame_len(FrameKind::Artist, artist);
    lemma_frame_len(FrameKind::Album, album);
    let after_artist = frame(FrameKind::Album, album) + picture;
    let after_title = frame(FrameKind::Artist, artist) + after_artist;
    assert(run =~= frame(FrameKind::Title, title) + after_title);

    lemma_find_first(FrameKind::Title, title, after_title);

    lemma_find_next(FrameKind::Title, title, after_title, FrameKind::Artist);
    lemma_find_first(FrameKind::Artist, artist, after_artist);

    lemma_find_next(FrameKind::Title, title, after_title, FrameKind::Album);
    lemma_find_next(FrameKind::Artist, artist, after_artist, FrameKind::Album);
    lemma_find_first(FrameKind::Album, album, picture);
}

/// What `tag_mp3` writes reads back as what it was given: the tag holds the
/// title, the artist and the album, and what follows the tag is the audio,
/// byte for byte.
pub proof fn lemma_tagged_mp3_reads_back(text: TagText, cover: Seq<u8>, audio: Seq<u8>)
    requires
        tagged_mp3(text, cover, audio) is Ok,
    ensures
        tag_text(tagged_mp3(text, cover, audio)->Ok_0, FrameKind::Title) == Some(text.title),
        tag_text(tagged_mp3(text, cover, audio)->Ok_0, FrameKind::Artist) == Some(text.artist),
        tag_text(tagged_mp3(text, cover, audio)->Ok_0, FrameKind::Album) == Some(text.album),
        audio_after_tag(tagged_mp3(text, cover, audio)->Ok_0) == Some(audio),
{
    let run = frames(text, cover);
    lemma_tag_layout(run, audio);
    lemma_frames_found(text, cover);
    lemma_body_text(text.title);
    lemma_body_text(text.artist);
    lemma_body_text(text.album);
}

} // verus!
