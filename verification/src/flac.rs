//! FLAC metadata: the comment and picture blocks that are written into a
//! FLAC stream.
//!
//! A stream is the marker `"fLaC"`, a run of metadata blocks and the audio
//! frames. A block is one byte that holds its kind and, in the top bit,
//! whether it is the last one, the length of its body in three bytes, and
//! the body. The first block is always STREAMINFO.

use crate::bytes::{append, be24, be24_value, be32, le32, put_be24, put_be32, put_le32, read_be24};
use crate::error::MetadataInjectionError;
use crate::picture::{media_type, media_type_of};
use crate::text::TagText;
use vstd::prelude::*;
use vstd::string::*;
use vstd::utf8::encode_utf8;

verus! {

/// The kind of the block that holds the stream's parameters.
pub const STREAMINFO: u8 = 0;

/// The kind of the block that holds the comments.
pub const VORBIS_COMMENT: u8 = 4;

/// The kind of a block that holds a picture.
pub const PICTURE: u8 = 6;

/// The longest body that a block can have: 2^24 - 1 bytes.
pub const MAX_BLOCK_BODY: u32 = 0x00FF_FFFF;

/// The four bytes that a stream begins with.
pub open spec fn marker() -> Seq<u8> {
    seq![0x66u8, 0x4Cu8, 0x61u8, 0x43u8]
}

/// The name under which this library writes comment blocks.
pub open spec fn vendor() -> Seq<u8> {
    encode_utf8("w4dj"@)
}

/// One metadata block.
pub open spec fn block(last: bool, kind: u8, body: Seq<u8>) -> Seq<u8>
    recommends
        kind < 0x80,
        body.len() <= MAX_BLOCK_BODY,
{
    seq![
        if last {
            (0x80 + kind) as u8
        } else {
            kind
        },
    ] + be24(body.len() as u32) + body
}

/// One comment: its length, then `NAME=value` in UTF-8.
pub open spec fn comment(name: Seq<char>, value: Seq<char>) -> Seq<u8> {
    le32((encode_utf8(name).len() + 1 + encode_utf8(value).len()) as u32) + encode_utf8(name)
        + seq![0x3Du8] + encode_utf8(value)
}

/// The body of the comment block: the vendor, then the title, the artist
/// and the album.
pub open spec fn comment_body(text: TagText) -> Seq<u8> {
    le32(vendor().len() as u32) + vendor() + le32(3) + comment("TITLE"@, text.title) + comment(
        "ARTIST"@,
        text.artist,
    ) + comment("ALBUM"@, text.album)
}

/// The body of a picture block: picture type 3 (front cover), the media
/// type, an empty description, no dimensions, the image.
pub open spec fn picture_body(image: Seq<u8>) -> Seq<u8> {
    be32(3) + be32(media_type(image).len() as u32) + media_type(image) + be32(0) + be32(0) + be32(
        0,
    ) + be32(0) + be32(0) + be32(image.len() as u32) + image
}

/// The blocks that are added to a stream: the comments and, for a cover that
/// is not empty, the picture. The last of them closes the metadata.
pub open spec fn added_blocks(text: TagText, cover: Seq<u8>) -> Seq<u8> {
    if cover.len() > 0 {
        block(false, VORBIS_COMMENT, comment_body(text)) + block(
            true,
            PICTURE,
            picture_body(cover),
        )
    } else {
        block(true, VORBIS_COMMENT, comment_body(text))
    }
}

/// Whether the added blocks fit the three bytes of a block's length.
pub open spec fn added_blocks_fit(text: TagText, cover: Seq<u8>) -> bool {
    comment_body(text).len() <= MAX_BLOCK_BODY && (cover.len() > 0 ==> picture_body(cover).len()
        <= MAX_BLOCK_BODY)
}

/// The metadata blocks that `rest` begins with, as they are kept, and the
/// audio frames behind them. Every block is kept as it is but for its
/// last-block bit, which is cleared; a comment block is left out. There is
/// no result where the bytes end before the last block does.
pub open spec fn kept_blocks(rest: Seq<u8>) -> Option<(Seq<u8>, Seq<u8>)>
    decreases rest.len(),
{
    if rest.len() < 4 {
        None
    } else {
        let size = be24_value(rest.subrange(1, 4));
        if 4 + size > rest.len() {
            None
        } else {
            let kind = (rest[0] % 0x80) as u8;
            let this = if kind == VORBIS_COMMENT {
                Seq::empty()
            } else {
                seq![kind] + rest.subrange(1, 4 + size)
            };
            if rest[0] >= 0x80 {
                Some((this, rest.skip(4 + size)))
            } else {
                match kept_blocks(rest.skip(4 + size)) {
                    Some((kept, frames)) => Some((this + kept, frames)),
                    None => None,
                }
            }
        }
    }
}

/// A FLAC stream with the track's comments and cover written into it.
///
/// The stream has to begin with the marker and a STREAMINFO block, and its
/// metadata has to be whole. The result keeps the blocks of the stream,
/// without its comment block, puts the new blocks behind them and leaves
/// the audio frames as they are.
pub open spec fn tagged_flac(text: TagText, cover: Seq<u8>, audio: Seq<u8>) -> Result<
    Seq<u8>,
    MetadataInjectionError,
> {
    if audio.len() < 4 || audio.subrange(0, 4) != marker() {
        Err(MetadataInjectionError::MissingStreamMarker)
    } else if audio.len() < 5 || audio[4] % 0x80 != STREAMINFO {
        Err(MetadataInjectionError::MissingStreamInfo)
    } else {
        match kept_blocks(audio.skip(4)) {
            None => Err(MetadataInjectionError::TruncatedMetadata),
            Some((kept, frames)) => if !added_blocks_fit(text, cover) {
                Err(MetadataInjectionError::TagTooLarge)
            } else {
                Ok(marker() + kept + added_blocks(text, cover) + frames)
            },
        }
    }
}

/// Appends one metadata block.
fn put_block(out: &mut Vec<u8>, last: bool, kind: u8, body: &[u8])
    requires
        kind < 0x80,
        body.len() <= MAX_BLOCK_BODY,
    ensures
        final(out)@ == old(out)@ + block(last, kind, body@),
{
    if last {
        out.push(0x80 + kind);
    } else {
        out.push(kind);
    }
    put_be24(out, body.len() as u32);
    append(out, body);
    assert(out@ =~= old(out)@ + block(last, kind, body@));
}

/// Appends one comment unless its text alone is longer than a block may be.
fn put_comment(out: &mut Vec<u8>, name: &str, value: &str) -> (fits: bool)
    requires
        encode_utf8(name@).len() < 0x100,
    ensures
        fits == (encode_utf8(value@).len() <= MAX_BLOCK_BODY),
        fits ==> final(out)@ == old(out)@ + comment(name@, value@),
        !fits ==> final(out)@ == old(out)@,
{
    let name_bytes = name.as_bytes();
    let value_bytes = value.as_bytes();
    if value_bytes.len() > MAX_BLOCK_BODY as usize {
        return false;
    }
    put_le32(out, (name_bytes.len() + 1 + value_bytes.len()) as u32);
    append(out, name_bytes);
    out.push(0x3D);
    append(out, value_bytes);
    assert(out@ =~= old(out)@ + comment(name@, value@));
    true
}

/// A comment is at least as long as its value.
proof fn lemma_comment_len(name: Seq<char>, value: Seq<char>)
    ensures
        comment(name, value).len() == 5 + encode_utf8(name).len() + encode_utf8(value).len(),
{
}

/// The body of the comment block, or nothing where it is longer than a
/// block may be.
fn make_comment_body(title: &str, artist: &str, album: &str) -> (r: Option<Vec<u8>>)
    ensures
        match r {
            Some(body) => body@ == comment_body(
                TagText { title: title@, artist: artist@, album: album@ },
            ) && body@.len() <= MAX_BLOCK_BODY,
            None => comment_body(TagText { title: title@, artist: artist@, album: album@ }).len()
                > MAX_BLOCK_BODY,
        },
{
    let ghost text = TagText { title: title@, artist: artist@, album: album@ };
    proof {
        reveal_strlit("TITLE");
        reveal_strlit("ARTIST");
        reveal_strlit("ALBUM");
        reveal_strlit("w4dj");
        lemma_ascii_len("TITLE"@);
        lemma_ascii_len("ARTIST"@);
        lemma_ascii_len("ALBUM"@);
        lemma_ascii_len("w4dj"@);
        lemma_comment_len("TITLE"@, title@);
        lemma_comment_len("ARTIST"@, artist@);
        lemma_comment_len("ALBUM"@, album@);
    }
    let mut body: Vec<u8> = Vec::new();
    let vendor_bytes = "w4dj".as_bytes();
    put_le32(&mut body, vendor_bytes.len() as u32);
    append(&mut body, vendor_bytes);
    put_le32(&mut body, 3);
    if !put_comment(&mut body, "TITLE", title) {
        return None;
    }
    if !put_comment(&mut body, "ARTIST", artist) {
        return None;
    }
    if !put_comment(&mut body, "ALBUM", album) {
        return None;
    }
    assert(body@ =~= comment_body(text));
    if body.len() > MAX_BLOCK_BODY as usize {
        return None;
    }
    Some(body)
}

/// A text of ASCII characters has one byte for each character.
proof fn lemma_ascii_len(s: Seq<char>)
    requires
        vstd::utf8::is_ascii_chars(s),
    ensures
        encode_utf8(s).len() == s.len(),
{
    vstd::utf8::is_ascii_chars_encode_utf8(s);
}

/// The body of the picture block, or nothing where it is longer than a
/// block may be.
fn make_picture_body(image: &[u8]) -> (r: Option<Vec<u8>>)
    ensures
        match r {
            Some(body) => body@ == picture_body(image@) && body@.len() <= MAX_BLOCK_BODY,
            None => picture_body(image@).len() > MAX_BLOCK_BODY,
        },
{
    if image.len() > MAX_BLOCK_BODY as usize {
        return None;
    }
    let kind = media_type_of(image);
    if kind.len() > MAX_BLOCK_BODY as usize {
        return None;
    }
    let mut body: Vec<u8> = Vec::new();
    put_be32(&mut body, 3);
    put_be32(&mut body, kind.len() as u32);
    append(&mut body, kind);
    put_be32(&mut body, 0);
    put_be32(&mut body, 0);
    put_be32(&mut body, 0);
    put_be32(&mut body, 0);
    put_be32(&mut body, 0);
    put_be32(&mut body, image.len() as u32);
    append(&mut body, image);
    assert(body@ =~= picture_body(image@));
    if body.len() > MAX_BLOCK_BODY as usize {
        return None;
    }
    Some(body)
}

/// The blocks that are added to a stream, or nothing where one of them is
/// longer than a block may be.
fn make_added_blocks(title: &str, artist: &str, album: &str, cover: &[u8]) -> (r: Option<Vec<u8>>)
    ensures
        match r {
            Some(blocks) => added_blocks_fit(
                TagText { title: title@, artist: artist@, album: album@ },
                cover@,
            ) && blocks@ == added_blocks(
                TagText { title: title@, artist: artist@, album: album@ },
                cover@,
            ),
            None => !added_blocks_fit(
                TagText { title: title@, artist: artist@, album: album@ },
                cover@,
            ),
        },
{
    let mut blocks: Vec<u8> = Vec::new();
    let comments = match make_comment_body(title, artist, album) {
        Some(body) => body,
        None => {
            return None;
        },
    };
    if cover.len() > 0 {
        let picture = match make_picture_body(cover) {
            Some(body) => body,
            None => {
                return None;
            },
        };
        put_block(&mut blocks, false, VORBIS_COMMENT, comments.as_slice());
        put_block(&mut blocks, true, PICTURE, picture.as_slice());
    } else {
        put_block(&mut blocks, true, VORBIS_COMMENT, comments.as_slice());
    }
    Some(blocks)
}

/// The block at `at` as it is kept: nothing for a comment block, and else
/// the block with its last-block bit cleared.
spec fn kept_block(stream: Seq<u8>, at: int, size: int) -> Seq<u8> {
    if stream[at] % 0x80 == VORBIS_COMMENT {
        Seq::empty()
    } else {
        seq![(stream[at] % 0x80) as u8] + stream.subrange(at + 1, at + 4 + size)
    }
}

/// The reading of the blocks from `at` on, by the block at `at` and the
/// reading of what follows it.
proof fn lemma_block_at(stream: Seq<u8>, at: int)
    requires
        0 <= at <= stream.len(),
    ensures
        at + 4 > stream.len() ==> kept_blocks(stream.skip(at)) is None,
        at + 4 <= stream.len() ==> ({
            let size = be24_value(stream.subrange(at + 1, at + 4));
            if at + 4 + size > stream.len() {
                kept_blocks(stream.skip(at)) is None
            } else if stream[at] >= 0x80 {
                kept_blocks(stream.skip(at)) == Some(
                    (kept_block(stream, at, size), stream.skip(at + 4 + size)),
                )
            } else {
                kept_blocks(stream.skip(at)) == (match kept_blocks(stream.skip(at + 4 + size)) {
                    Some((more, frames)) => Some((kept_block(stream, at, size) + more, frames)),
                    None => None,
                })
            }
        }),
{
    let tail = stream.skip(at);
    if at + 4 <= stream.len() {
        let size = be24_value(stream.subrange(at + 1, at + 4));
        assert(tail.subrange(1, 4) =~= stream.subrange(at + 1, at + 4));
        if at + 4 + size <= stream.len() {
            assert(tail.subrange(1, 4 + size) =~= stream.subrange(at + 1, at + 4 + size));
            assert(tail.skip(4 + size) =~= stream.skip(at + 4 + size));
        }
    }
}

/// Joins what is known of the blocks before `at` with the block at `at`.
proof fn lemma_kept_step(
    whole: Option<(Seq<u8>, Seq<u8>)>,
    here: Option<(Seq<u8>, Seq<u8>)>,
    after: Option<(Seq<u8>, Seq<u8>)>,
    kept: Seq<u8>,
    this: Seq<u8>,
)
    requires
        here == (match after {
            Some((more, frames)) => Some((this + more, frames)),
            None => None,
        }),
        whole == (match here {
            Some((more, frames)) => Some((kept + more, frames)),
            None => None,
        }),
    ensures
        whole == (match after {
            Some((more, frames)) => Some((kept + this + more, frames)),
            None => None,
        }),
{
    match after {
        Some((more, frames)) => {
            assert(kept + (this + more) =~= kept + this + more);
        },
        None => {},
    }
}

/// Appends the block at `at`, as it is kept, to `kept`.
fn keep_block(kept: &mut Vec<u8>, stream: &[u8], at: usize, size: usize)
    requires
        at + 4 + size <= stream.len(),
    ensures
        final(kept)@ == old(kept)@ + kept_block(stream@, at as int, size as int),
{
    let kind: u8 = stream[at] % 0x80;
    if kind != VORBIS_COMMENT {
        kept.push(kind);
        append(kept, vstd::slice::slice_subrange(stream, at + 1, at + 4 + size));
    }
    assert(kept@ =~= old(kept)@ + kept_block(stream@, at as int, size as int));
}

/// The metadata blocks of a stream as they are kept, and where its audio
/// frames begin.
fn keep_blocks(stream: &[u8]) -> (r: Option<(Vec<u8>, usize)>)
    requires
        stream.len() >= 4,
    ensures
        match r {
            Some((kept, frames_at)) => 4 <= frames_at <= stream.len() && kept_blocks(
                stream@.skip(4),
            ) == Some((kept@, stream@.skip(frames_at as int))),
            None => kept_blocks(stream@.skip(4)) is None,
        },
{
    let mut kept: Vec<u8> = Vec::new();
    let mut at: usize = 4;
    proof {
        match kept_blocks(stream@.skip(4)) {
            Some((more, frames)) => {
                assert(Seq::<u8>::empty() + more =~= more);
            },
            None => {},
        }
    }
    loop
        invariant
            4 <= at <= stream.len(),
            kept_blocks(stream@.skip(4)) == (match kept_blocks(stream@.skip(at as int)) {
                Some((more, frames)) => Some((kept@ + more, frames)),
                None => None,
            }),
        decreases stream.len() - at,
    {
        proof {
            lemma_block_at(stream@, at as int);
        }
        if stream.len() - at < 4 {
            return None;
        }
        let size = read_be24(stream, at + 1) as usize;
        if size > stream.len() - at - 4 {
            return None;
        }
        let ghost before = kept@;
        keep_block(&mut kept, stream, at, size);
        if stream[at] >= 0x80 {
            return Some((kept, at + 4 + size));
        }
        proof {
            lemma_kept_step(
                kept_blocks(stream@.skip(4)),
                kept_blocks(stream@.skip(at as int)),
                kept_blocks(stream@.skip(at + 4 + size)),
                before,
                kept_block(stream@, at as int, size as int),
            );
        }
        at = at + 4 + size;
    }
}

/// Writes the comments and the cover of a track into its FLAC stream.
///
/// The stream keeps its marker, its blocks (the comment block left out,
/// the last-block bit cleared) and its audio frames; the new comment block
/// and, for a cover that is not empty, the picture block stand between
/// them. A stream without marker or STREAMINFO or with cut-off metadata is
/// refused, and so is a block that would be longer than 2^24 - 1 bytes.
pub fn tag_flac(title: &str, artist: &str, album: &str, cover: &[u8], audio: &[u8]) -> (r: Result<
    Vec<u8>,
    MetadataInjectionError,
>)
    ensures
        match r {
            Ok(out) => tagged_flac(
                TagText { title: title@, artist: artist@, album: album@ },
                cover@,
                audio@,
            ) == Ok::<Seq<u8>, MetadataInjectionError>(out@),
            Err(e) => tagged_flac(
                TagText { title: title@, artist: artist@, album: album@ },
                cover@,
                audio@,
            ) == Err::<Seq<u8>, MetadataInjectionError>(e),
        },
{
    if audio.len() < 4 || audio[0] != 0x66 || audio[1] != 0x4C || audio[2] != 0x61 || audio[3]
        != 0x43 {
        assert(audio@.len() >= 4 ==> !(audio@.subrange(0, 4) =~= marker()));
        return Err(MetadataInjectionError::MissingStreamMarker);
    }
    assert(audio@.subrange(0, 4) =~= marker());
    if audio.len() < 5 || audio[4] % 0x80 != STREAMINFO {
        return Err(MetadataInjectionError::MissingStreamInfo);
    }
    let (kept, frames_at) = match keep_blocks(audio) {
        Some(found) => found,
        None => {
            return Err(MetadataInjectionError::TruncatedMetadata);
        },
    };
    let added = match make_added_blocks(title, artist, album, cover) {
        Some(blocks) => blocks,
        None => {
            return Err(MetadataInjectionError::TagTooLarge);
        },
    };
    let mut out: Vec<u8> = Vec::new();
    out.push(0x66);
    out.push(0x4C);
    out.push(0x61);
    out.push(0x43);
    assert(out@ =~= marker());
    append(&mut out, kept.as_slice());
    append(&mut out, added.as_slice());
    let frames = vstd::slice::slice_subrange(audio, frames_at, audio.len());
    assert(frames@ =~= audio@.skip(frames_at as int));
    append(&mut out, frames);
    Ok(out)
}

/// The metadata blocks that `rest` begins with, as they are kept.
spec fn blocks_kept(rest: Seq<u8>) -> Seq<u8> {
    match kept_blocks(rest) {
        Some((kept, _)) => kept,
        None => Seq::empty(),
    }
}

/// What stands behind the metadata blocks that `rest` begins with.
spec fn frames_behind(rest: Seq<u8>) -> Seq<u8> {
    match kept_blocks(rest) {
        Some((_, frames)) => frames,
        None => Seq::empty(),
    }
}

/// The audio frames of a stream: what stands behind its marker and its
/// metadata blocks.
pub open spec fn audio_frames(stream: Seq<u8>) -> Option<Seq<u8>> {
    if stream.len() >= 4 && stream.subrange(0, 4) == marker() {
        match kept_blocks(stream.skip(4)) {
            Some((_, frames)) => Some(frames),
            None => None,
        }
    } else {
        None
    }
}

/// A block that is not the last one, in front of other bytes, is read as
/// itself, and the reading goes on behind it.
proof fn lemma_read_block(kind: u8, body: Seq<u8>, tail: Seq<u8>)
    requires
        kind < 0x80,
        body.len() <= MAX_BLOCK_BODY,
    ensures
        kept_blocks(block(false, kind, body) + tail) == (match kept_blocks(tail) {
            Some((kept, frames)) => Some(
                (
                    if kind == VORBIS_COMMENT {
                        kept
                    } else {
                        block(false, kind, body) + kept
                    },
                    frames,
                ),
            ),
            None => None,
        }),
{
    let this = block(false, kind, body);
    let rest = this + tail;
    crate::bytes::lemma_be24_round_trip(body.len() as u32);
    assert(rest.subrange(1, 4) =~= be24(body.len() as u32));
    assert(rest.skip(4 + body.len() as int) =~= tail);
    assert(seq![kind] + rest.subrange(1, 4 + body.len() as int) =~= this);
    match kept_blocks(tail) {
        Some((kept, frames)) => {
            assert(Seq::<u8>::empty() + kept =~= kept);
        },
        None => {},
    }
}

/// The last block, in front of the audio frames, is read as itself, and
/// the frames are what stands behind it.
proof fn lemma_read_last_block(kind: u8, body: Seq<u8>, frames: Seq<u8>)
    requires
        kind < 0x80,
        body.len() <= MAX_BLOCK_BODY,
    ensures
        kept_blocks(block(true, kind, body) + frames) is Some,
        frames_behind(block(true, kind, body) + frames) == frames,
{
    let rest = block(true, kind, body) + frames;
    crate::bytes::lemma_be24_round_trip(body.len() as u32);
    assert(rest.subrange(1, 4) =~= be24(body.len() as u32));
    assert(rest.skip(4 + body.len() as int) =~= frames);
}

/// Blocks that were kept, in front of other blocks, are read through to
/// those blocks: the audio frames of the whole are those of the other
/// blocks.
proof fn lemma_read_kept(rest: Seq<u8>, tail: Seq<u8>)
    requires
        kept_blocks(rest) is Some,
        kept_blocks(tail) is Some,
    ensures
        kept_blocks(blocks_kept(rest) + tail) is Some,
        frames_behind(blocks_kept(rest) + tail) == frames_behind(tail),
    decreases rest.len(),
{
    let size = be24_value(rest.subrange(1, 4));
    let kind = (rest[0] % 0x80) as u8;
    let body = rest.subrange(4, 4 + size);
    let kept = blocks_kept(rest);
    let this = if kind == VORBIS_COMMENT {
        Seq::<u8>::empty()
    } else {
        seq![kind] + rest.subrange(1, 4 + size)
    };
    assert(size == body.len());
    assert(size <= MAX_BLOCK_BODY);
    if kind != VORBIS_COMMENT {
        crate::bytes::lemma_be24_of_value(rest.subrange(1, 4));
        assert(this =~= block(false, kind, body));
    }
    if rest[0] >= 0x80 {
        assert(kept == this);
        if kind == VORBIS_COMMENT {
            assert(kept + tail =~= tail);
        } else {
            lemma_read_block(kind, body, tail);
        }
    } else {
        let after = rest.skip(4 + size);
        let more = blocks_kept(after);
        assert(kept == this + more);
        lemma_read_kept(after, tail);
        if kind == VORBIS_COMMENT {
            assert(kept + tail =~= more + tail);
        } else {
            assert(kept + tail =~= block(false, kind, body) + (more + tail));
            lemma_read_block(kind, body, more + tail);
        }
    }
}

/// The added blocks, in front of audio frames, are read through to those
/// frames.
proof fn lemma_read_added(text: TagText, cover: Seq<u8>, frames: Seq<u8>)
    requires
        added_blocks_fit(text, cover),
    ensures
        kept_blocks(added_blocks(text, cover) + frames) is Some,
        frames_behind(added_blocks(text, cover) + frames) == frames,
{
    let comments = comment_body(text);
    if cover.len() > 0 {
        let picture = block(true, PICTURE, picture_body(cover));
        lemma_read_last_block(PICTURE, picture_body(cover), frames);
        lemma_read_block(VORBIS_COMMENT, comments, picture + frames);
        assert(added_blocks(text, cover) + frames =~= block(false, VORBIS_COMMENT, comments) + (
        picture + frames));
    } else {
        lemma_read_last_block(VORBIS_COMMENT, comments, frames);
    }
}

/// A stream put together from its marker, kept blocks, blocks that are
/// read through to the frames, and the frames has those frames for its
/// audio.
proof fn lemma_read_stream(rest: Seq<u8>, added: Seq<u8>, frames: Seq<u8>)
    requires
        kept_blocks(rest) is Some,
        rest.len() > 0 && rest[0] % 0x80 == STREAMINFO,
        kept_blocks(added + frames) is Some,
        frames_behind(added + frames) == frames,
    ensures
        audio_frames(marker() + blocks_kept(rest) + added + frames) == Some(frames),
        (marker() + blocks_kept(rest) + added + frames)[4] % 0x80 == STREAMINFO,
{
    let kept = blocks_kept(rest);
    let out = marker() + kept + added + frames;
    assert(out.subrange(0, 4) =~= marker());
    assert(out.skip(4) =~= kept + (added + frames));
    lemma_read_kept(rest, added + frames);
    lemma_first_kept(rest);
    assert(out[4] == kept[0]);
}

/// What `tag_flac` writes is a stream with the audio frames of the stream
/// it was given, byte for byte, and it still begins with STREAMINFO.
pub proof fn lemma_tagged_flac_keeps_audio(text: TagText, cover: Seq<u8>, audio: Seq<u8>)
    requires
        tagged_flac(text, cover, audio) is Ok,
    ensures
        audio_frames(audio) is Some,
        audio_frames(tagged_flac(text, cover, audio)->Ok_0) == audio_frames(audio),
        tagged_flac(text, cover, audio)->Ok_0[4] % 0x80 == STREAMINFO,
{
    let rest = audio.skip(4);
    let frames = frames_behind(rest);
    lemma_read_added(text, cover, frames);
    lemma_read_stream(rest, added_blocks(text, cover), frames);
}

/// Where a stream begins with a STREAMINFO block, the kept blocks begin
/// with it.
proof fn lemma_first_kept(rest: Seq<u8>)
    requires
        kept_blocks(rest) is Some,
        rest[0] % 0x80 == STREAMINFO,
    ensures
        blocks_kept(rest).len() > 0,
        blocks_kept(rest)[0] == STREAMINFO,
{
}

} // verus!
