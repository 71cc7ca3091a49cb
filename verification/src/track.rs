//! What a decoded container holds: the audio, the cover and the track's
//! metadata; and the writing of that metadata into the audio.

use crate::error::MetadataInjectionError;
use crate::flac::{tag_flac, tagged_flac};
use crate::id3::{
    audio_after_tag, lemma_tagged_mp3_reads_back, tag_mp3, tag_text, tagged_mp3, FrameKind,
};
use crate::text::{lowercase, same_text, to_lowercase, TagText};
use vstd::prelude::*;
use vstd::string::*;

verus! {

/// One of the artists of a track.
#[derive(Clone, Debug, PartialEq, Eq)]
pub struct Artist {
    pub name: String,
    pub id: u64,
}

/// The metadata that a container holds of its track.
#[derive(Clone, Debug, PartialEq, Eq)]
pub struct TrackMetadata {
    pub title: String,
    pub id: u64,
    pub album: String,
    /// The artists in the order of the container; the first is the primary
    /// one.
    pub artists: Vec<Artist>,
    pub bitrate: u64,
    pub duration: u64,
    pub mv_id: Option<u64>,
    pub alias: Option<Vec<String>>,
}

/// A decoded container.
#[derive(Clone, Debug, PartialEq, Eq)]
pub struct DecodedTrack {
    /// The audio as the container held it.
    pub audio: Vec<u8>,
    /// The format of the audio by the container's metadata, such as `flac`
    /// or `mp3`. It may be empty.
    pub native_format: String,
    /// The cover image. It may be empty.
    pub cover: Vec<u8>,
    pub metadata: TrackMetadata,
}

/// The container formats that metadata is written into, and the rest.
#[derive(Clone, Copy, Debug, PartialEq, Eq, Structural)]
pub enum ContainerKind {
    Mp3,
    Flac,
    /// Any other format: the audio is left as it is.
    Other,
}

impl TrackMetadata {
    /// The name of the first artist, and the empty text where there is no
    /// artist.
    pub open spec fn primary_artist(&self) -> Seq<char> {
        if self.artists@.len() > 0 {
            self.artists@[0].name@
        } else {
            Seq::empty()
        }
    }

    /// The texts that are written into a tag: title, primary artist, album.
    pub open spec fn tag_text(&self) -> TagText {
        TagText { title: self.title@, artist: self.primary_artist(), album: self.album@ }
    }

    /// The name of the first artist, and the empty text where there is no
    /// artist.
    pub fn primary_artist_name(&self) -> (name: &str)
        ensures
            name@ == self.primary_artist(),
    {
        if self.artists.len() > 0 {
            self.artists[0].name.as_str()
        } else {
            proof {
                reveal_strlit("");
            }
            ""
        }
    }
}

/// The format that a decoded track is written in: the lowercase form of the
/// container's format, and `flac` where the container names none.
pub open spec fn target_format(native_format: Seq<char>) -> Seq<char> {
    if native_format.len() == 0 {
        "flac"@
    } else {
        lowercase(native_format)
    }
}

/// The container kind that a format names.
pub open spec fn container_kind(format: Seq<char>) -> ContainerKind {
    if format == "mp3"@ {
        ContainerKind::Mp3
    } else if format == "flac"@ {
        ContainerKind::Flac
    } else {
        ContainerKind::Other
    }
}

/// The bytes that a decoded track is written as: MP3 audio with an ID3 tag
/// in front, a FLAC stream with comment and picture blocks in it, and any
/// other audio unchanged.
pub open spec fn injected(kind: ContainerKind, text: TagText, cover: Seq<u8>, audio: Seq<u8>)
    -> Result<Seq<u8>, MetadataInjectionError> {
    match kind {
        ContainerKind::Mp3 => tagged_mp3(text, cover, audio),
        ContainerKind::Flac => tagged_flac(text, cover, audio),
        ContainerKind::Other => Ok(audio),
    }
}

/// The format that a decoded track is written in.
pub fn target_format_of(native_format: &str) -> (format: String)
    ensures
        format@ == target_format(native_format@),
{
    if native_format.is_empty() {
        String::from_str("flac")
    } else {
        to_lowercase(native_format)
    }
}

/// The container kind that a format names: `mp3`, `flac`, or another.
pub fn container_kind_of(format: &str) -> (kind: ContainerKind)
    ensures
        kind == container_kind(format@),
{
    if same_text(format, "mp3") {
        ContainerKind::Mp3
    } else if same_text(format, "flac") {
        ContainerKind::Flac
    } else {
        ContainerKind::Other
    }
}

/// Writes the metadata of a track and its cover into its audio.
///
/// For MP3 the result is the audio behind an ID3v2.3 tag, for FLAC the
/// stream with a comment block and a picture block added; both carry the
/// title, the primary artist and the album, and the cover where it is not
/// empty. Audio of another kind comes back as it is. Audio that is no
/// container of the kind it is said to be is refused, and so is a tag too
/// large for its format.
pub fn inject_metadata(
    kind: ContainerKind,
    metadata: &TrackMetadata,
    cover: &[u8],
    audio: Vec<u8>,
) -> (r: Result<Vec<u8>, MetadataInjectionError>)
    ensures
        match r {
            Ok(out) => injected(kind, metadata.tag_text(), cover@, audio@) == Ok::<
                Seq<u8>,
                MetadataInjectionError,
            >(out@),
            Err(e) => injected(kind, metadata.tag_text(), cover@, audio@) == Err::<
                Seq<u8>,
                MetadataInjectionError,
            >(e),
        },
{
    match kind {
        ContainerKind::Mp3 => tag_mp3(
            metadata.title.as_str(),
            metadata.primary_artist_name(),
            metadata.album.as_str(),
            cover,
            audio.as_slice(),
        ),
        ContainerKind::Flac => tag_flac(
            metadata.title.as_str(),
            metadata.primary_artist_name(),
            metadata.album.as_str(),
            cover,
            audio.as_slice(),
        ),
        ContainerKind::Other => Ok(audio),
    }
}

/// An MP3 that the injector made reads back as what it was made from: its
/// tag gives the title, the primary artist and the album of the track, and
/// behind the tag stands the audio, byte for byte.
pub proof fn lemma_injected_mp3_reads_back(
    metadata: TrackMetadata,
    cover: Seq<u8>,
    audio: Seq<u8>,
)
    requires
        injected(ContainerKind::Mp3, metadata.tag_text(), cover, audio) is Ok,
    ensures
        ({
            let out = injected(ContainerKind::Mp3, metadata.tag_text(), cover, audio)->Ok_0;
            &&& tag_text(out, FrameKind::Title) == Some(metadata.title@)
            &&& tag_text(out, FrameKind::Artist) == Some(metadata.primary_artist())
            &&& tag_text(out, FrameKind::Album) == Some(metadata.album@)
            &&& audio_after_tag(out) == Some(audio)
        }),
{
    lemma_tagged_mp3_reads_back(metadata.tag_text(), cover, audio);
}

} // verus!
