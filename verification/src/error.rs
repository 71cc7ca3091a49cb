//! What can go wrong for one track.

use vstd::prelude::*;

verus! {

/// Why a container could not be decoded.
#[derive(Clone, Copy, Debug, PartialEq, Eq, Structural)]
pub enum DecodeError {
    /// The file could not be read.
    Unreadable,
    /// The file is not a container of the expected form.
    Malformed,
    /// The audio could not be taken out of the container.
    Audio,
    /// The track's metadata could not be taken out of the container.
    Metadata,
    /// The cover image could not be taken out of the container.
    Cover,
}

/// Why metadata could not be written into decoded audio.
#[derive(Clone, Copy, Debug, PartialEq, Eq, Structural)]
pub enum MetadataInjectionError {
    /// The audio claimed to be MP3 does not begin with a frame sync.
    MissingFrameSync,
    /// The audio claimed to be FLAC does not begin with the stream marker.
    MissingStreamMarker,
    /// The first metadata block of the FLAC stream is not STREAMINFO.
    MissingStreamInfo,
    /// The metadata blocks of the FLAC stream end before the last of them.
    TruncatedMetadata,
    /// The tag is larger than its format can say.
    TagTooLarge,
}

/// Why the transcoder gave no output.
#[derive(Clone, Copy, Debug, PartialEq, Eq, Structural)]
pub enum TranscodeError {
    /// The transcoder could not be found or started.
    Launch,
    /// The transcoder ran and reported failure.
    ExitStatus,
}

/// Why a file could not be brought into the destination.
#[derive(Clone, Copy, Debug, PartialEq, Eq, Structural)]
pub enum CopyError {
    /// The source path names no file.
    InvalidSourceName,
    /// The file could not be copied.
    Copy,
    /// The file could not be written.
    Write,
    /// The intermediate file could not be removed.
    Remove,
}

/// Why one track was not synchronised.
#[derive(Clone, Copy, Debug, PartialEq, Eq, Structural)]
pub enum TrackError {
    Decode(DecodeError),
    MetadataInjection(MetadataInjectionError),
    Transcode(TranscodeError),
    Copy(CopyError),
}

} // verus!
