//! Fingerprints of a music library: for each track its size and where it
//! lies, found again by the stem of its file name.

use crate::text::{lowercase, same_text, text_view, to_lowercase};
use vstd::hash_map::StringHashMap;
use vstd::prelude::*;
use vstd::string::*;

verus! {

/// The kinds of file that count as tracks.
#[derive(Clone, Copy, Debug, PartialEq, Eq, Structural)]
pub enum TrackKind {
    Mp3,
    Flac,
    /// The encrypted container format.
    Ncm,
}

/// One entry of a directory walk, as far as fingerprinting reads it.
#[derive(Clone, Debug, PartialEq, Eq)]
pub struct ScanEntry {
    /// Whether the entry is a regular file.
    pub is_file: bool,
    /// The path of the entry.
    pub path: String,
    /// The last component of the path, where it has one.
    pub file_name: Option<String>,
    /// The file name without its extension, where that is readable text.
    pub stem: Option<String>,
    /// The extension of the file name, where it has one that is readable
    /// text.
    pub extension: Option<String>,
    /// The size of the file in bytes, where it could be read.
    pub size: Option<u64>,
}

/// The fingerprint of one track.
#[derive(Debug, PartialEq, Eq)]
pub struct Track {
    /// The identity of the track: its file name without the extension.
    pub stem: String,
    /// The size of the file in bytes.
    pub size: u64,
    /// The path of the file.
    pub path: String,
    /// The file name, extension included, where the path has one.
    pub file_name: Option<String>,
    /// The kind of file by its extension.
    pub kind: TrackKind,
}

/// A track as contracts speak of it.
pub struct TrackView {
    pub stem: Seq<char>,
    pub size: u64,
    pub path: Seq<char>,
    pub file_name: Option<Seq<char>>,
    pub kind: TrackKind,
}

impl View for Track {
    type V = TrackView;

    open spec fn view(&self) -> TrackView {
        TrackView {
            stem: self.stem@,
            size: self.size,
            path: self.path@,
            file_name: text_view(self.file_name),
            kind: self.kind,
        }
    }
}

impl Clone for Track {
    fn clone(&self) -> (r: Self)
        ensures
            r@ == self@,
    {
        let file_name = match &self.file_name {
            Some(name) => Some(name.clone()),
            None => None,
        };
        Track {
            stem: self.stem.clone(),
            size: self.size,
            path: self.path.clone(),
            file_name,
            kind: self.kind,
        }
    }
}

/// The kind of track that an extension in lowercase names.
pub open spec fn track_kind(extension: Seq<char>) -> Option<TrackKind> {
    if extension == "mp3"@ {
        Some(TrackKind::Mp3)
    } else if extension == "flac"@ {
        Some(TrackKind::Flac)
    } else if extension == "ncm"@ {
        Some(TrackKind::Ncm)
    } else {
        None
    }
}

/// The kind of track that an extension in lowercase names: `mp3`, `flac`
/// or `ncm`, and nothing for any other.
pub fn track_kind_of(extension: &str) -> (kind: Option<TrackKind>)
    ensures
        kind == track_kind(extension@),
{
    if same_text(extension, "mp3") {
        Some(TrackKind::Mp3)
    } else if same_text(extension, "flac") {
        Some(TrackKind::Flac)
    } else if same_text(extension, "ncm") {
        Some(TrackKind::Ncm)
    } else {
        None
    }
}

/// The fingerprint that an entry of a walk gives. Only a regular file whose
/// extension, whatever its case, is that of a track gives one. A stem that
/// could not be read is the empty text, a size that could not be read is 0.
pub open spec fn fingerprint(entry: ScanEntry) -> Option<TrackView> {
    if entry.is_file && entry.extension is Some && track_kind(
        lowercase(entry.extension->Some_0@),
    ) is Some {
        Some(
            TrackView {
                stem: match entry.stem {
                    Some(stem) => stem@,
                    None => Seq::empty(),
                },
                size: match entry.size {
                    Some(size) => size,
                    None => 0,
                },
                path: entry.path@,
                file_name: text_view(entry.file_name),
                kind: track_kind(lowercase(entry.extension->Some_0@))->Some_0,
            },
        )
    } else {
        None
    }
}

/// The fingerprint that an entry of a walk gives, if it is a track.
pub fn fingerprint_of(entry: &ScanEntry) -> (r: Option<Track>)
    ensures
        match r {
            Some(track) => fingerprint(*entry) == Some(track@),
            None => fingerprint(*entry) is None,
        },
{
    if !entry.is_file {
        return None;
    }
    let kind = match &entry.extension {
        Some(extension) => {
            let lower = to_lowercase(extension.as_str());
            match track_kind_of(lower.as_str()) {
                Some(kind) => kind,
                None => {
                    return None;
                },
            }
        },
        None => {
            return None;
        },
    };
    let stem = match &entry.stem {
        Some(stem) => stem.clone(),
        None => String::new(),
    };
    let size: u64 = match entry.size {
        Some(size) => size,
        None => 0,
    };
    let file_name = match &entry.file_name {
        Some(name) => Some(name.clone()),
        None => None,
    };
    Some(Track { stem, size, path: entry.path.clone(), file_name, kind })
}

/// The fingerprints of one library: for each stem the track that was
/// recorded under it last.
pub struct FingerprintMap {
    /// The tracks, each stem once.
    tracks: Vec<Track>,
    /// For each stem, where its track stands in `tracks`.
    index: StringHashMap<usize>,
}

/// Whether a list holds the tracks of a map: every track of the list stands
/// in the map under its stem, every stem of the map has its track in the
/// list, and the list is as long as the map is large.
pub open spec fn lists(list: Seq<Track>, map: Map<Seq<char>, TrackView>) -> bool {
    &&& map.dom().finite()
    &&& list.len() == map.dom().len()
    &&& forall|i: int|
        0 <= i < list.len() ==> map.contains_key((#[trigger] list[i])@.stem) && map[list[i]@.stem]
            == list[i]@
    &&& forall|k: Seq<char>| #[trigger]
        map.contains_key(k) ==> exists|i: int| 0 <= i < list.len() && (#[trigger] list[i])@.stem == k
}

impl View for FingerprintMap {
    type V = Map<Seq<char>, TrackView>;

    closed spec fn view(&self) -> Map<Seq<char>, TrackView> {
        Map::new(
            |k: Seq<char>| self.index@.contains_key(k),
            |k: Seq<char>| self.tracks@[self.index@[k] as int]@,
        )
    }
}

impl FingerprintMap {
    /// Each stem stands once in `tracks`, and `index` finds it.
    #[verifier::type_invariant]
    closed spec fn well_formed(self) -> bool {
        &&& self.index@.dom().finite()
        &&& self.index@.dom().len() == self.tracks@.len()
        &&& forall|i: int|
            0 <= i < self.tracks@.len() ==> self.index@.contains_key(
                (#[trigger] self.tracks@[i]).stem@,
            ) && self.index@[self.tracks@[i].stem@] == i
        &&& forall|k: Seq<char>| #[trigger]
            self.index@.contains_key(k) ==> self.index@[k] < self.tracks@.len()
                && self.tracks@[self.index@[k] as int].stem@ == k
    }

    /// A map without tracks.
    pub fn new() -> (map: Self)
        ensures
            map@ == Map::<Seq<char>, TrackView>::empty(),
    {
        let map = FingerprintMap { tracks: Vec::new(), index: StringHashMap::new() };
        assert(map@ =~= Map::<Seq<char>, TrackView>::empty());
        map
    }

    /// Records a track under its stem. A track that stood there before is
    /// replaced.
    pub fn insert(&mut self, track: Track)
        ensures
            final(self)@ == old(self)@.insert(track@.stem, track@),
    {
        proof {
            use_type_invariant(&*self);
        }
        let mut taken = FingerprintMap::new();
        std::mem::swap(self, &mut taken);
        let FingerprintMap { mut tracks, mut index } = taken;
        let ghost before = taken@;
        let ghost old_tracks = tracks@;
        let ghost old_index = index@;
        let found = match index.get(track.stem.as_str()) {
            Some(at) => Some(*at),
            None => None,
        };
        match found {
            Some(at) => {
                tracks.set(at, track);
            },
            None => {
                index.insert(track.stem.clone(), tracks.len());
                tracks.push(track);
            },
        }
        *self = FingerprintMap { tracks, index };
        assert(self@ =~= before.insert(track@.stem, track@));
    }

    /// The track recorded under a stem.
    pub fn get(&self, stem: &str) -> (r: Option<&Track>)
        ensures
            match r {
                Some(track) => self@.contains_key(stem@) && self@[stem@] == track@,
                None => !self@.contains_key(stem@),
            },
    {
        proof {
            use_type_invariant(self);
        }
        match self.index.get(stem) {
            Some(at) => Some(&self.tracks[*at]),
            None => None,
        }
    }

    /// Whether a track is recorded under a stem.
    pub fn contains_key(&self, stem: &str) -> (r: bool)
        ensures
            r == self@.contains_key(stem@),
    {
        self.index.contains_key(stem)
    }

    /// The number of tracks.
    pub fn len(&self) -> (n: usize)
        ensures
            self@.dom().finite(),
            n == self@.dom().len(),
    {
        proof {
            use_type_invariant(self);
            assert(self@.dom() =~= self.index@.dom());
        }
        self.tracks.len()
    }

    /// Whether the map is without tracks.
    pub fn is_empty(&self) -> (r: bool)
        ensures
            r == (self@.dom().len() == 0),
            self@.dom().finite(),
    {
        self.len() == 0
    }

    /// The tracks of the map, each stem once.
    pub fn tracks(&self) -> (list: &[Track])
        ensures
            lists(list@, self@),
    {
        proof {
            use_type_invariant(self);
            assert(self@.dom() =~= self.index@.dom());
            assert forall|k: Seq<char>| #[trigger] self@.contains_key(k) implies exists|i: int|
                0 <= i < self.tracks@.len() && (#[trigger] self.tracks@[i])@.stem == k by {
                let at = self.index@[k] as int;
                assert(self.tracks@[at]@.stem == k);
            }
        }
        self.tracks.as_slice()
    }
}

/// The fingerprints that the entries of a walk give, taken in their order:
/// each track is recorded under its stem, and where two share a stem the
/// later one stays.
pub open spec fn scanned(entries: Seq<ScanEntry>) -> Map<Seq<char>, TrackView>
    decreases entries.len(),
{
    if entries.len() == 0 {
        Map::empty()
    } else {
        let before = scanned(entries.drop_last());
        match fingerprint(entries.last()) {
            Some(track) => before.insert(track.stem, track),
            None => before,
        }
    }
}

/// Fingerprints the entries of a directory walk.
///
/// Regular files with the extension `mp3`, `flac` or `ncm`, in any case,
/// are recorded under the stem of their file name; every other entry is
/// passed over. Of two tracks with one stem the later entry stays.
pub fn get_music_dict(entries: &[ScanEntry]) -> (map: FingerprintMap)
    ensures
        map@ == scanned(entries@),
{
    let mut map = FingerprintMap::new();
    let mut i: usize = 0;
    assert(entries@.take(0) =~= Seq::<ScanEntry>::empty());
    while i < entries.len()
        invariant
            i <= entries.len(),
            map@ == scanned(entries@.take(i as int)),
        decreases entries.len() - i,
    {
        assert(entries@.take(i + 1).drop_last() =~= entries@.take(i as int));
        assert(entries@.take(i + 1).last() == entries@[i as int]);
        match fingerprint_of(&entries[i]) {
            Some(track) => {
                map.insert(track);
            },
            None => {},
        }
        i = i + 1;
    }
    assert(entries@.take(i as int) =~= entries@);
    map
}

} // verus!
