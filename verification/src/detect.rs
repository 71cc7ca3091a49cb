//! Change detection: which tracks of the source have to be brought to the
//! destination.

use crate::config::Mode;
use crate::fingerprint::{lists, FingerprintMap, Track, TrackView};
use vstd::math::{abs, max};
use vstd::prelude::*;

verus! {

/// Whether two sizes differ by a tenth or more of the larger one. Two sizes
/// of which the larger is 0 differ only if they are unequal.
pub open spec fn size_changed(a: u64, b: u64) -> bool {
    let larger = max(a as int, b as int);
    if larger == 0 {
        a != b
    } else {
        10 * abs(a - b) >= larger
    }
}

/// Whether the track under a stem has to be brought to the destination.
///
/// Only tracks of the source are pending. By the legacy policy a track is
/// pending if and only if the destination has none under its stem. By the
/// default policy it is also pending where the destination has one whose
/// size differs by a tenth or more.
pub open spec fn is_pending(
    source: Map<Seq<char>, TrackView>,
    destination: Map<Seq<char>, TrackView>,
    mode: Mode,
    stem: Seq<char>,
) -> bool {
    source.contains_key(stem) && match mode {
        Mode::Legacy => !destination.contains_key(stem),
        Mode::Default => !destination.contains_key(stem) || size_changed(
            source[stem].size,
            destination[stem].size,
        ),
    }
}

/// The stems of the pending tracks.
pub open spec fn pending_stems(
    source: Map<Seq<char>, TrackView>,
    destination: Map<Seq<char>, TrackView>,
    mode: Mode,
) -> Set<Seq<char>> {
    Set::new(|stem: Seq<char>| is_pending(source, destination, mode, stem))
}

/// The pending tracks: the part of the source under the pending stems.
pub open spec fn pending(
    source: Map<Seq<char>, TrackView>,
    destination: Map<Seq<char>, TrackView>,
    mode: Mode,
) -> Map<Seq<char>, TrackView> {
    source.restrict(pending_stems(source, destination, mode))
}

/// Whether two sizes differ by a tenth or more of the larger one.
pub fn size_differs(a: u64, b: u64) -> (r: bool)
    ensures
        r == size_changed(a, b),
{
    let larger: u64 = if a >= b {
        a
    } else {
        b
    };
    let smaller: u64 = if a >= b {
        b
    } else {
        a
    };
    if larger == 0 {
        a != b
    } else {
        let difference: u128 = (larger - smaller) as u128;
        difference * 10 >= larger as u128
    }
}

/// Whether a track of the source has to be brought to the destination.
pub fn needs_sync(track: &Track, destination: &FingerprintMap, mode: &Mode) -> (r: bool)
    ensures
        r == match *mode {
            Mode::Legacy => !destination@.contains_key(track@.stem),
            Mode::Default => !destination@.contains_key(track@.stem) || size_changed(
                track@.size,
                destination@[track@.stem].size,
            ),
        },
{
    match mode {
        Mode::Legacy => !destination.contains_key(track.stem.as_str()),
        Mode::Default => match destination.get(track.stem.as_str()) {
            Some(there) => size_differs(track.size, there.size),
            None => true,
        },
    }
}

/// The stems of the first `n` tracks of a list.
spec fn stems_before(list: Seq<Track>, n: int) -> Set<Seq<char>> {
    Set::new(|stem: Seq<char>| exists|j: int| 0 <= j < n && (#[trigger] list[j])@.stem == stem)
}

/// Finds the tracks of the source that have to be brought to the
/// destination.
///
/// The result is a part of the source: it holds a track of the source, as
/// the source has it, if and only if the track is pending by the policy of
/// `mode`. Tracks that only the destination has are never in it.
pub fn compare_music_dicts(source: &FingerprintMap, destination: &FingerprintMap, mode: &Mode) -> (r:
    FingerprintMap)
    ensures
        r@ == pending(source@, destination@, *mode),
{
    let list = source.tracks();
    let mut result = FingerprintMap::new();
    let mut i: usize = 0;
    let ghost wanted = pending_stems(source@, destination@, *mode);
    assert(result@ =~= source@.restrict(wanted.intersect(stems_before(list@, 0))));
    while i < list.len()
        invariant
            i <= list.len(),
            lists(list@, source@),
            wanted == pending_stems(source@, destination@, *mode),
            result@ == source@.restrict(wanted.intersect(stems_before(list@, i as int))),
        decreases list.len() - i,
    {
        let track = &list[i];
        let ghost stem = track@.stem;
        let ghost before = stems_before(list@, i as int);
        let ghost after = stems_before(list@, i + 1);
        assert(after =~= before.insert(stem)) by {
            assert forall|k: Seq<char>| after.contains(k) implies before.insert(stem).contains(
                k,
            ) by {
                let j = choose|j: int| 0 <= j < i + 1 && (#[trigger] list@[j])@.stem == k;
                if j < i {
                    assert(before.contains(k));
                }
            }
            assert forall|k: Seq<char>| before.insert(stem).contains(k) implies after.contains(
                k,
            ) by {
                if k == stem {
                    assert(list@[i as int]@.stem == k);
                } else {
                    let j = choose|j: int| 0 <= j < i && (#[trigger] list@[j])@.stem == k;
                    assert(0 <= j < i + 1);
                }
            }
        }
        assert(source@.contains_key(stem) && source@[stem] == track@);
        if needs_sync(track, destination, mode) {
            assert(wanted.contains(stem));
            result.insert(track.clone());
            assert(result@ =~= source@.restrict(wanted.intersect(after)));
        } else {
            assert(!wanted.contains(stem));
            assert(source@.restrict(wanted.intersect(after)) =~= source@.restrict(
                wanted.intersect(before),
            ));
        }
        i = i + 1;
    }
    assert(result@ =~= source@.restrict(wanted)) by {
        assert forall|k: Seq<char>| source@.contains_key(k) implies stems_before(
            list@,
            i as int,
        ).contains(k) by {
            let j = choose|j: int| 0 <= j < list@.len() && (#[trigger] list@[j])@.stem == k;
            assert(0 <= j < i);
        }
    }
    result
}

/// The pending tracks are tracks of the source, as the source has them:
/// nothing that only the destination has is ever pending.
pub proof fn lemma_pending_within_source(
    source: Map<Seq<char>, TrackView>,
    destination: Map<Seq<char>, TrackView>,
    mode: Mode,
)
    ensures
        pending(source, destination, mode).dom().subset_of(source.dom()),
        forall|stem: Seq<char>| #[trigger]
            pending(source, destination, mode).contains_key(stem) ==> pending(
                source,
                destination,
                mode,
            )[stem] == source[stem],
{
}

/// By the legacy policy the pending stems are the stems of the source
/// without those of the destination, whatever the sizes are.
pub proof fn lemma_legacy_is_difference(
    source: Map<Seq<char>, TrackView>,
    destination: Map<Seq<char>, TrackView>,
)
    ensures
        pending_stems(source, destination, Mode::Legacy) == source.dom().difference(
            destination.dom(),
        ),
        pending(source, destination, Mode::Legacy) == source.remove_keys(destination.dom()),
{
    assert(pending_stems(source, destination, Mode::Legacy) =~= source.dom().difference(
        destination.dom(),
    ));
    assert(pending(source, destination, Mode::Legacy) =~= source.remove_keys(destination.dom()));
}

/// By the default policy a track that the destination lacks is pending, and
/// a track that both have is pending if and only if the sizes differ by a
/// tenth or more of the larger one: ten times the difference reaches the
/// larger size. Where the larger size is 0, it is pending if and only if
/// the sizes are unequal.
pub proof fn lemma_default_policy(
    source: Map<Seq<char>, TrackView>,
    destination: Map<Seq<char>, TrackView>,
    stem: Seq<char>,
)
    requires
        source.contains_key(stem),
    ensures
        !destination.contains_key(stem) ==> pending_stems(
            source,
            destination,
            Mode::Default,
        ).contains(stem),
        destination.contains_key(stem) ==> (pending_stems(
            source,
            destination,
            Mode::Default,
        ).contains(stem) <==> {
            let a = source[stem].size as int;
            let b = destination[stem].size as int;
            if max(a, b) > 0 {
                10 * abs(a - b) >= max(a, b)
            } else {
                a != b
            }
        }),
{
}

/// A track of size 0 that the destination lacks is pending by either
/// policy.
pub proof fn lemma_empty_track_is_pending(
    source: Map<Seq<char>, TrackView>,
    destination: Map<Seq<char>, TrackView>,
    mode: Mode,
    stem: Seq<char>,
)
    requires
        source.contains_key(stem),
        source[stem].size == 0,
        !destination.contains_key(stem),
    ensures
        pending_stems(source, destination, mode).contains(stem),
        pending(source, destination, mode).contains_key(stem),
{
}

/// A track that both libraries have with one size is never pending by the
/// default policy.
pub proof fn lemma_same_size_is_settled(
    source: Map<Seq<char>, TrackView>,
    destination: Map<Seq<char>, TrackView>,
    stem: Seq<char>,
)
    requires
        source.contains_key(stem),
        destination.contains_key(stem),
        source[stem].size == destination[stem].size,
    ensures
        !pending_stems(source, destination, Mode::Default).contains(stem),
        !pending(source, destination, Mode::Default).contains_key(stem),
{
}

/// A second run by the default policy finds nothing to do.
///
/// `after` is the destination as the first run left it: every track that
/// was pending stands in it with a size within a tenth of its source's, as
/// a verbatim copy does, and every track of the source that was not
/// pending stands in it with the size it had before.
pub proof fn lemma_second_run_is_empty(
    source: Map<Seq<char>, TrackView>,
    destination: Map<Seq<char>, TrackView>,
    after: Map<Seq<char>, TrackView>,
)
    requires
        forall|stem: Seq<char>| #[trigger]
            pending_stems(source, destination, Mode::Default).contains(stem)
                ==> after.contains_key(stem) && !size_changed(
                source[stem].size,
                after[stem].size,
            ),
        forall|stem: Seq<char>|
            source.contains_key(stem) && !(#[trigger] pending_stems(
                source,
                destination,
                Mode::Default,
            ).contains(stem)) ==> after.contains_key(stem) && after[stem].size
                == destination[stem].size,
    ensures
        pending_stems(source, after, Mode::Default) == Set::<Seq<char>>::empty(),
        pending(source, after, Mode::Default) == Map::<Seq<char>, TrackView>::empty(),
{
    assert forall|stem: Seq<char>| !is_pending(source, after, Mode::Default, stem) by {
        if source.contains_key(stem) {
            if pending_stems(source, destination, Mode::Default).contains(stem) {
            } else {
                assert(!is_pending(source, destination, Mode::Default, stem));
            }
        }
    }
    assert(pending_stems(source, after, Mode::Default) =~= Set::<Seq<char>>::empty());
    assert(pending(source, after, Mode::Default) =~= Map::<Seq<char>, TrackView>::empty());
}

/// After a run that copied every pending track, a second run by the
/// default policy finds nothing to do.
///
/// A verbatim copy stands in the destination under the stem of its source
/// and with its size, so the destination after the run is the one before
/// it with the pending tracks laid over it.
pub proof fn lemma_second_run_after_copies(
    source: Map<Seq<char>, TrackView>,
    destination: Map<Seq<char>, TrackView>,
)
    ensures
        pending(
            source,
            destination.union_prefer_right(pending(source, destination, Mode::Default)),
            Mode::Default,
        ) == Map::<Seq<char>, TrackView>::empty(),
{
    let after = destination.union_prefer_right(pending(source, destination, Mode::Default));
    assert forall|stem: Seq<char>| #[trigger]
        pending_stems(source, destination, Mode::Default).contains(stem) implies after.contains_key(
        stem,
    ) && !size_changed(source[stem].size, after[stem].size) by {
        assert(pending(source, destination, Mode::Default).contains_key(stem));
        assert(after[stem] == source[stem]);
    }
    assert forall|stem: Seq<char>|
        source.contains_key(stem) && !(#[trigger] pending_stems(
            source,
            destination,
            Mode::Default,
        ).contains(stem)) implies after.contains_key(stem) && after[stem].size
        == destination[stem].size by {
        assert(!pending(source, destination, Mode::Default).contains_key(stem));
        assert(destination.contains_key(stem));
    }
    lemma_second_run_is_empty(source, destination, after);
}

} // verus!
