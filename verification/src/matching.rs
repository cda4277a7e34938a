//! The matcher: from the pairs of segments that the join of the two indexes
//! gives to the match store.
use crate::pairing::{lemma_wider_tolerances_admit, Sighting};
use crate::store::{
    candidates_of, lemma_position, lemma_recorded, lemma_recorded_in, lemma_recorded_parts,
    lemma_recorded_places, lengths, mentions, paired, position, recorded_in, sound, MatchesMap,
    Share,
};
use vstd::prelude::*;

verus! {

/// The store that a run of sightings leaves: each sighting that passes the
/// gates records its length for its pair of features, in the order of the
/// run; one that fails a gate changes nothing.
pub open spec fn matched(
    sightings: Seq<Sighting>,
    angle_tolerance: u64,
    distance_tolerance: u64,
) -> Map<usize, Seq<Share>>
    decreases sightings.len(),
{
    if sightings.len() == 0 {
        Map::empty()
    } else {
        let before = matched(sightings.drop_last(), angle_tolerance, distance_tolerance);
        let last = sightings.last();
        match last.spec_shared_len(angle_tolerance, distance_tolerance) {
            Some(len) => recorded_in(before, last.pair.target_index, last.pair.source_index, len),
            None => before,
        }
    }
}

/// Whether some sighting of the run is of the pair of `target` and `source`
/// and passes the gates.
pub open spec fn admitted(
    sightings: Seq<Sighting>,
    angle_tolerance: u64,
    distance_tolerance: u64,
    target: usize,
    source: usize,
) -> bool {
    exists|k: int|
        0 <= k < sightings.len() && (#[trigger] sightings[k]).pair.target_index == target
            && sightings[k].pair.source_index == source && sightings[k].spec_shared_len(
            angle_tolerance,
            distance_tolerance,
        ) is Some
}

/// The lengths that the sightings of the pair of `target` and `source` add,
/// in the order of the run: one for each such sighting that passes the gates.
pub open spec fn contributions(
    sightings: Seq<Sighting>,
    angle_tolerance: u64,
    distance_tolerance: u64,
    target: usize,
    source: usize,
) -> Seq<u64>
    decreases sightings.len(),
{
    if sightings.len() == 0 {
        Seq::empty()
    } else {
        let before = contributions(
            sightings.drop_last(),
            angle_tolerance,
            distance_tolerance,
            target,
            source,
        );
        let last = sightings.last();
        match last.spec_shared_len(angle_tolerance, distance_tolerance) {
            Some(len) if last.pair.target_index == target && last.pair.source_index == source =>
                before.push(len),
            _ => before,
        }
    }
}

/// Whether the sighting at `k` is of the pair of `target` and `source` and
/// passes the gates.
pub open spec fn admits_at(
    sightings: Seq<Sighting>,
    angle_tolerance: u64,
    distance_tolerance: u64,
    target: usize,
    source: usize,
    k: int,
) -> bool {
    0 <= k < sightings.len() && sightings[k].pair.target_index == target
        && sightings[k].pair.source_index == source && sightings[k].spec_shared_len(
        angle_tolerance,
        distance_tolerance,
    ) is Some
}

/// The place in the run of the first sighting of the pair of `target` and
/// `source` that passes the gates, where there is one.
pub open spec fn first_met(
    sightings: Seq<Sighting>,
    angle_tolerance: u64,
    distance_tolerance: u64,
    target: usize,
    source: usize,
) -> int {
    choose|k: int|
        admits_at(sightings, angle_tolerance, distance_tolerance, target, source, k)
            && forall|i: int|
            0 <= i < k ==> !admits_at(
                sightings,
                angle_tolerance,
                distance_tolerance,
                target,
                source,
                i,
            )
}

/// Runs the matcher over the pairs that the join of the two indexes gave.
///
/// Each sighting is put to the angle gate, the geometric gate and the
/// distance gate. One that passes adds its length to the candidate of its
/// source feature under its target feature; the candidate is made when the
/// pair of features is first met.
pub fn find_candidate_matches(
    sightings: &Vec<Sighting>,
    angle_tolerance: u64,
    distance_tolerance: u64,
) -> (r: MatchesMap)
    ensures
        r.wf(),
        r@ == matched(sightings@, angle_tolerance, distance_tolerance),
{
    let mut matches = MatchesMap::new();
    let mut k: usize = 0;
    while k < sightings.len()
        invariant
            k <= sightings.len(),
            matches.wf(),
            matches@ == matched(sightings@.take(k as int), angle_tolerance, distance_tolerance),
        decreases sightings.len() - k,
    {
        let sighting = &sightings[k];
        if let Some(len) = sighting.shared_len(angle_tolerance, distance_tolerance) {
            matches.record(sighting.pair.target_index, sighting.pair.source_index, len);
        }
        assert(sightings@.take(k + 1).drop_last() =~= sightings@.take(k as int));
        k += 1;
    }
    assert(sightings@.take(k as int) =~= sightings@);
    matches
}

/// In the store that a run of sightings leaves, every key has a candidate,
/// no candidate list holds two entries of the same source feature, and every
/// candidate holds a length.
pub proof fn lemma_matched_is_sound(
    sightings: Seq<Sighting>,
    angle_tolerance: u64,
    distance_tolerance: u64,
)
    ensures
        sound(matched(sightings, angle_tolerance, distance_tolerance)),
    decreases sightings.len(),
{
    if sightings.len() > 0 {
        lemma_matched_is_sound(sightings.drop_last(), angle_tolerance, distance_tolerance);
        let before = matched(sightings.drop_last(), angle_tolerance, distance_tolerance);
        let last = sightings.last();
        if let Some(len) = last.spec_shared_len(angle_tolerance, distance_tolerance) {
            lemma_recorded_in(before, last.pair.target_index, last.pair.source_index, len);
        }
    }
}

/// A pair of features is in the store that a run leaves exactly when a
/// sighting of that pair passed the gates.
pub proof fn lemma_matched_pairs(
    sightings: Seq<Sighting>,
    angle_tolerance: u64,
    distance_tolerance: u64,
    target: usize,
    source: usize,
)
    ensures
        paired(matched(sightings, angle_tolerance, distance_tolerance), target, source)
            <==> admitted(sightings, angle_tolerance, distance_tolerance, target, source),
    decreases sightings.len(),
{
    if sightings.len() > 0 {
        let front = sightings.drop_last();
        let last = sightings.last();
        lemma_matched_pairs(front, angle_tolerance, distance_tolerance, target, source);
        lemma_matched_is_sound(front, angle_tolerance, distance_tolerance);
        let before = matched(front, angle_tolerance, distance_tolerance);
        if let Some(len) = last.spec_shared_len(angle_tolerance, distance_tolerance) {
            lemma_recorded_in(before, last.pair.target_index, last.pair.source_index, len);
        }
        if admitted(front, angle_tolerance, distance_tolerance, target, source) {
            let k = choose|k: int|
                0 <= k < front.len() && (#[trigger] front[k]).pair.target_index == target
                    && front[k].pair.source_index == source && front[k].spec_shared_len(
                    angle_tolerance,
                    distance_tolerance,
                ) is Some;
            assert(sightings[k] == front[k]);
        }
        if admitted(sightings, angle_tolerance, distance_tolerance, target, source) {
            let k = choose|k: int|
                0 <= k < sightings.len() && (#[trigger] sightings[k]).pair.target_index == target
                    && sightings[k].pair.source_index == source && sightings[k].spec_shared_len(
                    angle_tolerance,
                    distance_tolerance,
                ) is Some;
            if k < front.len() {
                assert(front[k] == sightings[k]);
            }
        }
        if last.pair.target_index == target && last.pair.source_index == source
            && last.spec_shared_len(angle_tolerance, distance_tolerance) is Some {
            assert(sightings[sightings.len() - 1] == last);
        }
    }
}

/// Wider tolerances never remove a pair of features from the store: where
/// every sighting of one run is also in a second run, and the tolerances of
/// the second run are at least those of the first, every pair that the first
/// run leaves is left by the second too.
pub proof fn lemma_wider_tolerances_keep_pairs(
    sightings: Seq<Sighting>,
    angle_tolerance: u64,
    distance_tolerance: u64,
    wider_sightings: Seq<Sighting>,
    wider_angle: u64,
    wider_distance: u64,
    target: usize,
    source: usize,
)
    requires
        crate::binary64::spec_le(angle_tolerance, wider_angle),
        crate::binary64::spec_le(distance_tolerance, wider_distance),
        forall|k: int|
            0 <= k < sightings.len() ==> wider_sightings.contains(#[trigger] sightings[k]),
        paired(matched(sightings, angle_tolerance, distance_tolerance), target, source),
    ensures
        paired(matched(wider_sightings, wider_angle, wider_distance), target, source),
{
    lemma_matched_pairs(sightings, angle_tolerance, distance_tolerance, target, source);
    let k = choose|k: int|
        0 <= k < sightings.len() && (#[trigger] sightings[k]).pair.target_index == target
            && sightings[k].pair.source_index == source && sightings[k].spec_shared_len(
            angle_tolerance,
            distance_tolerance,
        ) is Some;
    lemma_wider_tolerances_admit(
        sightings[k],
        angle_tolerance,
        distance_tolerance,
        wider_angle,
        wider_distance,
    );
    assert(wider_sightings.contains(sightings[k]));
    let w = choose|w: int| 0 <= w < wider_sightings.len() && wider_sightings[w] == sightings[k];
    assert(wider_sightings[w].pair.target_index == target);
    lemma_matched_pairs(wider_sightings, wider_angle, wider_distance, target, source);
}

/// A sighting that fails a gate leaves no trace: the run without it leaves
/// the same store. So a pair that cannot pass need not be measured.
pub proof fn lemma_discarded_sighting_leaves_no_trace(
    sightings: Seq<Sighting>,
    angle_tolerance: u64,
    distance_tolerance: u64,
    k: int,
)
    requires
        0 <= k < sightings.len(),
        sightings[k].spec_shared_len(angle_tolerance, distance_tolerance) is None,
    ensures
        matched(sightings.remove(k), angle_tolerance, distance_tolerance) == matched(
            sightings,
            angle_tolerance,
            distance_tolerance,
        ),
    decreases sightings.len(),
{
    if k == sightings.len() - 1 {
        assert(sightings.remove(k) =~= sightings.drop_last());
    } else {
        assert(sightings.remove(k).drop_last() =~= sightings.drop_last().remove(k));
        assert(sightings.remove(k).last() == sightings.last());
        lemma_discarded_sighting_leaves_no_trace(
            sightings.drop_last(),
            angle_tolerance,
            distance_tolerance,
            k,
        );
    }
}

/// Accumulation: the lengths that the store holds for a pair of features are
/// the lengths of the sightings of that pair that passed the gates, in the
/// order of the run.
pub proof fn lemma_matched_lengths(
    sightings: Seq<Sighting>,
    angle_tolerance: u64,
    distance_tolerance: u64,
    target: usize,
    source: usize,
)
    ensures
        lengths(matched(sightings, angle_tolerance, distance_tolerance), target, source)
            == contributions(sightings, angle_tolerance, distance_tolerance, target, source),
    decreases sightings.len(),
{
    if sightings.len() > 0 {
        let front = sightings.drop_last();
        let last = sightings.last();
        lemma_matched_lengths(front, angle_tolerance, distance_tolerance, target, source);
        lemma_matched_is_sound(front, angle_tolerance, distance_tolerance);
        let before = matched(front, angle_tolerance, distance_tolerance);
        if let Some(len) = last.spec_shared_len(angle_tolerance, distance_tolerance) {
            if last.pair.target_index == target {
                lemma_recorded_parts(
                    candidates_of(before, target),
                    last.pair.source_index,
                    len,
                    source,
                );
            }
        }
    }
}

/// `first_met` is the least place at which a sighting of the pair passes.
pub proof fn lemma_first_met(
    sightings: Seq<Sighting>,
    angle_tolerance: u64,
    distance_tolerance: u64,
    target: usize,
    source: usize,
)
    requires
        admitted(sightings, angle_tolerance, distance_tolerance, target, source),
    ensures
        admits_at(
            sightings,
            angle_tolerance,
            distance_tolerance,
            target,
            source,
            first_met(sightings, angle_tolerance, distance_tolerance, target, source),
        ),
        forall|i: int|
            0 <= i < first_met(sightings, angle_tolerance, distance_tolerance, target, source)
                ==> !admits_at(
                sightings,
                angle_tolerance,
                distance_tolerance,
                target,
                source,
                i,
            ),
{
    let w = choose|k: int|
        0 <= k < sightings.len() && (#[trigger] sightings[k]).pair.target_index == target
            && sightings[k].pair.source_index == source && sightings[k].spec_shared_len(
            angle_tolerance,
            distance_tolerance,
        ) is Some;
    lemma_least_met(sightings, angle_tolerance, distance_tolerance, target, source, w);
}

proof fn lemma_least_met(
    sightings: Seq<Sighting>,
    angle_tolerance: u64,
    distance_tolerance: u64,
    target: usize,
    source: usize,
    w: int,
)
    requires
        admits_at(sightings, angle_tolerance, distance_tolerance, target, source, w),
    ensures
        exists|k: int|
            admits_at(sightings, angle_tolerance, distance_tolerance, target, source, k)
                && forall|i: int|
                0 <= i < k ==> !admits_at(
                    sightings,
                    angle_tolerance,
                    distance_tolerance,
                    target,
                    source,
                    i,
                ),
    decreases w,
{
    if exists|i: int|
        0 <= i < w && admits_at(sightings, angle_tolerance, distance_tolerance, target, source, i) {
        let i = choose|i: int|
            0 <= i < w && admits_at(
                sightings,
                angle_tolerance,
                distance_tolerance,
                target,
                source,
                i,
            );
        lemma_least_met(sightings, angle_tolerance, distance_tolerance, target, source, i);
    }
}

/// The candidates of a target feature stand in the order in which their
/// source features were first met: of two candidates, the one whose pair
/// first passed the gates earlier in the run stands first.
pub proof fn lemma_matched_order(
    sightings: Seq<Sighting>,
    angle_tolerance: u64,
    distance_tolerance: u64,
    target: usize,
    one: usize,
    other: usize,
)
    requires
        paired(matched(sightings, angle_tolerance, distance_tolerance), target, one),
        paired(matched(sightings, angle_tolerance, distance_tolerance), target, other),
    ensures
        position(matched(sightings, angle_tolerance, distance_tolerance)[target], one) < position(
            matched(sightings, angle_tolerance, distance_tolerance)[target],
            other,
        ) <==> first_met(sightings, angle_tolerance, distance_tolerance, target, one) < first_met(
            sightings,
            angle_tolerance,
            distance_tolerance,
            target,
            other,
        ),
    decreases sightings.len(),
{
    let a = angle_tolerance;
    let d = distance_tolerance;
    lemma_matched_pairs(sightings, a, d, target, one);
    lemma_matched_pairs(sightings, a, d, target, other);
    lemma_first_met(sightings, a, d, target, one);
    lemma_first_met(sightings, a, d, target, other);
    let front = sightings.drop_last();
    let last = sightings.last();
    let before = matched(front, a, d);
    let list = candidates_of(before, target);
    let after = matched(sightings, a, d)[target];
    lemma_matched_is_sound(front, a, d);
    lemma_matched_is_sound(sightings, a, d);
    lemma_matched_pairs(front, a, d, target, one);
    lemma_matched_pairs(front, a, d, target, other);
    lemma_position(after, one);
    lemma_position(after, other);
    let n = sightings.len() - 1;
    assert forall|x: usize, k: int| 0 <= k < n implies (admits_at(sightings, a, d, target, x, k)
        <==> admits_at(front, a, d, target, x, k)) by {
        assert(front[k] == sightings[k]);
    }
    // where a pair was met in the front of the run, it was first met there
    assert forall|x: usize| paired(before, target, x) && (x == one || x == other) implies first_met(
        sightings,
        a,
        d,
        target,
        x,
    ) == first_met(front, a, d, target, x) by {
        lemma_first_met(front, a, d, target, x);
        let f = first_met(front, a, d, target, x);
        let s = first_met(sightings, a, d, target, x);
        assert(admits_at(sightings, a, d, target, x, f));
        if s < f {
            assert(admits_at(front, a, d, target, x, s));
        }
        if f < s {
            assert(!admits_at(sightings, a, d, target, x, f));
        }
    }
    // where it was not, it is met by the last sighting
    assert forall|x: usize| !paired(before, target, x) && (x == one || x == other) implies first_met(
        sightings,
        a,
        d,
        target,
        x,
    ) == n by {
        let s = first_met(sightings, a, d, target, x);
        if s < n {
            assert(admits_at(front, a, d, target, x, s));
            assert(front[s].pair.target_index == target);
        }
    }
    let recording = last.spec_shared_len(a, d) is Some && last.pair.target_index == target;
    if recording {
        let len = last.spec_shared_len(a, d)->0;
        let source = last.pair.source_index;
        lemma_recorded(list, source, len);
        lemma_recorded_places(list, source, len, one);
        lemma_recorded_places(list, source, len, other);
    } else {
        assert(after == list);
    }
    if one != other {
        if paired(before, target, one) && paired(before, target, other) {
            lemma_matched_order(front, a, d, target, one, other);
        } else if paired(before, target, one) {
            lemma_position(list, one);
            lemma_first_met(front, a, d, target, one);
        } else if paired(before, target, other) {
            lemma_position(list, other);
            lemma_first_met(front, a, d, target, other);
        }
    }
}

} // verus!
