//! The engine: the lengths of the features of two networks, the tolerances,
//! and the match store, which is filled once.
use crate::matching::{find_candidate_matches, lemma_matched_is_sound, matched};
use crate::pairing::Sighting;
use crate::store::{candidates_of, lemma_recorded, recorded_in, sound, MatchesMap, Share};
use vstd::prelude::*;

verus! {

/// The failures of the engine.
#[derive(Debug)]
pub enum AnimeError {
    /// The variable to interpolate has not one value for each source feature.
    IncorrectLength,
    /// The matches have not been found yet.
    MatchesNotFound,
    /// The matches were found before; the store that holds them comes along.
    AlreadyMatched(MatchesMap),
    /// The variable to interpolate holds a null.
    ContainsNull,
}

impl Clone for AnimeError {
    fn clone(&self) -> (r: Self)
        ensures
            match *self {
                AnimeError::IncorrectLength => r is IncorrectLength,
                AnimeError::MatchesNotFound => r is MatchesNotFound,
                AnimeError::AlreadyMatched(m) => r matches AnimeError::AlreadyMatched(c) && c@
                    == m@,
                AnimeError::ContainsNull => r is ContainsNull,
            },
    {
        match self {
            AnimeError::IncorrectLength => AnimeError::IncorrectLength,
            AnimeError::MatchesNotFound => AnimeError::MatchesNotFound,
            AnimeError::AlreadyMatched(m) => AnimeError::AlreadyMatched(m.clone()),
            AnimeError::ContainsNull => AnimeError::ContainsNull,
        }
    }
}

impl AnimeError {
    /// The text of the failure, as a sequence of characters.
    pub open spec fn spec_message(&self) -> Seq<char> {
        match self {
            AnimeError::IncorrectLength =>
                "Variable to interpolate must have the same number of observations as the `target` lines"@,
            AnimeError::MatchesNotFound =>
                "`matches` needs to be instantiated with `self.find_matches()`"@,
            AnimeError::AlreadyMatched(_) => "matches already found."@,
            AnimeError::ContainsNull => "cannot interpolate null values"@,
        }
    }

    /// The text of the failure.
    pub fn message(&self) -> (r: String)
        ensures
            r@ == self.spec_message(),
    {
        match self {
            AnimeError::IncorrectLength =>
                "Variable to interpolate must have the same number of observations as the `target` lines".to_owned(),
            AnimeError::MatchesNotFound =>
                "`matches` needs to be instantiated with `self.find_matches()`".to_owned(),
            AnimeError::AlreadyMatched(_) => "matches already found.".to_owned(),
            AnimeError::ContainsNull => "cannot interpolate null values".to_owned(),
        }
    }
}

/// Whether every key of a store is a target feature below `targets`, and
/// every candidate is of a source feature below `sources`.
pub open spec fn confined(store: Map<usize, Seq<Share>>, sources: nat, targets: nat) -> bool {
    forall|j: usize| #[trigger]
        store.contains_key(j) ==> j < targets && forall|k: int|
            0 <= k < store[j].len() ==> (#[trigger] store[j][k]).source_index < sources
}

/// Whether every sighting is of a source feature below `sources` and a
/// target feature below `targets`.
pub open spec fn within(sightings: Seq<Sighting>, sources: nat, targets: nat) -> bool {
    forall|k: int|
        0 <= k < sightings.len() ==> (#[trigger] sightings[k]).pair.source_index < sources
            && sightings[k].pair.target_index < targets
}

/// Tests whether every sighting is of a source feature below `sources` and
/// a target feature below `targets`.
pub fn is_within(sightings: &Vec<Sighting>, sources: usize, targets: usize) -> (r: bool)
    ensures
        r == within(sightings@, sources as nat, targets as nat),
{
    let mut k: usize = 0;
    while k < sightings.len()
        invariant
            k <= sightings.len(),
            forall|i: int|
                0 <= i < k ==> (#[trigger] sightings@[i]).pair.source_index < sources
                    && sightings@[i].pair.target_index < targets,
        decreases sightings.len() - k,
    {
        let pair = &sightings[k].pair;
        if pair.source_index >= sources || pair.target_index >= targets {
            assert(sightings@[k as int].pair == *pair);
            return false;
        }
        k += 1;
    }
    true
}

/// The store that sightings of the features of two networks leave names no
/// other feature.
pub proof fn lemma_matched_is_confined(
    sightings: Seq<Sighting>,
    angle_tolerance: u64,
    distance_tolerance: u64,
    sources: nat,
    targets: nat,
)
    requires
        within(sightings, sources, targets),
    ensures
        confined(matched(sightings, angle_tolerance, distance_tolerance), sources, targets),
    decreases sightings.len(),
{
    if sightings.len() > 0 {
        let front = sightings.drop_last();
        let last = sightings.last();
        assert(within(front, sources, targets)) by {
            assert forall|k: int| 0 <= k < front.len() implies (#[trigger] front[k]).pair.source_index
                < sources && front[k].pair.target_index < targets by {
                assert(front[k] == sightings[k]);
            }
        }
        lemma_matched_is_confined(front, angle_tolerance, distance_tolerance, sources, targets);
        lemma_matched_is_sound(front, angle_tolerance, distance_tolerance);
        let before = matched(front, angle_tolerance, distance_tolerance);
        if let Some(len) = last.spec_shared_len(angle_tolerance, distance_tolerance) {
            let target = last.pair.target_index;
            let source = last.pair.source_index;
            let list = candidates_of(before, target);
            lemma_recorded(list, source, len);
            let after = recorded_in(before, target, source, len);
            assert forall|j: usize| #[trigger] after.contains_key(j) implies j < targets
                && forall|k: int|
                0 <= k < after[j].len() ==> (#[trigger] after[j][k]).source_index < sources by {
                if j == target {
                    assert forall|k: int| 0 <= k < after[j].len() implies (
                    #[trigger] after[j][k]).source_index < sources by {
                        if k < list.len() {
                            assert(after[j][k].source_index == list[k].source_index);
                            assert(before[j][k].source_index < sources);
                        }
                    }
                } else {
                    assert(before.contains_key(j));
                }
            }
        }
    }
}

/// Approximate network matching, integration and enrichment.
///
/// The engine holds the length of every feature of a source and of a target
/// network, the two tolerances of the matcher, and the match store. The
/// store is empty until the matches are found, and is never changed after.
/// All numbers are binary64 bit patterns.
#[derive(Debug)]
pub struct Anime {
    distance_tolerance: u64,
    angle_tolerance: u64,
    source_lens: Vec<u64>,
    target_lens: Vec<u64>,
    matches: Option<MatchesMap>,
}

impl Clone for Anime {
    fn clone(&self) -> (r: Self)
        ensures
            r.source_lens()@ == self.source_lens()@,
            r.target_lens()@ == self.target_lens()@,
            r.distance_tolerance() == self.distance_tolerance(),
            r.angle_tolerance() == self.angle_tolerance(),
            r.store() == self.store(),
            self.wf() ==> r.wf(),
    {
        Anime {
            distance_tolerance: self.distance_tolerance,
            angle_tolerance: self.angle_tolerance,
            source_lens: self.source_lens.clone(),
            target_lens: self.target_lens.clone(),
            matches: match &self.matches {
                Some(m) => Some(m.clone()),
                None => None,
            },
        }
    }
}

impl Anime {
    /// The corridor radius.
    pub closed spec fn spec_distance_tolerance(&self) -> u64 {
        self.distance_tolerance
    }

    /// The angle tolerance, in degrees.
    pub closed spec fn spec_angle_tolerance(&self) -> u64 {
        self.angle_tolerance
    }

    /// The length of each source feature.
    pub closed spec fn spec_source_lens(&self) -> &Vec<u64> {
        &self.source_lens
    }

    /// The length of each target feature.
    pub closed spec fn spec_target_lens(&self) -> &Vec<u64> {
        &self.target_lens
    }

    /// The match store, once the matches were found.
    pub closed spec fn store(&self) -> Option<Map<usize, Seq<Share>>> {
        match self.matches {
            Some(m) => Some(m@),
            None => None,
        }
    }

    /// The invariant of the engine.
    pub closed spec fn wf(&self) -> bool {
        match self.matches {
            Some(m) => m.wf() && confined(
                m@,
                self.source_lens@.len(),
                self.target_lens@.len(),
            ),
            None => true,
        }
    }

    /// In a well-formed engine the store names features of the two networks
    /// only, no key is without a candidate, and no candidate list holds two
    /// entries of the same source feature.
    pub proof fn lemma_store(&self)
        requires
            self.wf(),
        ensures
            self.store() matches Some(m) ==> sound(m) && confined(
                m,
                self.spec_source_lens()@.len(),
                self.spec_target_lens()@.len(),
            ),
    {
        if let Some(m) = self.matches {
            m.lemma_sound();
        }
    }

    #[verifier::when_used_as_spec(spec_distance_tolerance)]
    pub fn distance_tolerance(&self) -> (r: u64)
        ensures
            r == self.spec_distance_tolerance(),
    {
        self.distance_tolerance
    }

    #[verifier::when_used_as_spec(spec_angle_tolerance)]
    pub fn angle_tolerance(&self) -> (r: u64)
        ensures
            r == self.spec_angle_tolerance(),
    {
        self.angle_tolerance
    }

    #[verifier::when_used_as_spec(spec_source_lens)]
    pub fn source_lens(&self) -> (r: &Vec<u64>)
        ensures
            r == self.spec_source_lens(),
    {
        &self.source_lens
    }

    #[verifier::when_used_as_spec(spec_target_lens)]
    pub fn target_lens(&self) -> (r: &Vec<u64>)
        ensures
            r == self.spec_target_lens(),
    {
        &self.target_lens
    }

    /// The match store, or `None` before the matches were found.
    pub fn matches(&self) -> (r: Option<&MatchesMap>)
        ensures
            r is Some == self.store() is Some,
            r matches Some(m) ==> m@ == self.store()->0 && (self.wf() ==> m.wf()),
    {
        match &self.matches {
            Some(m) => Some(m),
            None => None,
        }
    }

    /// An engine for two networks whose features have the given lengths,
    /// with an empty match store.
    pub fn load_geometries(
        source_lens: Vec<u64>,
        target_lens: Vec<u64>,
        distance_tolerance: u64,
        angle_tolerance: u64,
    ) -> (r: Self)
        ensures
            r.wf(),
            r.source_lens()@ == source_lens@,
            r.target_lens()@ == target_lens@,
            r.distance_tolerance() == distance_tolerance,
            r.angle_tolerance() == angle_tolerance,
            r.store() is None,
    {
        Anime { distance_tolerance, angle_tolerance, source_lens, target_lens, matches: None }
    }

    /// Finds the matches among the pairs that the join of the two indexes
    /// gave, and fills the match store with them.
    ///
    /// This is done once. Where the store is filled already the call fails
    /// with a copy of the store and changes nothing.
    pub fn find_matches(&mut self, sightings: &Vec<Sighting>) -> (r: Result<(), AnimeError>)
        requires
            old(self).wf(),
            old(self).store() is None ==> within(
                sightings@,
                old(self).source_lens()@.len(),
                old(self).target_lens()@.len(),
            ),
        ensures
            final(self).wf(),
            final(self).source_lens() == old(self).source_lens(),
            final(self).target_lens() == old(self).target_lens(),
            final(self).distance_tolerance() == old(self).distance_tolerance(),
            final(self).angle_tolerance() == old(self).angle_tolerance(),
            match old(self).store() {
                Some(m) => *final(self) == *old(self) && (r matches Err(
                    AnimeError::AlreadyMatched(held),
                ) && held@ == m && held.wf()),
                None => r is Ok && final(self).store() == Some(
                    matched(
                        sightings@,
                        old(self).angle_tolerance(),
                        old(self).distance_tolerance(),
                    ),
                ),
            },
    {
        match &self.matches {
            Some(m) => Err(AnimeError::AlreadyMatched(m.clone())),
            None => {
                let found = find_candidate_matches(
                    sightings,
                    self.angle_tolerance,
                    self.distance_tolerance,
                );
                proof {
                    lemma_matched_is_confined(
                        sightings@,
                        self.angle_tolerance,
                        self.distance_tolerance,
                        self.source_lens@.len(),
                        self.target_lens@.len(),
                    );
                }
                self.matches = Some(found);
                Ok(())
            },
        }
    }

    /// An engine for two networks whose features have the given lengths,
    /// with the matches found among the given pairs.
    pub fn new(
        source_lens: Vec<u64>,
        target_lens: Vec<u64>,
        distance_tolerance: u64,
        angle_tolerance: u64,
        sightings: &Vec<Sighting>,
    ) -> (r: Self)
        requires
            within(sightings@, source_lens@.len(), target_lens@.len()),
        ensures
            r.wf(),
            r.source_lens()@ == source_lens@,
            r.target_lens()@ == target_lens@,
            r.distance_tolerance() == distance_tolerance,
            r.angle_tolerance() == angle_tolerance,
            r.store() == Some(matched(sightings@, angle_tolerance, distance_tolerance)),
    {
        let found = find_candidate_matches(sightings, angle_tolerance, distance_tolerance);
        proof {
            lemma_matched_is_confined(
                sightings@,
                angle_tolerance,
                distance_tolerance,
                source_lens@.len(),
                target_lens@.len(),
            );
        }
        Anime { distance_tolerance, angle_tolerance, source_lens, target_lens, matches: Some(found) }
    }
}

} // verus!
