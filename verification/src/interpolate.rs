//! Transfer of a numeric attribute from the source features to the target
//! features, weighted by the lengths they share.
//!
//! The engine decides which candidates enter the sum of a target feature and
//! with which operands: it hands out the terms. The sums themselves are
//! arithmetic on the numbers and are taken by the caller.
use crate::binary64::{is_nan, lt, spec_is_nan, spec_lt, MAX_FINITE, ZERO};
use crate::engine::{confined, Anime, AnimeError};
use crate::store::{candidates_of, mentions, shares, MatchCandidate, MatchesMap, Share};
use vstd::prelude::*;

verus! {

/// Intensive or extensive interpolation.
///
/// Extensive interpolation weights a value by the shared length divided by
/// the length of the source feature, and sums. Intensive interpolation
/// weights a value by the shared length divided by the length of the target
/// feature, and takes the weighted mean.
#[derive(Clone, Copy, Debug, PartialEq, Eq, Structural)]
pub enum Tensive {
    In,
    Ex,
}

/// What a term stands for.
pub struct TermView {
    pub source_index: usize,
    pub parts: Seq<u64>,
    pub length: u64,
    pub value: u64,
}

/// One term of the sum of a target feature.
///
/// Its weight is the sum of `shared_lens`, taken from the first to the last,
/// divided by `length`; the term is `value` times the weight.
#[derive(Debug)]
pub struct Term {
    /// The source feature that the term comes from.
    pub source_index: usize,
    /// The lengths that the source feature shares with the target feature.
    pub shared_lens: Vec<u64>,
    /// The length that the shared length is divided by.
    pub length: u64,
    /// The value of the source feature.
    pub value: u64,
}

impl View for Term {
    type V = TermView;

    open spec fn view(&self) -> TermView {
        TermView {
            source_index: self.source_index,
            parts: self.shared_lens@,
            length: self.length,
            value: self.value,
        }
    }
}

/// What a list of terms stands for.
pub open spec fn term_views(terms: Seq<Term>) -> Seq<TermView> {
    terms.map_values(|t: Term| t@)
}

/// What a list of lists of terms stands for.
pub open spec fn plan_views(plan: Seq<Vec<Term>>) -> Seq<Seq<TermView>> {
    plan.map_values(|terms: Vec<Term>| term_views(terms@))
}

/// Whether a value counts as missing: it is not a number, or it is the
/// largest finite number.
pub open spec fn spec_is_missing(value: u64) -> bool {
    spec_is_nan(value) || value == MAX_FINITE
}

#[verifier::when_used_as_spec(spec_is_missing)]
pub fn is_missing(value: u64) -> (r: bool)
    ensures
        r == spec_is_missing(value),
{
    is_nan(value) || value == MAX_FINITE
}

/// Whether a sum of weights allows a mean to be taken: it is above zero.
pub open spec fn spec_has_weight(weights: u64) -> bool {
    spec_lt(ZERO, weights)
}

#[verifier::when_used_as_spec(spec_has_weight)]
pub fn has_weight(weights: u64) -> (r: bool)
    ensures
        r == spec_has_weight(weights),
{
    lt(ZERO, weights)
}

/// The values of a variable that holds no null.
pub open spec fn values_of(var: Seq<Option<u64>>) -> Seq<u64> {
    Seq::new(
        var.len(),
        |i: int|
            match var[i] {
                Some(v) => v,
                None => ZERO,
            },
    )
}

/// Whether a variable holds a null.
pub open spec fn has_null(var: Seq<Option<u64>>) -> bool {
    exists|i: int| 0 <= i < var.len() && #[trigger] var[i] is None
}

/// The term of one candidate.
pub open spec fn term_of(
    tensive: Tensive,
    share: Share,
    source_lens: Seq<u64>,
    target_len: u64,
    values: Seq<u64>,
) -> TermView {
    TermView {
        source_index: share.source_index,
        parts: share.parts,
        length: match tensive {
            Tensive::Ex => source_lens[share.source_index as int],
            Tensive::In => target_len,
        },
        value: values[share.source_index as int],
    }
}

/// The terms of one target feature: one for each of its candidates whose
/// value is not missing, in the order of the candidates.
pub open spec fn terms(
    tensive: Tensive,
    list: Seq<Share>,
    source_lens: Seq<u64>,
    target_len: u64,
    values: Seq<u64>,
) -> Seq<TermView>
    decreases list.len(),
{
    if list.len() == 0 {
        Seq::empty()
    } else {
        let front = terms(tensive, list.drop_last(), source_lens, target_len, values);
        if spec_is_missing(values[list.last().source_index as int]) {
            front
        } else {
            front.push(term_of(tensive, list.last(), source_lens, target_len, values))
        }
    }
}

/// The terms of every target feature. A target feature without candidates
/// has none.
pub open spec fn plan(
    tensive: Tensive,
    store: Map<usize, Seq<Share>>,
    source_lens: Seq<u64>,
    target_lens: Seq<u64>,
    values: Seq<u64>,
) -> Seq<Seq<TermView>> {
    Seq::new(
        target_lens.len(),
        |j: int|
            terms(tensive, candidates_of(store, j as usize), source_lens, target_lens[j], values),
    )
}

/// Where no candidate has a missing value, the terms are the candidates one
/// for one: the term of a candidate holds its shared lengths, the value of
/// its source feature, and the length of that source feature for the
/// extensive sum, of the target feature for the intensive mean.
pub proof fn lemma_terms_of_present_values(
    tensive: Tensive,
    list: Seq<Share>,
    source_lens: Seq<u64>,
    target_len: u64,
    values: Seq<u64>,
)
    requires
        forall|k: int|
            0 <= k < list.len() ==> !spec_is_missing(
                values[(#[trigger] list[k]).source_index as int],
            ),
    ensures
        terms(tensive, list, source_lens, target_len, values).len() == list.len(),
        forall|k: int|
            0 <= k < list.len() ==> #[trigger] terms(
                tensive,
                list,
                source_lens,
                target_len,
                values,
            )[k] == term_of(tensive, list[k], source_lens, target_len, values),
    decreases list.len(),
{
    if list.len() > 0 {
        let front = list.drop_last();
        assert forall|k: int| 0 <= k < front.len() implies !spec_is_missing(
            values[(#[trigger] front[k]).source_index as int],
        ) by {
            assert(front[k] == list[k]);
        }
        lemma_terms_of_present_values(tensive, front, source_lens, target_len, values);
        assert(list[list.len() - 1] == list.last());
    }
}

/// A list of candidates without the candidate of one source feature.
pub open spec fn without(list: Seq<Share>, source: usize) -> Seq<Share>
    decreases list.len(),
{
    if list.len() == 0 {
        Seq::empty()
    } else if list.last().source_index == source {
        without(list.drop_last(), source)
    } else {
        without(list.drop_last(), source).push(list.last())
    }
}

/// Taking a source feature away from a list that does not mention it
/// changes nothing.
pub proof fn lemma_without_absent(list: Seq<Share>, source: usize)
    requires
        !mentions(list, source),
    ensures
        without(list, source) == list,
    decreases list.len(),
{
    if list.len() > 0 {
        assert(list[list.len() - 1].source_index != source);
        assert(!mentions(list.drop_last(), source)) by {
            if mentions(list.drop_last(), source) {
                let k = choose|k: int|
                    0 <= k < list.drop_last().len() && #[trigger] list.drop_last()[k].source_index
                        == source;
                assert(list[k].source_index == source);
            }
        }
        lemma_without_absent(list.drop_last(), source);
        assert(list.drop_last().push(list.last()) =~= list);
    } else {
        assert(list =~= Seq::empty());
    }
}

/// A missing value takes its source feature out of every sum, and changes
/// nothing else: with the value of `source` replaced by one that counts as
/// missing, the terms of a target feature are those that its other
/// candidates give with the values as they were.
pub proof fn lemma_missing_value_is_skipped(
    tensive: Tensive,
    list: Seq<Share>,
    source_lens: Seq<u64>,
    target_len: u64,
    values: Seq<u64>,
    source: usize,
    missing: u64,
)
    requires
        source < values.len(),
        spec_is_missing(missing),
        forall|k: int| 0 <= k < list.len() ==> (#[trigger] list[k]).source_index < values.len(),
    ensures
        terms(tensive, list, source_lens, target_len, values.update(source as int, missing))
            == terms(tensive, without(list, source), source_lens, target_len, values),
        !mentions(list, source) ==> terms(
            tensive,
            list,
            source_lens,
            target_len,
            values.update(source as int, missing),
        ) == terms(tensive, list, source_lens, target_len, values),
    decreases list.len(),
{
    if list.len() > 0 {
        let front = list.drop_last();
        assert forall|k: int| 0 <= k < front.len() implies (#[trigger] front[k]).source_index
            < values.len() by {
            assert(front[k] == list[k]);
        }
        lemma_missing_value_is_skipped(
            tensive,
            front,
            source_lens,
            target_len,
            values,
            source,
            missing,
        );
        assert(list[list.len() - 1].source_index < values.len());
        if list.last().source_index != source {
            assert(without(list, source).drop_last() =~= without(front, source));
        }
    }
    if !mentions(list, source) {
        lemma_without_absent(list, source);
    }
}

/// The same of a whole interpolation: with the value of `source` replaced
/// by one that counts as missing, the terms of every target feature are
/// those that its other candidates give, and a target feature that has no
/// candidate of `source` keeps its terms.
pub proof fn lemma_missing_value_in_plan(
    tensive: Tensive,
    store: Map<usize, Seq<Share>>,
    source_lens: Seq<u64>,
    target_lens: Seq<u64>,
    values: Seq<u64>,
    source: usize,
    missing: u64,
    target: usize,
)
    requires
        confined(store, values.len(), target_lens.len()),
        source < values.len(),
        target < target_lens.len(),
        spec_is_missing(missing),
    ensures
        plan(tensive, store, source_lens, target_lens, values.update(source as int, missing))[target as int]
            == terms(
            tensive,
            without(candidates_of(store, target), source),
            source_lens,
            target_lens[target as int],
            values,
        ),
        !mentions(candidates_of(store, target), source) ==> plan(
            tensive,
            store,
            source_lens,
            target_lens,
            values.update(source as int, missing),
        )[target as int] == plan(tensive, store, source_lens, target_lens, values)[target as int],
{
    lemma_missing_value_is_skipped(
        tensive,
        candidates_of(store, target),
        source_lens,
        target_lens[target as int],
        values,
        source,
        missing,
    );
}

/// The terms of a list of candidates.
fn terms_of_list(
    tensive: Tensive,
    list: &Vec<MatchCandidate>,
    source_lens: &Vec<u64>,
    target_len: u64,
    values: &Vec<u64>,
) -> (r: Vec<Term>)
    requires
        values.len() == source_lens.len(),
        forall|k: int| 0 <= k < list.len() ==> (#[trigger] list[k]).source_index < values.len(),
    ensures
        term_views(r@) == terms(
            tensive,
            shares(list@),
            source_lens@,
            target_len,
            values@,
        ),
{
    let ghost all = shares(list@);
    let mut out: Vec<Term> = Vec::new();
    let mut k: usize = 0;
    assert(term_views(out@) =~= Seq::<TermView>::empty());
    while k < list.len()
        invariant
            k <= list.len(),
            all == shares(list@),
            values.len() == source_lens.len(),
            forall|i: int| 0 <= i < list.len() ==> (#[trigger] list[i]).source_index < values.len(),
            term_views(out@) == terms(tensive, all.take(k as int), source_lens@, target_len, values@),
        decreases list.len() - k,
    {
        let candidate = &list[k];
        let value: u64 = values[candidate.source_index];
        proof {
            assert(all.take(k + 1).drop_last() =~= all.take(k as int));
            assert(all.take(k + 1).last() == candidate@);
        }
        if !is_missing(value) {
            let length: u64 = match tensive {
                Tensive::Ex => source_lens[candidate.source_index],
                Tensive::In => target_len,
            };
            let ghost before = out@;
            out.push(
                Term {
                    source_index: candidate.source_index,
                    shared_lens: candidate.shared_lens.clone(),
                    length,
                    value,
                },
            );
            assert(term_views(out@) =~= term_views(before).push(
                term_of(tensive, candidate@, source_lens@, target_len, values@),
            ));
        }
        k += 1;
    }
    assert(all.take(k as int) =~= all);
    out
}

impl Anime {
    /// The terms of an interpolation, for every target feature.
    ///
    /// The variable holds one value for each source feature, `None` for a
    /// null. The result holds one list of terms for each target feature.
    pub fn interpolate(&self, var: &Vec<Option<u64>>, tensive: Tensive) -> (r: Result<
        Vec<Vec<Term>>,
        AnimeError,
    >)
        requires
            self.wf(),
        ensures
            r matches Err(e) ==> !(e is AlreadyMatched),
            r matches Err(AnimeError::IncorrectLength) <==> var.len() != self.source_lens().len(),
            r matches Err(AnimeError::ContainsNull) <==> var.len() == self.source_lens().len()
                && has_null(var@),
            r matches Err(AnimeError::MatchesNotFound) <==> var.len() == self.source_lens().len()
                && !has_null(var@) && self.store() is None,
            r matches Ok(p) ==> p.len() == self.target_lens().len() && plan_views(p@) == plan(
                tensive,
                self.store()->0,
                self.source_lens()@,
                self.target_lens()@,
                values_of(var@),
            ),
    {
        let source_lens = self.source_lens();
        let target_lens = self.target_lens();
        if var.len() != source_lens.len() {
            return Err(AnimeError::IncorrectLength);
        }
        let mut values: Vec<u64> = Vec::new();
        let mut i: usize = 0;
        while i < var.len()
            invariant
                i <= var.len(),
                var.len() == source_lens.len(),
                source_lens == self.source_lens(),
                values.len() == i,
                forall|k: int|
                    0 <= k < i ==> (#[trigger] var@[k]) is Some && values@[k] == var@[k]->0,
            decreases var.len() - i,
        {
            match var[i] {
                Some(v) => {
                    values.push(v);
                },
                None => {
                    assert(var@[i as int] is None);
                    return Err(AnimeError::ContainsNull);
                },
            }
            i += 1;
        }
        assert(values@ =~= values_of(var@));
        assert(!has_null(var@));
        let matches: &MatchesMap = match self.matches() {
            Some(m) => m,
            None => {
                return Err(AnimeError::MatchesNotFound);
            },
        };
        proof {
            self.lemma_store();
        }
        let ghost store = self.store()->0;
        let ghost wanted = plan(tensive, store, source_lens@, target_lens@, values@);
        let mut out: Vec<Vec<Term>> = Vec::new();
        let mut j: usize = 0;
        while j < target_lens.len()
            invariant
                j <= target_lens.len(),
                values.len() == source_lens.len(),
                matches@ == store,
                matches.wf(),
                confined(store, source_lens@.len(), target_lens@.len()),
                wanted == plan(tensive, store, source_lens@, target_lens@, values@),
                out.len() == j,
                forall|t: int| 0 <= t < j ==> term_views(#[trigger] out[t]@) == wanted[t],
            decreases target_lens.len() - j,
        {
            let target_len: u64 = target_lens[j];
            let found: Vec<Term> = match matches.get(&j) {
                Some(list) => {
                    assert forall|k: int| 0 <= k < list.len() implies (
                    #[trigger] list[k]).source_index < values.len() by {
                        assert(store[j][k].source_index < source_lens@.len());
                        assert(shares(list@)[k] == list[k]@);
                    }
                    terms_of_list(tensive, list, source_lens, target_len, &values)
                },
                None => {
                    let none: Vec<Term> = Vec::new();
                    assert(term_views(none@) =~= Seq::<TermView>::empty());
                    none
                },
            };
            out.push(found);
            j += 1;
        }
        assert(plan_views(out@) =~= wanted);
        Ok(out)
    }

    /// The terms of the extensive interpolation: to each target feature,
    /// its candidates whose value is not missing, each weighted by the
    /// shared length over the length of the source feature.
    pub fn interpolate_extensive(&self, source_var: &Vec<Option<u64>>) -> (r: Result<
        Vec<Vec<Term>>,
        AnimeError,
    >)
        requires
            self.wf(),
        ensures
            r matches Err(e) ==> !(e is AlreadyMatched),
            r matches Err(AnimeError::IncorrectLength) <==> source_var.len()
                != self.source_lens().len(),
            r matches Err(AnimeError::ContainsNull) <==> source_var.len()
                == self.source_lens().len() && has_null(source_var@),
            r matches Err(AnimeError::MatchesNotFound) <==> source_var.len()
                == self.source_lens().len() && !has_null(source_var@) && self.store() is None,
            r matches Ok(p) ==> p.len() == self.target_lens().len() && plan_views(p@) == plan(
                Tensive::Ex,
                self.store()->0,
                self.source_lens()@,
                self.target_lens()@,
                values_of(source_var@),
            ),
    {
        self.interpolate(source_var, Tensive::Ex)
    }

    /// The terms of the intensive interpolation: to each target feature,
    /// its candidates whose value is not missing, each weighted by the
    /// shared length over the length of the target feature. The mean of a
    /// target feature is the sum of its terms over the sum of their weights
    /// where that sum has weight, and zero otherwise.
    pub fn interpolate_intensive(&self, source_var: &Vec<Option<u64>>) -> (r: Result<
        Vec<Vec<Term>>,
        AnimeError,
    >)
        requires
            self.wf(),
        ensures
            r matches Err(e) ==> !(e is AlreadyMatched),
            r matches Err(AnimeError::IncorrectLength) <==> source_var.len()
                != self.source_lens().len(),
            r matches Err(AnimeError::ContainsNull) <==> source_var.len()
                == self.source_lens().len() && has_null(source_var@),
            r matches Err(AnimeError::MatchesNotFound) <==> source_var.len()
                == self.source_lens().len() && !has_null(source_var@) && self.store() is None,
            r matches Ok(p) ==> p.len() == self.target_lens().len() && plan_views(p@) == plan(
                Tensive::In,
                self.store()->0,
                self.source_lens()@,
                self.target_lens()@,
                values_of(source_var@),
            ),
    {
        self.interpolate(source_var, Tensive::In)
    }
}

} // verus!
