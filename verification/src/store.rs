//! The match store: for each target feature, the source features that were
//! matched to it, with the lengths they share.
use std::collections::BTreeMap;
use vstd::prelude::*;
use vstd::std_specs::btree::{
    axiom_increasing_seq_meaning, axiom_spec_keys_iter, increasing_seq, spec_keys_iter,
};
use vstd::std_specs::cmp::OrdSpec;
use vstd::std_specs::iter::IteratorSpec;

verus! {

/// What a match candidate stands for: a source feature and the lengths that
/// it shares with one target feature, one for each pair of segments that
/// matched, in the order in which they were found.
pub struct Share {
    pub source_index: usize,
    pub parts: Seq<u64>,
}

/// A partial match between a source feature and a target feature.
///
/// Every pair of segments of the two features that matched has added one
/// length, a binary64 bit pattern, to `shared_lens`. The shared length of the
/// two features is the sum of these lengths, taken from the first to the last.
#[derive(Debug)]
pub struct MatchCandidate {
    /// The index of the source feature.
    pub source_index: usize,
    /// The lengths shared by the pairs of segments, as they were found.
    pub shared_lens: Vec<u64>,
}

impl View for MatchCandidate {
    type V = Share;

    open spec fn view(&self) -> Share {
        Share { source_index: self.source_index, parts: self.shared_lens@ }
    }
}

impl Clone for MatchCandidate {
    fn clone(&self) -> (r: Self)
        ensures
            r@ == self@,
    {
        MatchCandidate { source_index: self.source_index, shared_lens: self.shared_lens.clone() }
    }
}

/// The shares that a list of candidates stands for.
pub open spec fn shares(list: Seq<MatchCandidate>) -> Seq<Share> {
    list.map_values(|c: MatchCandidate| c@)
}

/// Whether some share of `list` is of the source feature `source`.
pub open spec fn mentions(list: Seq<Share>, source: usize) -> bool {
    exists|k: int| 0 <= k < list.len() && #[trigger] list[k].source_index == source
}

/// The place of the first share of `source` in `list`, where there is one.
pub open spec fn position(list: Seq<Share>, source: usize) -> int {
    choose|k: int|
        0 <= k < list.len() && #[trigger] list[k].source_index == source && forall|i: int|
            0 <= i < k ==> #[trigger] list[i].source_index != source
}

/// No two shares of `list` are of the same source feature, and each share
/// holds at least one length.
pub open spec fn distinct(list: Seq<Share>) -> bool {
    &&& forall|a: int, b: int|
        0 <= a < b < list.len() ==> #[trigger] list[a].source_index
            != #[trigger] list[b].source_index
    &&& forall|a: int| 0 <= a < list.len() ==> (#[trigger] list[a]).parts.len() > 0
}

/// The list after one more length was found for `source`: the length joins
/// the share of that source where the list has one, and otherwise a new share
/// with this one length is put at the end.
pub open spec fn recorded(list: Seq<Share>, source: usize, len: u64) -> Seq<Share> {
    if mentions(list, source) {
        let k = position(list, source);
        list.update(k, Share { source_index: source, parts: list[k].parts.push(len) })
    } else {
        list.push(Share { source_index: source, parts: seq![len] })
    }
}

/// The candidates of `target` in a store, none where the store has no such key.
pub open spec fn candidates_of(store: Map<usize, Seq<Share>>, target: usize) -> Seq<Share> {
    if store.contains_key(target) {
        store[target]
    } else {
        Seq::empty()
    }
}

/// The store after one more length was found for the pair of `target` and
/// `source`.
pub open spec fn recorded_in(
    store: Map<usize, Seq<Share>>,
    target: usize,
    source: usize,
    len: u64,
) -> Map<usize, Seq<Share>> {
    store.insert(target, recorded(candidates_of(store, target), source, len))
}

/// What holds of every store: a key has at least one candidate, no two
/// candidates of a key are of the same source feature, and every candidate
/// holds at least one length.
pub open spec fn sound(store: Map<usize, Seq<Share>>) -> bool {
    forall|j: usize| #[trigger]
        store.contains_key(j) ==> store[j].len() > 0 && distinct(store[j])
}

/// `position` is the least place at which `list` has a share of `source`.
pub proof fn lemma_position(list: Seq<Share>, source: usize)
    requires
        mentions(list, source),
    ensures
        0 <= position(list, source) < list.len(),
        list[position(list, source)].source_index == source,
        forall|i: int| 0 <= i < position(list, source) ==> list[i].source_index != source,
{
    let w = choose|k: int| 0 <= k < list.len() && #[trigger] list[k].source_index == source;
    lemma_least(list, source, w);
}

proof fn lemma_least(list: Seq<Share>, source: usize, w: int)
    requires
        0 <= w < list.len(),
        list[w].source_index == source,
    ensures
        exists|k: int|
            0 <= k < list.len() && #[trigger] list[k].source_index == source && forall|i: int|
                0 <= i < k ==> #[trigger] list[i].source_index != source,
    decreases w,
{
    if exists|i: int| 0 <= i < w && #[trigger] list[i].source_index == source {
        let i = choose|i: int| 0 <= i < w && #[trigger] list[i].source_index == source;
        lemma_least(list, source, i);
    } else {
        assert(0 <= w < list.len() && list[w].source_index == source && forall|i: int|
            0 <= i < w ==> #[trigger] list[i].source_index != source);
    }
}

/// Recording a length keeps a list distinct. It changes the share of
/// `source` alone, and the order of the shares that were there stays.
pub proof fn lemma_recorded(list: Seq<Share>, source: usize, len: u64)
    requires
        distinct(list),
    ensures
        distinct(recorded(list, source, len)),
        mentions(recorded(list, source, len), source),
        recorded(list, source, len).len() == list.len() + if mentions(list, source) {
            0int
        } else {
            1int
        },
        forall|k: int|
            0 <= k < list.len() ==> (#[trigger] recorded(list, source, len)[k]).source_index
                == list[k].source_index,
        forall|k: int|
            0 <= k < list.len() && list[k].source_index != source ==> #[trigger] recorded(
                list,
                source,
                len,
            )[k] == list[k],
        forall|other: usize|
            other != source ==> (mentions(recorded(list, source, len), other) <==> mentions(
                list,
                other,
            )),
{
    let after = recorded(list, source, len);
    if mentions(list, source) {
        lemma_position(list, source);
        let p = position(list, source);
        assert(after[p].source_index == source);
    } else {
        assert(after[list.len() as int].source_index == source);
    }
    assert forall|other: usize| other != source implies (mentions(after, other) <==> mentions(
        list,
        other,
    )) by {
        if mentions(after, other) {
            let k = choose|k: int| 0 <= k < after.len() && #[trigger] after[k].source_index == other;
            assert(list[k].source_index == other);
        }
        if mentions(list, other) {
            let k = choose|k: int| 0 <= k < list.len() && #[trigger] list[k].source_index == other;
            assert(after[k].source_index == other);
        }
    }
}

/// The lengths that a list holds for `source`, none where it has no share of
/// that source.
pub open spec fn parts_of(list: Seq<Share>, source: usize) -> Seq<u64> {
    if mentions(list, source) {
        list[position(list, source)].parts
    } else {
        Seq::empty()
    }
}

/// The lengths that a store holds for the pair of `target` and `source`.
pub open spec fn lengths(store: Map<usize, Seq<Share>>, target: usize, source: usize) -> Seq<u64> {
    parts_of(candidates_of(store, target), source)
}

/// Recording a length puts it behind the lengths that the list holds for
/// `source`, and leaves the lengths of every other source as they are.
pub proof fn lemma_recorded_parts(list: Seq<Share>, source: usize, len: u64, other: usize)
    requires
        distinct(list),
    ensures
        parts_of(recorded(list, source, len), source) == parts_of(list, source).push(len),
        other != source ==> parts_of(recorded(list, source, len), other) == parts_of(list, other),
{
    let after = recorded(list, source, len);
    lemma_recorded(list, source, len);
    lemma_position(after, source);
    if mentions(list, source) {
        lemma_position(list, source);
        let p = position(list, source);
        assert(after[p].source_index == source);
        assert(position(after, source) == p);
    } else {
        assert(after[list.len() as int].source_index == source);
        assert(position(after, source) == list.len());
        assert(seq![len] =~= Seq::<u64>::empty().push(len));
    }
    if other != source && mentions(list, other) {
        lemma_position(list, other);
        lemma_position(after, other);
        let q = position(list, other);
        assert(after[q] == list[q]);
        let r = position(after, other);
        assert(list[r].source_index == after[r].source_index);
        assert(r == q);
    }
}

/// Recording a length moves no share: a source that the list mentions keeps
/// its place, and a source that it does not mention takes the place behind
/// the last.
pub proof fn lemma_recorded_places(list: Seq<Share>, source: usize, len: u64, other: usize)
    requires
        distinct(list),
        mentions(recorded(list, source, len), other),
    ensures
        mentions(list, other) ==> position(recorded(list, source, len), other) == position(
            list,
            other,
        ),
        !mentions(list, other) ==> other == source && position(
            recorded(list, source, len),
            other,
        ) == list.len(),
{
    let after = recorded(list, source, len);
    lemma_recorded(list, source, len);
    lemma_position(after, other);
    let r = position(after, other);
    if mentions(list, other) {
        lemma_position(list, other);
        let q = position(list, other);
        assert(after[q].source_index == other);
        if r < list.len() {
            assert(list[r].source_index == after[r].source_index);
        }
    } else {
        if r < list.len() {
            assert(list[r].source_index == after[r].source_index);
        }
    }
}

/// Whether a store holds a candidate of `source` under `target`.
pub open spec fn paired(store: Map<usize, Seq<Share>>, target: usize, source: usize) -> bool {
    store.contains_key(target) && mentions(store[target], source)
}

/// Recording a length keeps a store sound.
pub proof fn lemma_recorded_in(store: Map<usize, Seq<Share>>, target: usize, source: usize, len: u64)
    requires
        sound(store),
    ensures
        sound(recorded_in(store, target, source, len)),
        paired(recorded_in(store, target, source, len), target, source),
        forall|j: usize, i: usize|
            (j != target || i != source) ==> (paired(
                recorded_in(store, target, source, len),
                j,
                i,
            ) <==> paired(store, j, i)),
{
    let list = candidates_of(store, target);
    lemma_recorded(list, source, len);
    let after = recorded_in(store, target, source, len);
    assert forall|j: usize, i: usize| (j != target || i != source) implies (paired(after, j, i)
        <==> paired(store, j, i)) by {
        if j == target {
            if !store.contains_key(target) {
                assert(!mentions(list, i));
            }
        }
    }
}

/// The index of a target feature.
pub type TargetIndex = usize;

/// The match store: to each target feature that was matched, the candidates
/// that were found for it, in the order in which they were first found.
///
/// A target feature is a key of the store exactly when it has at least one
/// candidate; the keys are read in ascending order.
#[derive(Debug)]
pub struct MatchesMap {
    map: BTreeMap<TargetIndex, Vec<MatchCandidate>>,
}

impl View for MatchesMap {
    type V = Map<usize, Seq<Share>>;

    closed spec fn view(&self) -> Map<usize, Seq<Share>> {
        self.map@.map_values(|list: Vec<MatchCandidate>| shares(list@))
    }
}

/// The keys of a map come out of it in ascending order.
proof fn lemma_keys_ascend(keys: Seq<&usize>)
    requires
        increasing_seq(keys),
    ensures
        forall|a: int, b: int| 0 <= a < b < keys.len() ==> *keys[a] < *keys[b],
{
    broadcast use vstd::laws_cmp::group_laws_cmp;

    axiom_increasing_seq_meaning::<&usize>(keys);
    assert forall|a: int, b: int| 0 <= a < b < keys.len() implies *keys[a] < *keys[b] by {
        let x: &usize = keys[a];
        let y: &usize = keys[b];
        assert(OrdSpec::cmp_spec(&x, &y) is Less);
    }
}

impl MatchesMap {
    /// The invariant of the store's representation.
    pub closed spec fn wf(&self) -> bool {
        forall|j: usize| #[trigger]
            self.map@.contains_key(j) ==> self.map@[j].len() > 0 && distinct(
                shares(self.map@[j]@),
            )
    }

    /// A well-formed store stands for a sound map.
    pub proof fn lemma_sound(&self)
        requires
            self.wf(),
        ensures
            sound(self@),
    {
        assert forall|j: usize| #[trigger] self@.contains_key(j) implies self@[j].len() > 0
            && distinct(self@[j]) by {
            assert(self.map@.contains_key(j));
        }
    }

    /// The empty store.
    pub fn new() -> (r: Self)
        ensures
            r.wf(),
            r@ == Map::<usize, Seq<Share>>::empty(),
    {
        let r = MatchesMap { map: BTreeMap::new() };
        assert(r@ =~= Map::<usize, Seq<Share>>::empty());
        r
    }

    /// Whether `target` has candidates.
    pub fn contains_key(&self, target: &usize) -> (r: bool)
        ensures
            r == self@.contains_key(*target),
    {
        self.map.contains_key(target)
    }

    /// The candidates of `target`, where it has any.
    pub fn get(&self, target: &usize) -> (r: Option<&Vec<MatchCandidate>>)
        ensures
            r is Some == self@.contains_key(*target),
            r is Some ==> shares(r->0@) == self@[*target],
            self.wf() && r is Some ==> r->0@.len() > 0 && distinct(shares(r->0@)),
    {
        self.map.get(target)
    }

    /// The number of targets that have candidates.
    pub fn len(&self) -> (r: usize)
        ensures
            r == self@.dom().len(),
    {
        let r = self.map.len();
        assert(self@.dom() =~= self.map@.dom());
        r
    }

    /// Whether no target has candidates.
    pub fn is_empty(&self) -> (r: bool)
        ensures
            r == self@.dom().is_empty(),
    {
        let r = self.map.is_empty();
        assert(self@.dom() =~= self.map@.dom());
        r
    }

    /// The targets that have candidates, in ascending order.
    pub fn keys(&self) -> (r: Vec<usize>)
        ensures
            forall|a: int, b: int| 0 <= a < b < r.len() ==> r[a] < r[b],
            forall|j: usize| r@.contains(j) <==> self@.contains_key(j),
    {
        let mut r: Vec<usize> = Vec::new();
        let ghost all = spec_keys_iter(&self.map).remaining();
        for key in it: self.map.keys()
            invariant
                it.seq() == all,
                r@ == all.take(it.index()).unref(),
        {
            r.push(*key);
        }
        proof {
            axiom_spec_keys_iter(&self.map);
            assert(r@ == all.unref());
            assert(r@.to_set() == self.map@.dom());
            lemma_keys_ascend(all);
        }
        r
    }

    /// Records one more length for the pair of `target` and `source`.
    ///
    /// The length joins the candidate of `source` under `target` where there
    /// is one. Otherwise a new candidate is put behind those that `target`
    /// has, and `target` becomes a key if it was none.
    pub fn record(&mut self, target: usize, source: usize, len: u64)
        requires
            old(self).wf(),
        ensures
            final(self).wf(),
            final(self)@ == recorded_in(old(self)@, target, source, len),
    {
        let mut list: Vec<MatchCandidate> = match self.map.remove(&target) {
            Some(held) => held,
            None => Vec::new(),
        };
        let ghost before = shares(list@);
        assert(before == candidates_of(old(self)@, target)) by {
            if !old(self)@.contains_key(target) {
                assert(before =~= Seq::<Share>::empty());
            }
        }
        let n: usize = list.len();
        let mut k: usize = 0;
        while k < n
            invariant
                n == list.len(),
                before == shares(list@),
                k <= n,
                forall|i: int| 0 <= i < k ==> before[i].source_index != source,
            ensures
                k <= n,
                k < n ==> before[k as int].source_index == source,
                forall|i: int| 0 <= i < k ==> before[i].source_index != source,
            decreases n - k,
        {
            if list[k].source_index == source {
                break ;
            }
            k += 1;
        }
        if k < n {
            proof {
                assert(before[k as int].source_index == source);
                lemma_position(before, source);
                assert(position(before, source) == k);
            }
            list[k].shared_lens.push(len);
        } else {
            assert(!mentions(before, source));
            let mut parts: Vec<u64> = Vec::new();
            parts.push(len);
            list.push(MatchCandidate { source_index: source, shared_lens: parts });
        }
        proof {
            lemma_recorded(before, source, len);
            assert(shares(list@) =~= recorded(before, source, len));
        }
        self.map.insert(target, list);
        assert(self@ =~= recorded_in(old(self)@, target, source, len));
    }
}

impl Clone for MatchesMap {
    fn clone(&self) -> (r: Self)
        ensures
            r@ == self@,
            self.wf() ==> r.wf(),
    {
        MatchesMap { map: self.map.clone() }
    }
}

} // verus!
