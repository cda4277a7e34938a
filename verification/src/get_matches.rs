//! The matches as a table: one row for each candidate.
use crate::engine::{confined, Anime, AnimeError};
use crate::store::{candidates_of, shares, MatchCandidate, MatchesMap, Share};
use vstd::prelude::*;

verus! {

/// What a row stands for.
pub struct RowView {
    pub source_id: i32,
    pub target_id: i32,
    pub parts: Seq<u64>,
    pub source_len: u64,
    pub target_len: u64,
}

/// One row of the table of matches.
///
/// The shared length of the row is the sum of `shared_lens`, taken from the
/// first to the last. Divided by `source_len` it is the weight of the match
/// on the side of the source feature; divided by `target_len`, on the side
/// of the target feature.
#[derive(Debug)]
pub struct MatchRow {
    /// The index of the source feature, from zero.
    pub source_id: i32,
    /// The index of the target feature, from zero.
    pub target_id: i32,
    /// The lengths that the two features share.
    pub shared_lens: Vec<u64>,
    /// The length of the source feature.
    pub source_len: u64,
    /// The length of the target feature.
    pub target_len: u64,
}

impl View for MatchRow {
    type V = RowView;

    open spec fn view(&self) -> RowView {
        RowView {
            source_id: self.source_id,
            target_id: self.target_id,
            parts: self.shared_lens@,
            source_len: self.source_len,
            target_len: self.target_len,
        }
    }
}

/// What a list of rows stands for.
pub open spec fn row_views(rows: Seq<MatchRow>) -> Seq<RowView> {
    rows.map_values(|r: MatchRow| r@)
}

/// The row of one candidate of the target feature `target`.
pub open spec fn row_of(
    target: usize,
    share: Share,
    source_lens: Seq<u64>,
    target_lens: Seq<u64>,
) -> RowView {
    RowView {
        source_id: share.source_index as i32,
        target_id: target as i32,
        parts: share.parts,
        source_len: source_lens[share.source_index as int],
        target_len: target_lens[target as int],
    }
}

/// The rows of the candidates of the target feature `target`, in the order
/// of the candidates.
pub open spec fn rows_of(
    target: usize,
    list: Seq<Share>,
    source_lens: Seq<u64>,
    target_lens: Seq<u64>,
) -> Seq<RowView> {
    Seq::new(list.len(), |k: int| row_of(target, list[k], source_lens, target_lens))
}

/// The rows of the target features below `targets`: those of the least key
/// first, and under each key the candidates in their order.
pub open spec fn rows(
    store: Map<usize, Seq<Share>>,
    source_lens: Seq<u64>,
    target_lens: Seq<u64>,
    targets: nat,
) -> Seq<RowView>
    decreases targets,
{
    if targets == 0 {
        Seq::empty()
    } else {
        let target = (targets - 1) as usize;
        rows(store, source_lens, target_lens, (targets - 1) as nat) + rows_of(
            target,
            candidates_of(store, target),
            source_lens,
            target_lens,
        )
    }
}

/// The number of candidates of the target features below `targets`.
pub open spec fn count(store: Map<usize, Seq<Share>>, targets: nat) -> nat
    decreases targets,
{
    if targets == 0 {
        0
    } else {
        count(store, (targets - 1) as nat) + candidates_of(store, (targets - 1) as usize).len()
    }
}

/// The number of rows is the number of candidates.
pub proof fn lemma_rows_len(
    store: Map<usize, Seq<Share>>,
    source_lens: Seq<u64>,
    target_lens: Seq<u64>,
    targets: nat,
)
    ensures
        rows(store, source_lens, target_lens, targets).len() == count(store, targets),
    decreases targets,
{
    if targets > 0 {
        lemma_rows_len(store, source_lens, target_lens, (targets - 1) as nat);
    }
}

/// The rows come in order of the target feature: of two rows, the earlier is
/// of a key that is not greater.
pub proof fn lemma_rows_are_ordered(
    store: Map<usize, Seq<Share>>,
    source_lens: Seq<u64>,
    target_lens: Seq<u64>,
    targets: nat,
)
    requires
        targets <= i32::MAX,
    ensures
        forall|a: int, b: int|
            0 <= a <= b < rows(store, source_lens, target_lens, targets).len() ==> rows(
                store,
                source_lens,
                target_lens,
                targets,
            )[a].target_id <= rows(store, source_lens, target_lens, targets)[b].target_id,
        forall|a: int|
            0 <= a < rows(store, source_lens, target_lens, targets).len() ==> 0 <= (#[trigger] rows(
                store,
                source_lens,
                target_lens,
                targets,
            )[a]).target_id < targets,
    decreases targets,
{
    if targets > 0 {
        lemma_rows_are_ordered(store, source_lens, target_lens, (targets - 1) as nat);
        let target = (targets - 1) as usize;
        let front = rows(store, source_lens, target_lens, (targets - 1) as nat);
        let back = rows_of(target, candidates_of(store, target), source_lens, target_lens);
        let all = rows(store, source_lens, target_lens, targets);
        assert(0 <= target as i32 && (target as i32) as usize == target) by (bit_vector)
            requires
                target <= 0x7fff_ffffusize,
        ;
        assert forall|a: int| 0 <= a < all.len() implies 0 <= (#[trigger] all[a]).target_id
            < targets by {
            if a < front.len() {
                assert(all[a] == front[a]);
            } else {
                assert(all[a] == back[a - front.len()]);
            }
        }
        assert forall|a: int, b: int| 0 <= a <= b < all.len() implies all[a].target_id
            <= all[b].target_id by {
            if b < front.len() {
                assert(all[a] == front[a]);
                assert(all[b] == front[b]);
            } else {
                assert(all[b] == back[b - front.len()]);
                if a < front.len() {
                    assert(all[a] == front[a]);
                } else {
                    assert(all[a] == back[a - front.len()]);
                }
            }
        }
    }
}

/// The rows of one list of candidates, put behind `out`.
fn push_rows(
    out: &mut Vec<MatchRow>,
    target: usize,
    list: &Vec<MatchCandidate>,
    source_lens: &Vec<u64>,
    target_lens: &Vec<u64>,
)
    requires
        target < target_lens.len(),
        forall|k: int|
            0 <= k < list.len() ==> (#[trigger] list[k]).source_index < source_lens.len(),
    ensures
        row_views(final(out)@) == row_views(old(out)@) + rows_of(
            target,
            shares(list@),
            source_lens@,
            target_lens@,
        ),
{
    let ghost wanted = rows_of(target, shares(list@), source_lens@, target_lens@);
    let ghost start = row_views(out@);
    let target_len: u64 = target_lens[target];
    let mut k: usize = 0;
    assert(row_views(out@) =~= start + wanted.take(0));
    while k < list.len()
        invariant
            k <= list.len(),
            target < target_lens.len(),
            target_len == target_lens[target as int],
            start == row_views(old(out)@),
            wanted == rows_of(target, shares(list@), source_lens@, target_lens@),
            forall|i: int|
                0 <= i < list.len() ==> (#[trigger] list[i]).source_index < source_lens.len(),
            row_views(out@) == start + wanted.take(k as int),
        decreases list.len() - k,
    {
        let candidate = &list[k];
        let ghost before = row_views(out@);
        out.push(
            MatchRow {
                source_id: #[verifier::truncate] (candidate.source_index as i32),
                target_id: #[verifier::truncate] (target as i32),
                shared_lens: candidate.shared_lens.clone(),
                source_len: source_lens[candidate.source_index],
                target_len,
            },
        );
        proof {
            assert(shares(list@)[k as int] == candidate@);
            assert(row_views(out@) =~= before.push(wanted[k as int]));
            assert(wanted.take(k + 1) =~= wanted.take(k as int).push(wanted[k as int]));
            assert(start + wanted.take(k + 1) =~= (start + wanted.take(k as int)).push(
                wanted[k as int],
            ));
        }
        k += 1;
    }
    assert(wanted.take(k as int) =~= wanted);
}

impl Anime {
    /// The table of matches: one row for each candidate, the target features
    /// in ascending order and the candidates of each in the order in which
    /// they were first found.
    ///
    /// Fails with `MatchesNotFound` before the matches were found.
    pub fn get_matches(&self) -> (r: Result<Vec<MatchRow>, AnimeError>)
        requires
            self.wf(),
        ensures
            match self.store() {
                Some(store) => r matches Ok(table) && row_views(table@) == rows(
                    store,
                    self.source_lens()@,
                    self.target_lens()@,
                    self.target_lens()@.len(),
                ),
                None => r matches Err(AnimeError::MatchesNotFound),
            },
    {
        let matches: &MatchesMap = match self.matches() {
            Some(m) => m,
            None => {
                return Err(AnimeError::MatchesNotFound);
            },
        };
        proof {
            self.lemma_store();
        }
        let source_lens = self.source_lens();
        let target_lens = self.target_lens();
        let ghost store = self.store()->0;
        let mut out: Vec<MatchRow> = Vec::new();
        let mut j: usize = 0;
        assert(row_views(out@) =~= rows(store, source_lens@, target_lens@, 0));
        while j < target_lens.len()
            invariant
                j <= target_lens.len(),
                matches@ == store,
                confined(store, source_lens@.len(), target_lens@.len()),
                row_views(out@) == rows(store, source_lens@, target_lens@, j as nat),
            decreases target_lens.len() - j,
        {
            match matches.get(&j) {
                Some(list) => {
                    assert forall|k: int| 0 <= k < list.len() implies (
                    #[trigger] list[k]).source_index < source_lens.len() by {
                        assert(store[j][k].source_index < source_lens@.len());
                        assert(shares(list@)[k] == list[k]@);
                    }
                    push_rows(&mut out, j, list, source_lens, target_lens);
                },
                None => {
                    assert(rows_of(j, candidates_of(store, j), source_lens@, target_lens@)
                        =~= Seq::<RowView>::empty());
                    assert(row_views(out@) + Seq::<RowView>::empty() =~= row_views(out@));
                },
            }
            j += 1;
        }
        Ok(out)
    }
}

} // verus!
