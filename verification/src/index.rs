//! The similarity search of the vector index: which rows are returned for a
//! query, and in which order.
//!
//! A row's similarity to the query is an integer here: the caller, who holds
//! the vectors, computes it, and only its order matters. A greater integer is
//! a greater similarity.

use crate::number::{decimal_digits, decimal_text};
use crate::prompt::{contents_of, TableContent};
use vstd::prelude::*;

verus! {

/// Why the index could not be opened or searched.
#[derive(Debug)]
pub enum StorageError {
    /// The collection cannot be reached; the storage's own words are kept.
    Unavailable(String),
    /// A vector of `found` components met a collection of `expected`.
    DimensionMismatch { expected: usize, found: usize },
}

/// The mathematical model of a [`StorageError`].
pub enum StorageFault {
    Unavailable(Seq<char>),
    DimensionMismatch { expected: usize, found: usize },
}

impl View for StorageError {
    type V = StorageFault;

    open spec fn view(&self) -> StorageFault {
        match self {
            StorageError::Unavailable(reason) => StorageFault::Unavailable(reason@),
            StorageError::DimensionMismatch { expected, found } => StorageFault::DimensionMismatch {
                expected: *expected,
                found: *found,
            },
        }
    }
}

impl StorageFault {
    /// The words in which the fault is reported.
    pub open spec fn description(self) -> Seq<char> {
        match self {
            StorageFault::Unavailable(reason) => "vector index unavailable: "@ + reason,
            StorageFault::DimensionMismatch { expected, found } => {
                "vector index expects dimension "@ + decimal_digits(expected as nat) + ", got "@
                    + decimal_digits(found as nat)
            },
        }
    }
}

impl StorageError {
    /// The words in which the error is reported.
    pub fn describe(&self) -> (text: String)
        ensures
            text@ == self@.description(),
    {
        match self {
            StorageError::Unavailable(reason) => {
                let mut text = String::from_str("vector index unavailable: ");
                text.append(reason.as_str());
                text
            },
            StorageError::DimensionMismatch { expected, found } => {
                let mut text = String::from_str("vector index expects dimension ");
                let wanted = decimal_text(*expected as u64);
                text.append(wanted.as_str());
                text.append(", got ");
                let given = decimal_text(*found as u64);
                text.append(given.as_str());
                text
            },
        }
    }
}

/// A stored row together with its similarity to the query at hand.
#[derive(Debug)]
pub struct ScoredRow {
    pub row: TableContent,
    pub similarity: i64,
}

/// The similarities of the rows, in the order in which the rows were inserted.
pub open spec fn similarities(rows: Seq<ScoredRow>) -> Seq<i64> {
    Seq::new(rows.len(), |i: int| rows[i].similarity)
}

/// Row `first` comes before row `second` in a result: it is more similar, or
/// as similar and inserted earlier.
pub open spec fn outranks(scores: Seq<i64>, first: int, second: int) -> bool {
    scores[first] > scores[second] || (scores[first] == scores[second] && first < second)
}

/// `position` is among `ranking`.
pub open spec fn ranked(ranking: Seq<int>, position: int) -> bool {
    exists|i: int| 0 <= i < ranking.len() && #[trigger] ranking[i] == position
}

/// `ranking` lists the positions of the `limit` most similar rows, from the
/// most to the least similar; of all the rows, where there are fewer.
pub open spec fn is_ranking(scores: Seq<i64>, limit: int, ranking: Seq<int>) -> bool {
    &&& ranking.len() == if limit <= scores.len() {
        limit
    } else {
        scores.len() as int
    }
    &&& forall|i: int| 0 <= i < ranking.len() ==> 0 <= #[trigger] ranking[i] < scores.len()
    &&& forall|i: int, j: int|
        0 <= i < j < ranking.len() ==> outranks(
            scores,
            #[trigger] ranking[i],
            #[trigger] ranking[j],
        )
    &&& forall|position: int, i: int|
        #![trigger ranked(ranking, position), ranking[i]]
        0 <= position < scores.len() && !ranked(ranking, position) && 0 <= i < ranking.len()
            ==> outranks(scores, ranking[i], position)
}

/// The ranking of the rows with these similarities, cut at `limit`.
pub open spec fn top_ranking(scores: Seq<i64>, limit: int) -> Seq<int> {
    choose|ranking: Seq<int>| is_ranking(scores, limit, ranking)
}

/// The contents of the rows at the positions of `ranking`, in that order.
pub open spec fn contents_at(rows: Seq<ScoredRow>, ranking: Seq<int>) -> Seq<Seq<char>> {
    Seq::new(ranking.len(), |i: int| rows[ranking[i]].row.content@)
}

/// Two rankings of the same rows with the same limit agree up to `upto`.
proof fn lemma_rankings_agree(
    scores: Seq<i64>,
    limit: int,
    first: Seq<int>,
    second: Seq<int>,
    upto: int,
)
    requires
        is_ranking(scores, limit, first),
        is_ranking(scores, limit, second),
        0 <= upto <= first.len(),
    ensures
        forall|i: int| 0 <= i < upto ==> first[i] == second[i],
    decreases upto,
{
    if upto > 0 {
        lemma_rankings_agree(scores, limit, first, second, upto - 1);
        let at = upto - 1;
        let a = first[at];
        let b = second[at];
        if a != b {
            if outranks(scores, a, b) {
                lemma_misplaced(scores, limit, first, second, at);
            } else {
                assert(outranks(scores, b, a));
                lemma_misplaced(scores, limit, second, first, at);
            }
        }
    }
}

/// Two rankings that agree before `at` cannot have, at `at`, a position in
/// the first that comes before the one in the second.
proof fn lemma_misplaced(scores: Seq<i64>, limit: int, first: Seq<int>, second: Seq<int>, at: int)
    requires
        is_ranking(scores, limit, first),
        is_ranking(scores, limit, second),
        0 <= at < first.len(),
        forall|i: int| 0 <= i < at ==> first[i] == second[i],
    ensures
        !outranks(scores, first[at], second[at]),
{
    let a = first[at];
    let b = second[at];
    assert(0 <= a < scores.len());
    if !outranks(scores, a, b) {
    } else if ranked(second, a) {
        let j = choose|j: int| 0 <= j < second.len() && second[j] == a;
        if j < at {
            assert(first[j] == a);
            assert(outranks(scores, first[j], first[at]));
        } else if j > at {
            assert(outranks(scores, second[at], second[j]));
        }
    } else {
        assert(outranks(scores, second[at], a));
    }
}

/// The rows and their similarities leave one ranking only: the same rows, the
/// same similarities and the same limit always give the same result.
pub proof fn lemma_ranking_is_unique(
    scores: Seq<i64>,
    limit: int,
    first: Seq<int>,
    second: Seq<int>,
)
    requires
        is_ranking(scores, limit, first),
        is_ranking(scores, limit, second),
    ensures
        first == second,
{
    lemma_rankings_agree(scores, limit, first, second, first.len() as int);
    assert(first =~= second);
}

/// A ranking holds at most `limit` rows, and at most as many as there are.
pub proof fn lemma_ranking_is_bounded(scores: Seq<i64>, limit: int, ranking: Seq<int>)
    requires
        is_ranking(scores, limit, ranking),
        0 <= limit,
    ensures
        ranking.len() <= limit,
        ranking.len() <= scores.len(),
        ranking.len() == limit || ranking.len() == scores.len(),
{
}

/// In a ranking the similarities never increase, and of two rows as similar
/// the one inserted earlier comes first.
pub proof fn lemma_ranking_is_ordered(
    scores: Seq<i64>,
    limit: int,
    ranking: Seq<int>,
    i: int,
    j: int,
)
    requires
        is_ranking(scores, limit, ranking),
        0 <= i < j < ranking.len(),
    ensures
        scores[ranking[i]] >= scores[ranking[j]],
        scores[ranking[i]] == scores[ranking[j]] ==> ranking[i] < ranking[j],
{
    assert(outranks(scores, ranking[i], ranking[j]));
}

/// An open collection of rows, each with a vector of `dimension` components.
#[derive(Debug)]
pub struct VectorIndexHandle {
    pub collection: String,
    pub dimension: usize,
}

impl VectorIndexHandle {
    /// Opens the collection `collection` for vectors of `dimension`
    /// components. `existing` is the dimension of the collection as it is
    /// stored, or `None` where there is none yet and one is created. Fails
    /// where the stored collection has another dimension.
    pub fn create_or_open(
        collection: String,
        existing: Option<usize>,
        dimension: usize,
    ) -> (opened: Result<VectorIndexHandle, StorageError>)
        ensures
            match opened {
                Ok(handle) => {
                    &&& existing is None || existing == Some(dimension)
                    &&& handle.collection@ == collection@
                    &&& handle.dimension == dimension
                },
                Err(error) => {
                    &&& existing is Some
                    &&& existing != Some(dimension)
                    &&& error@ == (StorageFault::DimensionMismatch {
                        expected: existing->0,
                        found: dimension,
                    })
                },
            },
    {
        match existing {
            Some(stored) => {
                if stored != dimension {
                    return Err(
                        StorageError::DimensionMismatch { expected: stored, found: dimension },
                    );
                }
            },
            None => {},
        }
        Ok(VectorIndexHandle { collection, dimension })
    }

    /// The `k` rows most similar to the query, from the most to the least
    /// similar, rows as similar in the order of their insertion; all the rows
    /// where there are fewer than `k`. `query_dimension` is the number of
    /// components of the query vector: where it is not the collection's, the
    /// search fails.
    pub fn find_similar(
        &self,
        query_dimension: usize,
        rows: &Vec<ScoredRow>,
        k: usize,
    ) -> (found: Result<Vec<TableContent>, StorageError>)
        ensures
            match found {
                Ok(nearest) => {
                    let ranking = top_ranking(similarities(rows@), k as int);
                    &&& query_dimension == self.dimension
                    &&& nearest@.len() <= k
                    &&& nearest@.len() <= rows@.len()
                    &&& is_ranking(similarities(rows@), k as int, ranking)
                    &&& contents_of(nearest@) == contents_at(rows@, ranking)
                },
                Err(error) => {
                    &&& query_dimension != self.dimension
                    &&& error@ == (StorageFault::DimensionMismatch {
                        expected: self.dimension,
                        found: query_dimension,
                    })
                },
            },
    {
        if query_dimension != self.dimension {
            return Err(
                StorageError::DimensionMismatch {
                    expected: self.dimension,
                    found: query_dimension,
                },
            );
        }
        let order = rank(rows, k);
        let ghost scores = similarities(rows@);
        let ghost ranking = positions(order@);
        proof {
            lemma_ranking_is_unique(scores, k as int, ranking, top_ranking(scores, k as int));
        }
        assert forall|i: int| 0 <= i < order@.len() implies 0 <= #[trigger] order@[i]
            < rows@.len() by {
            assert(ranking[i] == order@[i]);
        }
        let mut nearest: Vec<TableContent> = Vec::new();
        let mut index: usize = 0;
        while index < order.len()
            invariant
                index <= order.len(),
                nearest@.len() == index,
                forall|i: int| 0 <= i < order@.len() ==> 0 <= #[trigger] order@[i] < rows@.len(),
                forall|i: int|
                    0 <= i < index ==> (#[trigger] nearest@[i]).content@
                        == rows@[order@[i] as int].row.content@,
            decreases order.len() - index,
        {
            let content = rows[order[index]].row.content.clone();
            nearest.push(TableContent { content });
            index += 1;
        }
        assert(contents_of(nearest@) =~= contents_at(rows@, ranking));
        Ok(nearest)
    }
}

/// `position` has found its place: it is in `order`, or `order` is full and
/// every row in it comes before `position`.
spec fn settled(scores: Seq<i64>, limit: int, order: Seq<int>, position: int) -> bool {
    ||| exists|i: int| 0 <= i < order.len() && #[trigger] order[i] == position
    ||| (order.len() == limit && forall|i: int|
        0 <= i < order.len() ==> outranks(scores, #[trigger] order[i], position))
}

/// `order` holds positions below `bound`, each before the next in rank.
spec fn sorted_below(scores: Seq<i64>, order: Seq<int>, bound: int) -> bool {
    &&& forall|i: int| 0 <= i < order.len() ==> 0 <= #[trigger] order[i] < bound
    &&& forall|i: int, j: int|
        0 <= i < j < order.len() ==> outranks(scores, #[trigger] order[i], #[trigger] order[j])
}

/// Where row `next` goes into `order`: behind every row as similar or more.
spec fn place_for(scores: Seq<i64>, order: Seq<int>, next: int) -> int
    decreases order.len(),
{
    if order.len() > 0 && scores[order.last()] < scores[next] {
        place_for(scores, order.drop_last(), next)
    } else {
        order.len() as int
    }
}

/// The ranking of the first `count` rows, cut at `limit`: each row in turn
/// goes to its place, and the last row leaves where the limit is passed.
spec fn ranking_of_first(scores: Seq<i64>, limit: int, count: nat) -> Seq<int>
    decreases count,
{
    if count == 0 {
        Seq::empty()
    } else {
        let before = ranking_of_first(scores, limit, (count - 1) as nat);
        let full = before.insert(place_for(scores, before, count - 1), count - 1);
        if full.len() > limit {
            full.drop_last()
        } else {
            full
        }
    }
}

/// The positions held in `order`.
spec fn positions(order: Seq<usize>) -> Seq<int> {
    Seq::new(order.len(), |i: int| order[i] as int)
}

/// The rows of `order` from `place_for` on are less similar than `next`, and
/// the row before is not.
proof fn lemma_place_for(scores: Seq<i64>, order: Seq<int>, next: int)
    ensures
        0 <= place_for(scores, order, next) <= order.len(),
        forall|i: int|
            place_for(scores, order, next) <= i < order.len() ==> scores[#[trigger] order[i]]
                < scores[next],
        place_for(scores, order, next) > 0 ==> scores[order[place_for(scores, order, next) - 1]]
            >= scores[next],
    decreases order.len(),
{
    if order.len() > 0 && scores[order.last()] < scores[next] {
        lemma_place_for(scores, order.drop_last(), next);
        let place = place_for(scores, order, next);
        assert forall|i: int| place <= i < order.len() implies scores[#[trigger] order[i]]
            < scores[next] by {
            if i < order.len() - 1 {
                assert(order.drop_last()[i] == order[i]);
            }
        }
        if place > 0 {
            assert(order.drop_last()[place - 1] == order[place - 1]);
        }
    }
}

/// Putting `next` into `before` at `place`, behind every row as similar or
/// more and before every row less similar, keeps the order.
proof fn lemma_insert_keeps_order(scores: Seq<i64>, before: Seq<int>, place: int, next: int)
    requires
        0 <= place <= before.len(),
        0 <= next < scores.len(),
        sorted_below(scores, before, next),
        forall|i: int| place <= i < before.len() ==> scores[#[trigger] before[i]] < scores[next],
        place > 0 ==> scores[before[place - 1]] >= scores[next],
    ensures
        sorted_below(scores, before.insert(place, next), next + 1),
{
    let held = before.insert(place, next);
    assert forall|i: int, j: int| 0 <= i < j < held.len() implies outranks(
        scores,
        #[trigger] held[i],
        #[trigger] held[j],
    ) by {
        if j < place {
            assert(held[i] == before[i] && held[j] == before[j]);
        } else if j == place {
            assert(held[i] == before[i]);
            if i < place - 1 {
                assert(outranks(scores, before[i], before[place - 1]));
            }
        } else if i < place {
            assert(held[i] == before[i] && held[j] == before[j - 1]);
            if i < j - 1 {
                assert(outranks(scores, before[i], before[j - 1]));
            }
        } else if i == place {
            assert(held[j] == before[j - 1]);
        } else {
            assert(held[i] == before[i - 1] && held[j] == before[j - 1]);
        }
    }
    assert forall|i: int| 0 <= i < held.len() implies 0 <= #[trigger] held[i] < next + 1 by {
        if i < place {
            assert(held[i] == before[i]);
        } else if i > place {
            assert(held[i] == before[i - 1]);
        }
    }
}

/// After `next` went into `before` at `place`, every position up to `next`
/// that had found its place in `before` has it in what is kept: all of the
/// new order where it is within the limit, all but its last row otherwise.
proof fn lemma_insert_keeps_settled(
    scores: Seq<i64>,
    limit: int,
    before: Seq<int>,
    place: int,
    next: int,
    position: int,
)
    requires
        0 <= limit,
        0 <= place <= before.len() <= limit,
        0 <= next < scores.len(),
        sorted_below(scores, before, next),
        sorted_below(scores, before.insert(place, next), next + 1),
        0 <= position <= next,
        position < next ==> settled(scores, limit, before, position),
    ensures
        before.len() < limit ==> settled(scores, limit, before.insert(place, next), position),
        before.len() == limit ==> settled(
            scores,
            limit,
            before.insert(place, next).drop_last(),
            position,
        ),
{
    let full = before.insert(place, next);
    let last = full.len() - 1;
    assert(full[place] == next);
    let was_held = position < next && exists|e: int|
        0 <= e < before.len() && #[trigger] before[e] == position;
    let moved = if was_held {
        let e = choose|e: int| 0 <= e < before.len() && #[trigger] before[e] == position;
        if e < place {
            e
        } else {
            e + 1
        }
    } else {
        place
    };
    assert(full[moved] == position || (position < next && !was_held));
    if before.len() == limit {
        let kept = full.drop_last();
        if position == next || was_held {
            if moved < last {
                assert(kept[moved] == position);
            } else {
                assert forall|i: int| 0 <= i < kept.len() implies outranks(
                    scores,
                    #[trigger] kept[i],
                    position,
                ) by {
                    assert(kept[i] == full[i]);
                    assert(outranks(scores, full[i], full[last]));
                }
            }
        } else {
            // it was left out before, so the row now dropped came before it
            assert forall|i: int| 0 <= i < kept.len() implies outranks(
                scores,
                #[trigger] kept[i],
                position,
            ) by {
                assert(kept[i] == full[i]);
                assert(outranks(scores, full[i], full[last]));
                if place == last {
                    assert(kept[i] == before[i]);
                } else {
                    assert(full[last] == before[last - 1]);
                    assert(outranks(scores, before[last - 1], position));
                }
            }
        }
    }
}

/// An order of the right length in which every row has found its place is a
/// ranking.
proof fn lemma_settled_is_ranking(scores: Seq<i64>, limit: int, order: Seq<int>)
    requires
        order.len() == if limit <= scores.len() {
            limit
        } else {
            scores.len() as int
        },
        sorted_below(scores, order, scores.len() as int),
        forall|position: int|
            0 <= position < scores.len() ==> #[trigger] settled(scores, limit, order, position),
    ensures
        is_ranking(scores, limit, order),
{
    assert forall|position: int, i: int|
        #![trigger ranked(order, position), order[i]]
        0 <= position < scores.len() && !ranked(order, position) && 0 <= i < order.len()
        implies outranks(scores, order[i], position) by {
        assert(settled(scores, limit, order, position));
    }
}

/// `ranking_of_first` keeps the rows in order and gives every row seen so far
/// its place.
proof fn lemma_ranking_of_first(scores: Seq<i64>, limit: int, count: nat)
    requires
        0 <= limit,
        count <= scores.len(),
    ensures
        ranking_of_first(scores, limit, count).len() == if limit <= count {
            limit
        } else {
            count as int
        },
        sorted_below(scores, ranking_of_first(scores, limit, count), count as int),
        forall|position: int|
            0 <= position < count ==> #[trigger] settled(
                scores,
                limit,
                ranking_of_first(scores, limit, count),
                position,
            ),
    decreases count,
{
    if count > 0 {
        let next = count - 1;
        lemma_ranking_of_first(scores, limit, next as nat);
        let before = ranking_of_first(scores, limit, next as nat);
        let place = place_for(scores, before, next);
        lemma_place_for(scores, before, next);
        lemma_insert_keeps_order(scores, before, place, next);
        let full = before.insert(place, next);
        let kept = ranking_of_first(scores, limit, count);
        assert forall|position: int| 0 <= position < count implies #[trigger] settled(
            scores,
            limit,
            kept,
            position,
        ) by {
            lemma_insert_keeps_settled(scores, limit, before, place, next, position);
        }
        if full.len() > limit {
            assert forall|i: int, j: int| 0 <= i < j < kept.len() implies outranks(
                scores,
                #[trigger] kept[i],
                #[trigger] kept[j],
            ) by {
                assert(kept[i] == full[i] && kept[j] == full[j]);
            }
            assert forall|i: int| 0 <= i < kept.len() implies 0 <= #[trigger] kept[i] < count by {
                assert(kept[i] == full[i]);
            }
        }
    }
}

/// Every collection has a ranking for every limit, and `top_ranking` is it.
pub proof fn lemma_ranking_exists(scores: Seq<i64>, limit: int)
    requires
        0 <= limit,
    ensures
        is_ranking(scores, limit, top_ranking(scores, limit)),
{
    lemma_ranking_of_first(scores, limit, scores.len());
    lemma_settled_is_ranking(scores, limit, ranking_of_first(scores, limit, scores.len()));
}

/// The positions of the `limit` most similar rows, best first.
fn rank(rows: &Vec<ScoredRow>, limit: usize) -> (order: Vec<usize>)
    ensures
        is_ranking(similarities(rows@), limit as int, positions(order@)),
{
    let ghost scores = similarities(rows@);
    let mut order: Vec<usize> = Vec::new();
    let mut next: usize = 0;
    while next < rows.len()
        invariant
            next <= rows.len(),
            scores == similarities(rows@),
            order@.len() == if limit <= next {
                limit
            } else {
                next
            },
            sorted_below(scores, positions(order@), next as int),
            forall|position: int|
                0 <= position < next ==> #[trigger] settled(
                    scores,
                    limit as int,
                    positions(order@),
                    position,
                ),
        decreases rows.len() - next,
    {
        let score = rows[next].similarity;
        let ghost before = positions(order@);
        assert forall|i: int| 0 <= i < order@.len() implies #[trigger] order@[i] < next by {
            assert(before[i] == order@[i]);
        }
        let mut place: usize = order.len();
        while place > 0 && rows[order[place - 1]].similarity < score
            invariant
                place <= order@.len(),
                positions(order@) == before,
                forall|i: int| 0 <= i < order@.len() ==> #[trigger] order@[i] < next,
                next < rows.len(),
                scores == similarities(rows@),
                score == scores[next as int],
                sorted_below(scores, before, next as int),
                forall|i: int| place <= i < before.len() ==> scores[#[trigger] before[i]] < score,
            decreases place,
        {
            assert(before[place - 1] == order@[place - 1]);
            place -= 1;
        }
        proof {
            if place > 0 {
                assert(before[place - 1] == order@[place - 1]);
            }
        }
        order.insert(place, next);
        let ghost full = before.insert(place as int, next as int);
        proof {
            assert(positions(order@) =~= full);
            lemma_insert_keeps_order(scores, before, place as int, next as int);
            assert forall|position: int| 0 <= position <= next implies (before.len() < limit
                ==> #[trigger] settled(scores, limit as int, full, position)) by {
                lemma_insert_keeps_settled(
                    scores,
                    limit as int,
                    before,
                    place as int,
                    next as int,
                    position,
                );
            }
        }
        if order.len() > limit {
            order.pop();
            proof {
                let kept = positions(order@);
                assert(kept =~= full.drop_last());
                assert forall|position: int| 0 <= position <= next implies #[trigger] settled(
                    scores,
                    limit as int,
                    kept,
                    position,
                ) by {
                    lemma_insert_keeps_settled(
                        scores,
                        limit as int,
                        before,
                        place as int,
                        next as int,
                        position,
                    );
                }
                assert forall|i: int, j: int| 0 <= i < j < kept.len() implies outranks(
                    scores,
                    #[trigger] kept[i],
                    #[trigger] kept[j],
                ) by {
                    assert(kept[i] == full[i] && kept[j] == full[j]);
                }
                assert forall|i: int| 0 <= i < kept.len() implies 0 <= #[trigger] kept[i] < next
                    + 1 by {
                    assert(kept[i] == full[i]);
                }
            }
        }
        next += 1;
    }
    proof {
        lemma_settled_is_ranking(scores, limit as int, positions(order@));
    }
    order
}

} // verus!
