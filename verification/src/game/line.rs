//! A line of cells, and the streaks on it.

use vstd::prelude::*;
use crate::game::{CellState, PlayerId};

verus! {

/// Whether `player` holds the `length` consecutive cells of `line` that start at `start`.
pub open spec fn is_streak(
    line: Seq<CellState>,
    start: int,
    length: nat,
    player: PlayerId,
) -> bool {
    &&& 0 <= start
    &&& start + length <= line.len()
    &&& forall|i: int| start <= i < start + length ==> line[i] == CellState::Occupied(player)
}

/// The player who holds the `length` consecutive cells of `line` that end at `end`, if one
/// player holds them all.
pub open spec fn streak_ending_at(line: Seq<CellState>, length: nat, end: int) -> Option<PlayerId> {
    if 0 <= end < line.len() {
        match line[end] {
            CellState::Occupied(player) => if is_streak(line, end + 1 - length, length, player) {
                Some(player)
            } else {
                None
            },
            CellState::Unset => None,
        }
    } else {
        None
    }
}

/// The first result in `results` that names a player.
pub open spec fn first_some(results: Seq<Option<PlayerId>>) -> Option<PlayerId>
    decreases results.len(),
{
    if results.len() == 0 {
        None
    } else {
        match first_some(results.drop_last()) {
            Some(player) => Some(player),
            None => results.last(),
        }
    }
}

/// The holder of the streak of `length` cells that ends first on `line`.
pub open spec fn line_winner(line: Seq<CellState>, length: nat) -> Option<PlayerId> {
    first_some(Seq::new(line.len(), |end: int| streak_ending_at(line, length, end)))
}

/// If every result before `index` names nobody, the first to name a player is the one at
/// `index`.
pub proof fn lemma_first_some_at(results: Seq<Option<PlayerId>>, index: int)
    requires
        0 <= index < results.len(),
        forall|i: int| 0 <= i < index ==> results[i] is None,
        results[index] is Some,
    ensures
        first_some(results) == results[index],
    decreases results.len(),
{
    if index == results.len() - 1 {
        lemma_first_some_none(results.drop_last());
    } else {
        lemma_first_some_at(results.drop_last(), index);
    }
}

/// If no result names a player, neither does the first.
pub proof fn lemma_first_some_none(results: Seq<Option<PlayerId>>)
    requires
        forall|i: int| 0 <= i < results.len() ==> results[i] is None,
    ensures
        first_some(results) is None,
    decreases results.len(),
{
    if results.len() > 0 {
        lemma_first_some_none(results.drop_last());
    }
}

/// If the first result names nobody, no result does.
pub proof fn lemma_first_some_all_none(results: Seq<Option<PlayerId>>)
    requires
        first_some(results) is None,
    ensures
        forall|i: int| 0 <= i < results.len() ==> results[i] is None,
    decreases results.len(),
{
    if results.len() > 0 {
        lemma_first_some_all_none(results.drop_last());
        assert forall|i: int| 0 <= i < results.len() implies results[i] is None by {
            if i < results.len() - 1 {
                assert(results[i] == results.drop_last()[i]);
            }
        }
    }
}

/// If the first result names a player, it stands at some index, with nobody named before.
pub proof fn lemma_first_some_witness(results: Seq<Option<PlayerId>>) -> (index: int)
    requires
        first_some(results) is Some,
    ensures
        0 <= index < results.len(),
        results[index] == first_some(results),
        forall|i: int| 0 <= i < index ==> results[i] is None,
    decreases results.len(),
{
    let front = results.drop_last();
    if first_some(front) is Some {
        let index = lemma_first_some_witness(front);
        assert forall|i: int| 0 <= i < index implies results[i] is None by {
            assert(results[i] == front[i]);
        }
        index
    } else {
        lemma_first_some_all_none(front);
        assert forall|i: int| 0 <= i < results.len() - 1 implies results[i] is None by {
            assert(results[i] == front[i]);
        }
        results.len() - 1
    }
}

/// A line has a winner exactly when somebody holds an unbroken streak on it, and the winner
/// holds one: cells that an unset cell or another player's cell parts do not add up.
pub proof fn lemma_line_winner_holds_streak(line: Seq<CellState>, length: nat)
    requires
        length > 0,
    ensures
        line_winner(line, length) matches Some(player) ==> exists|start: int|
            is_streak(line, start, length, player),
        line_winner(line, length) is None ==> forall|start: int, player: PlayerId|
            !is_streak(line, start, length, player),
{
    let results = Seq::new(line.len(), |end: int| streak_ending_at(line, length, end));
    if line_winner(line, length) is Some {
        let end = lemma_first_some_witness(results);
        assert(is_streak(line, end + 1 - length, length, line_winner(line, length)->0));
    } else {
        lemma_first_some_all_none(results);
        assert forall|start: int, player: PlayerId| !is_streak(line, start, length, player) by {
            if is_streak(line, start, length, player) {
                let end = start + length - 1;
                assert(results[end] == Some(player));
            }
        }
    }
}

/// A streak on a line gives the line a winner.
pub proof fn lemma_streak_gives_line_winner(
    line: Seq<CellState>,
    start: int,
    length: nat,
    player: PlayerId,
)
    requires
        length > 0,
        is_streak(line, start, length, player),
    ensures
        line_winner(line, length) is Some,
{
    lemma_line_winner_holds_streak(line, length);
}

/// A result that names a player gives the sequence a first such result.
pub proof fn lemma_some_gives_first_some(results: Seq<Option<PlayerId>>, index: int)
    requires
        0 <= index < results.len(),
        results[index] is Some,
    ensures
        first_some(results) is Some,
{
    if first_some(results) is None {
        lemma_first_some_all_none(results);
    }
}

} // verus!
