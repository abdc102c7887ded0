//! Finds the game that a freshly written save belongs to.

use crate::api::{Game, GameId, GameView};
use crate::save::{difference, Civ5Save, SaveView};
use vstd::prelude::*;

verus! {

/// A game that waits for the local user, with the analysed save of its last
/// known turn where there is one.
#[derive(Debug)]
pub struct Candidate<'a> {
    pub game: &'a Game,
    pub last_save: Option<&'a Civ5Save>,
}

/// Mathematical form of a [`Candidate`].
pub struct CandidateView {
    pub game: GameView,
    pub last_save: Option<SaveView>,
}

impl<'a> View for Candidate<'a> {
    type V = CandidateView;

    open spec fn view(&self) -> CandidateView {
        CandidateView {
            game: self.game@,
            last_save: match self.last_save {
                Some(save) => Some(save@),
                None => None,
            },
        }
    }
}

/// The views of a list of candidates, in order.
pub open spec fn candidate_views(candidates: Seq<Candidate<'_>>) -> Seq<CandidateView> {
    Seq::new(candidates.len(), |i: int| candidates[i]@)
}

/// Why a new save could not be given to one game.
#[derive(Clone, Copy, Debug, PartialEq, Eq, Structural)]
pub enum MatchError {
    /// No candidate game fits the save.
    TurnMatchNotFound,
    /// More than one candidate game fits the save equally well.
    TurnMatchAmbiguous,
}

/// A save of turn `new_turn` can follow a save of turn `last_turn`: it is of
/// the same turn or of the next one.
pub open spec fn continues(new_turn: u32, last_turn: u32) -> bool {
    new_turn == last_turn || new_turn == last_turn + 1
}

/// The candidate has a last save, and the new save can follow it.
pub open spec fn eligible(new_save: SaveView, candidate: CandidateView) -> bool {
    match candidate.last_save {
        Some(last) => continues(new_save.header.turn, last.header.turn),
        None => false,
    }
}

/// The difference score of the new save against the candidate's last save.
pub open spec fn score(new_save: SaveView, candidate: CandidateView) -> nat {
    match candidate.last_save {
        Some(last) => difference(new_save, last),
        None => 0,
    }
}

/// Candidate `i` is eligible and no eligible candidate scores lower.
pub open spec fn is_best(new_save: SaveView, candidates: Seq<CandidateView>, i: int) -> bool {
    &&& eligible(new_save, candidates[i])
    &&& forall|j: int|
        0 <= j < candidates.len() && eligible(new_save, #[trigger] candidates[j]) ==> score(
            new_save,
            candidates[i],
        ) <= score(new_save, candidates[j])
}

/// Candidate `i` is selected for the new save. A save of turn 0 selects the
/// games that the service reports to be at their first turn. Any other save
/// selects the eligible candidates with the lowest score.
pub open spec fn selected(new_save: SaveView, candidates: Seq<CandidateView>, i: int) -> bool {
    if new_save.header.turn == 0 {
        candidates[i].game.current_turn.is_first_turn
    } else {
        is_best(new_save, candidates, i)
    }
}

/// The game ids of the selected candidates among the first `n`, in the order
/// of the candidates.
pub open spec fn matching_ids_upto(
    new_save: SaveView,
    candidates: Seq<CandidateView>,
    n: nat,
) -> Seq<GameId>
    decreases n,
{
    if n == 0 {
        Seq::empty()
    } else {
        let before = matching_ids_upto(new_save, candidates, (n - 1) as nat);
        if selected(new_save, candidates, n - 1) {
            before.push(candidates[n - 1].game.game_id)
        } else {
            before
        }
    }
}

/// The game ids of all selected candidates, in the order of the candidates.
pub open spec fn matching_ids(new_save: SaveView, candidates: Seq<CandidateView>) -> Seq<GameId> {
    matching_ids_upto(new_save, candidates, candidates.len())
}

/// The outcome of a match: the one game, or why there is none.
pub open spec fn resolution(matches: Seq<GameId>) -> Result<GameId, MatchError> {
    if matches.len() == 0 {
        Err(MatchError::TurnMatchNotFound)
    } else if matches.len() == 1 {
        Ok(matches[0])
    } else {
        Err(MatchError::TurnMatchAmbiguous)
    }
}

/// Selects the games that a new save may belong to. None means that no game
/// fits; more than one, that the save fits several games equally well.
///
/// Ties are not broken: every candidate with the lowest score is returned, in
/// the order of `candidates`.
pub fn find_game_for_save(new_save: &Civ5Save, candidates: &Vec<Candidate<'_>>) -> (found: Vec<
    GameId,
>)
    ensures
        found@ == matching_ids(new_save@, candidate_views(candidates@)),
{
    let ghost new = new_save@;
    let ghost cs = candidate_views(candidates@);
    let new_turn = new_save.turn();
    let mut found: Vec<GameId> = Vec::new();
    if new_turn == 0 {
        let mut i: usize = 0;
        while i < candidates.len()
            invariant
                i <= candidates.len(),
                cs == candidate_views(candidates@),
                new.header.turn == 0,
                found@ == matching_ids_upto(new, cs, i as nat),
            decreases candidates.len() - i,
        {
            let candidate = &candidates[i];
            assert(cs[i as int] == candidate@);
            if candidate.game.current_turn.is_first_turn {
                found.push(candidate.game.game_id);
            }
            i += 1;
        }
        return found;
    }
    let mut scores: Vec<Option<u64>> = Vec::new();
    let mut smallest: Option<u64> = None;
    let ghost mut witness: int = 0;
    let mut i: usize = 0;
    while i < candidates.len()
        invariant
            i <= candidates.len(),
            new == new_save@,
            cs == candidate_views(candidates@),
            new_turn == new.header.turn,
            scores.len() == i,
            forall|k: int|
                0 <= k < i ==> #[trigger] scores[k] == if eligible(new, cs[k]) {
                    Some(score(new, cs[k]) as u64)
                } else {
                    None
                },
            forall|k: int| 0 <= k < i && eligible(new, #[trigger] cs[k]) ==> score(new, cs[k]) <= u64::MAX,
            smallest is None ==> forall|k: int| 0 <= k < i ==> !eligible(new, #[trigger] cs[k]),
            smallest matches Some(m) ==> {
                &&& 0 <= witness < i
                &&& eligible(new, cs[witness])
                &&& score(new, cs[witness]) == m
                &&& forall|k: int|
                    0 <= k < i && eligible(new, #[trigger] cs[k]) ==> m <= score(new, cs[k])
            },
        decreases candidates.len() - i,
    {
        let candidate = &candidates[i];
        assert(cs[i as int] == candidate@);
        let own: Option<u64> = match candidate.last_save {
            Some(last) => {
                let last_turn = last.turn();
                if new_turn == last_turn || (last_turn < u32::MAX && new_turn == last_turn + 1) {
                    Some(new_save.difference_score(last))
                } else {
                    None
                }
            },
            None => None,
        };
        match own {
            Some(diff) => {
                let lower = match smallest {
                    Some(m) => diff < m,
                    None => true,
                };
                if lower {
                    smallest = Some(diff);
                    proof {
                        witness = i as int;
                    }
                }
            },
            None => {},
        }
        scores.push(own);
        i += 1;
    }
    let mut i: usize = 0;
    while i < candidates.len()
        invariant
            i <= candidates.len(),
            cs == candidate_views(candidates@),
            cs.len() == candidates.len(),
            new.header.turn != 0,
            scores.len() == candidates.len(),
            forall|k: int|
                0 <= k < cs.len() ==> #[trigger] scores[k] == if eligible(new, cs[k]) {
                    Some(score(new, cs[k]) as u64)
                } else {
                    None
                },
            forall|k: int|
                0 <= k < cs.len() && eligible(new, #[trigger] cs[k]) ==> score(new, cs[k])
                    <= u64::MAX,
            smallest is None ==> forall|k: int|
                0 <= k < cs.len() ==> !eligible(new, #[trigger] cs[k]),
            smallest matches Some(m) ==> {
                &&& 0 <= witness < cs.len()
                &&& eligible(new, cs[witness])
                &&& score(new, cs[witness]) == m
                &&& forall|k: int|
                    0 <= k < cs.len() && eligible(new, #[trigger] cs[k]) ==> m <= score(
                        new,
                        cs[k],
                    )
            },
            found@ == matching_ids_upto(new, cs, i as nat),
        decreases candidates.len() - i,
    {
        let is_match = match (smallest, scores[i]) {
            (Some(m), Some(own)) => own == m,
            _ => false,
        };
        assert(is_match == is_best(new, cs, i as int));
        if is_match {
            found.push(candidates[i].game.game_id);
        }
        i += 1;
    }
    found
}

/// Decides what a match amounts to: exactly one game is the match, none is
/// `TurnMatchNotFound`, several are `TurnMatchAmbiguous`.
pub fn resolve_match(matches: &Vec<GameId>) -> (r: Result<GameId, MatchError>)
    ensures
        r == resolution(matches@),
{
    if matches.len() == 0 {
        Err(MatchError::TurnMatchNotFound)
    } else if matches.len() == 1 {
        Ok(matches[0])
    } else {
        Err(MatchError::TurnMatchAmbiguous)
    }
}

/// Among the first `n` candidates, the only match is candidate `i`, once it
/// has been passed.
proof fn lemma_single_selection(
    new_save: SaveView,
    candidates: Seq<CandidateView>,
    i: int,
    n: nat,
)
    requires
        0 <= i < candidates.len(),
        n <= candidates.len(),
        forall|j: int| 0 <= j < candidates.len() ==> (selected(new_save, candidates, j) <==> j == i),
    ensures
        matching_ids_upto(new_save, candidates, n) == if n <= i {
            Seq::<GameId>::empty()
        } else {
            seq![candidates[i].game.game_id]
        },
    decreases n,
{
    if n > 0 {
        lemma_single_selection(new_save, candidates, i, (n - 1) as nat);
        if n - 1 == i {
            assert(Seq::<GameId>::empty().push(candidates[i].game.game_id)
                =~= seq![candidates[i].game.game_id]);
        }
    }
}

/// For a save of a turn other than 0: where one candidate is eligible and
/// every other eligible candidate scores strictly higher, that candidate's
/// game is the match, and the only one.
pub proof fn lowest_score_is_the_match(
    new_save: SaveView,
    candidates: Seq<CandidateView>,
    i: int,
)
    requires
        new_save.header.turn != 0,
        0 <= i < candidates.len(),
        eligible(new_save, candidates[i]),
        forall|j: int|
            0 <= j < candidates.len() && j != i && eligible(new_save, #[trigger] candidates[j])
                ==> score(new_save, candidates[i]) < score(new_save, candidates[j]),
    ensures
        matching_ids(new_save, candidates) == seq![candidates[i].game.game_id],
        resolution(matching_ids(new_save, candidates)) == Ok::<GameId, MatchError>(
            candidates[i].game.game_id,
        ),
{
    assert forall|j: int| 0 <= j < candidates.len() implies (selected(new_save, candidates, j)
        <==> j == i) by {
        if j != i && eligible(new_save, candidates[j]) {
            assert(!is_best(new_save, candidates, j));
        }
    }
    lemma_single_selection(new_save, candidates, i, candidates.len());
}

} // verus!
