//! The analysed saves that the engine keeps, by game and turn.

use crate::api::{GameId, TurnId};
use crate::save::{Civ5Save, SaveView};
use vstd::prelude::*;

verus! {

/// One analysed save and the turn that it belongs to.
struct Entry {
    game_id: GameId,
    turn_id: TurnId,
    save: Civ5Save,
}

/// The analysed saves, at most one for each game and turn.
pub struct AnalysedSaveCache {
    entries: Vec<Entry>,
}

/// Whether entry `i` holds the save of the given game and turn.
spec fn holds(entries: Seq<Entry>, i: int, key: (GameId, TurnId)) -> bool {
    0 <= i < entries.len() && entries[i].game_id == key.0 && entries[i].turn_id == key.1
}

/// The place of the save of the given game and turn, if there is one.
spec fn index_of(entries: Seq<Entry>, key: (GameId, TurnId)) -> Option<int> {
    if exists|i: int| holds(entries, i, key) {
        Some(choose|i: int| holds(entries, i, key))
    } else {
        None
    }
}

/// No two entries are for the same game and turn.
spec fn distinct(entries: Seq<Entry>) -> bool {
    forall|i: int, j: int, key: (GameId, TurnId)|
        holds(entries, i, key) && holds(entries, j, key) ==> i == j
}

/// The saves of the entries, by game and turn.
spec fn as_map(entries: Seq<Entry>) -> Map<(GameId, TurnId), SaveView> {
    Map::new(
        |key: (GameId, TurnId)| index_of(entries, key) is Some,
        |key: (GameId, TurnId)| entries[index_of(entries, key)->0].save@,
    )
}

/// Putting an entry in the place of the one for its game and turn, or at the
/// end where there is none, keeps the entries distinct and maps its game and
/// turn to its save.
proof fn lemma_put(before: Seq<Entry>, after: Seq<Entry>, entry: Entry, found: Option<int>)
    requires
        distinct(before),
        found == index_of(before, (entry.game_id, entry.turn_id)),
        after == match found {
            Some(i) => before.update(i, entry),
            None => before.push(entry),
        },
    ensures
        distinct(after),
        as_map(after) == as_map(before).insert((entry.game_id, entry.turn_id), entry.save@),
{
    let key = (entry.game_id, entry.turn_id);
    let at = match found {
        Some(i) => i,
        None => before.len() as int,
    };
    if found is Some {
        assert(holds(before, at, key));
    }
    assert(holds(after, at, key));
    assert forall|i: int, k: (GameId, TurnId)| i != at implies holds(after, i, k) == holds(
        before,
        i,
        k,
    ) by {}
    assert forall|i: int, j: int, k: (GameId, TurnId)|
        holds(after, i, k) && holds(after, j, k) implies i == j by {
        if i == at && j != at {
            assert(holds(before, j, k));
            assert(k == key);
            if found is Some {
                assert(holds(before, at, key));
            }
        }
        if j == at && i != at {
            assert(holds(before, i, k));
            assert(k == key);
            if found is Some {
                assert(holds(before, at, key));
            }
        }
    }
    assert forall|k: (GameId, TurnId)|
        as_map(after).contains_key(k) == as_map(before).insert(key, entry.save@).contains_key(k)
            && (as_map(after).contains_key(k) ==> as_map(after)[k] == as_map(before).insert(
            key,
            entry.save@,
        )[k]) by {
        if k == key {
            assert(holds(after, at, k));
            let chosen = index_of(after, k)->0;
            assert(holds(after, chosen, k));
        } else {
            if index_of(before, k) is Some {
                let i = index_of(before, k)->0;
                assert(holds(before, i, k));
                assert(i != at);
                assert(holds(after, i, k));
            }
            if index_of(after, k) is Some {
                let i = index_of(after, k)->0;
                assert(holds(after, i, k));
                assert(i != at);
                assert(holds(before, i, k));
            }
        }
    }
    assert(as_map(after) =~= as_map(before).insert(key, entry.save@));
}

impl View for AnalysedSaveCache {
    type V = Map<(GameId, TurnId), SaveView>;

    closed spec fn view(&self) -> Map<(GameId, TurnId), SaveView> {
        as_map(self.entries@)
    }
}

impl AnalysedSaveCache {
    #[verifier::type_invariant]
    spec fn well_formed(&self) -> bool {
        distinct(self.entries@)
    }

    /// A cache without saves.
    pub fn new() -> (r: Self)
        ensures
            r@ == Map::<(GameId, TurnId), SaveView>::empty(),
    {
        let r = AnalysedSaveCache { entries: Vec::new() };
        assert(r@ =~= Map::<(GameId, TurnId), SaveView>::empty());
        r
    }

    /// The place of the save of the given game and turn, if there is one.
    fn find(&self, game_id: GameId, turn_id: TurnId) -> (r: Option<usize>)
        ensures
            match r {
                Some(i) => holds(self.entries@, i as int, (game_id, turn_id)) && index_of(
                    self.entries@,
                    (game_id, turn_id),
                ) == Some(i as int),
                None => index_of(self.entries@, (game_id, turn_id)) is None,
            },
    {
        proof {
            use_type_invariant(self);
        }
        let mut i: usize = 0;
        while i < self.entries.len()
            invariant
                i <= self.entries@.len(),
                forall|k: int| 0 <= k < i ==> !holds(self.entries@, k, (game_id, turn_id)),
                distinct(self.entries@),
            decreases self.entries.len() - i,
        {
            let entry = &self.entries[i];
            if entry.game_id.0 == game_id.0 && entry.turn_id.0 == turn_id.0 {
                assert(holds(self.entries@, i as int, (game_id, turn_id)));
                return Some(i);
            }
            i += 1;
        }
        None
    }

    /// The analysed save of the given game and turn, if there is one.
    pub fn get(&self, game_id: GameId, turn_id: TurnId) -> (r: Option<&Civ5Save>)
        ensures
            match r {
                Some(save) => self@.contains_key((game_id, turn_id)) && self@[(game_id, turn_id)]
                    == save@,
                None => !self@.contains_key((game_id, turn_id)),
            },
    {
        match self.find(game_id, turn_id) {
            Some(i) => Some(&self.entries[i].save),
            None => None,
        }
    }

    /// Keeps the save for the given game and turn, in place of the one kept
    /// for them before, if any.
    pub fn insert(&mut self, game_id: GameId, turn_id: TurnId, save: Civ5Save)
        ensures
            final(self)@ == old(self)@.insert((game_id, turn_id), save@),
    {
        proof {
            use_type_invariant(&*self);
        }
        let found = self.find(game_id, turn_id);
        let entry = Entry { game_id, turn_id, save };
        let mut entries: Vec<Entry> = Vec::new();
        core::mem::swap(&mut entries, &mut self.entries);
        let ghost before = entries@;
        let ghost ghost_found = match found {
            Some(i) => Some(i as int),
            None => None,
        };
        match found {
            Some(i) => {
                entries.set(i, entry);
            },
            None => {
                entries.push(entry);
            },
        }
        proof {
            lemma_put(before, entries@, entry, ghost_found);
        }
        self.entries = entries;
    }
}

} // verus!
