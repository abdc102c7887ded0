//! The synchronisation engine: the transfer state of every game, the
//! analysed saves, and the decisions that move a game from download to
//! upload. The engine performs no input or output itself: it is handed what
//! was received and answers with what is to be done.

use crate::api::{
    game_views, DownloadMessage, Game, GameId, GameView, GetGamesAndPlayers, Player, PlayerView,
    TurnId, UploadMessage, UserId,
};
use crate::cache::AnalysedSaveCache;
use crate::matcher::{
    self, matching_ids, resolution, Candidate, CandidateView, MatchError,
};
use crate::naming::{self, save_file_name, turn_of_filename};
use crate::reader::{parse_save, Civ5SaveReader};
use crate::save::{Civ5Save, SaveError, SaveView};
use std::collections::HashMap;
use vstd::prelude::*;

verus! {

broadcast use vstd::std_specs::hash::group_hash_axioms;

/// How far the exchange of a game's current turn has come.
#[derive(Debug, Clone, Copy, PartialEq, Eq, Structural)]
pub enum TransferState {
    /// Nothing has been done for the turn yet.
    Idle,
    /// The latest save is being fetched.
    Downloading,
    /// The latest save is here, or there is none to fetch.
    Downloaded,
    /// The user's new save waits to be sent.
    UploadQueued,
    /// The user's new save is being sent.
    Uploading,
    /// The service has confirmed the user's new save.
    UploadComplete,
}

/// What the engine asks its caller to start.
#[derive(Debug)]
pub enum TransferAction {
    /// Fetch the latest save of the game into a file of the given name in
    /// the directory of saves.
    Download { game_id: GameId, file_name: String },
    /// Send the bytes kept for the game as the save of the given turn.
    Upload { game_id: GameId, turn_id: TurnId },
}

/// Mathematical form of a [`TransferAction`].
pub enum TransferActionView {
    Download { game_id: GameId, file_name: Seq<char> },
    Upload { game_id: GameId, turn_id: TurnId },
}

impl View for TransferAction {
    type V = TransferActionView;

    open spec fn view(&self) -> TransferActionView {
        match *self {
            TransferAction::Download { game_id, file_name } => TransferActionView::Download {
                game_id,
                file_name: file_name@,
            },
            TransferAction::Upload { game_id, turn_id } => TransferActionView::Upload {
                game_id,
                turn_id,
            },
        }
    }
}

/// The views of a list of actions, in order.
pub open spec fn action_views(actions: Seq<TransferAction>) -> Seq<TransferActionView> {
    Seq::new(actions.len(), |i: int| actions[i]@)
}

/// Why a new local save was not queued for upload.
#[derive(Clone, Copy, Debug, PartialEq, Eq, Structural)]
pub enum NewSaveError {
    /// The file is no save.
    Save(SaveError),
    /// The save could not be given to one game.
    Match(MatchError),
}

/// The state of a game among the given states: a game that has none yet is
/// idle.
pub open spec fn state_in(states: Map<GameId, TransferState>, game_id: GameId) -> TransferState {
    if states.contains_key(game_id) {
        states[game_id]
    } else {
        TransferState::Idle
    }
}

/// The state that a game in the given state is in after a look at it. An
/// idle game needs no download at its first turn, for there is no save yet,
/// and starts one otherwise; a game with a queued upload starts it; every
/// other state waits for something from outside.
pub open spec fn step_state(state: TransferState, game: GameView) -> TransferState {
    match state {
        TransferState::Idle => if game.current_turn.is_first_turn {
            TransferState::Downloaded
        } else {
            TransferState::Downloading
        },
        TransferState::UploadQueued => TransferState::Uploading,
        other => other,
    }
}

/// What is to be started for a game in the given state after a look at it.
pub open spec fn step_action(state: TransferState, game: GameView) -> Option<TransferActionView> {
    match state {
        TransferState::Idle => if game.current_turn.is_first_turn {
            None
        } else {
            Some(
                TransferActionView::Download {
                    game_id: game.game_id,
                    file_name: save_file_name(game.game_id, game.name),
                },
            )
        },
        TransferState::UploadQueued => Some(
            TransferActionView::Upload {
                game_id: game.game_id,
                turn_id: game.current_turn.turn_id,
            },
        ),
        _ => None,
    }
}

/// The states after a look at the first `n` of the games, one after another.
pub open spec fn states_after(
    states: Map<GameId, TransferState>,
    games: Seq<GameView>,
    n: nat,
) -> Map<GameId, TransferState>
    decreases n,
{
    if n == 0 {
        states
    } else {
        let before = states_after(states, games, (n - 1) as nat);
        let game = games[n - 1];
        before.insert(game.game_id, step_state(state_in(before, game.game_id), game))
    }
}

/// What is to be started after a look at the first `n` of the games, in the
/// order of the games.
pub open spec fn actions_after(
    states: Map<GameId, TransferState>,
    games: Seq<GameView>,
    n: nat,
) -> Seq<TransferActionView>
    decreases n,
{
    if n == 0 {
        Seq::empty()
    } else {
        let before = states_after(states, games, (n - 1) as nat);
        let game = games[n - 1];
        let actions = actions_after(states, games, (n - 1) as nat);
        match step_action(state_in(before, game.game_id), game) {
            Some(action) => actions.push(action),
            None => actions,
        }
    }
}

/// The path of the first finished download among the messages from index
/// `from` on.
pub open spec fn first_done(messages: Seq<DownloadMessage>, from: int) -> Option<Seq<char>>
    decreases messages.len() - from,
{
    if from < 0 || from >= messages.len() {
        None
    } else {
        match messages[from] {
            DownloadMessage::Done(path) => Some(path@),
            _ => first_done(messages, from + 1),
        }
    }
}

/// Whether one of the messages confirms the upload.
pub open spec fn upload_confirmed(messages: Seq<UploadMessage>) -> bool {
    exists|i: int| 0 <= i < messages.len() && #[trigger] messages[i] is Done
}

/// The candidates for a new save: the games, each with the analysed save of
/// its current turn where the cache holds one.
pub open spec fn candidates_of(
    games: Seq<GameView>,
    cache: Map<(GameId, TurnId), SaveView>,
) -> Seq<CandidateView> {
    Seq::new(
        games.len(),
        |i: int|
            CandidateView {
                game: games[i],
                last_save: if cache.contains_key(
                    (games[i].game_id, games[i].current_turn.turn_id),
                ) {
                    Some(cache[(games[i].game_id, games[i].current_turn.turn_id)])
                } else {
                    None
                },
            },
    )
}

/// The game that a new save is queued for, or why it is queued for none.
pub open spec fn game_of_new_save(
    save: SaveView,
    games: Seq<GameView>,
    cache: Map<(GameId, TurnId), SaveView>,
) -> Result<GameId, MatchError> {
    resolution(matching_ids(save, candidates_of(games, cache)))
}

/// The turn that the first game with the given id from index `from` on
/// waits for.
pub open spec fn turn_of_game(games: Seq<GameView>, game_id: GameId, from: int) -> Option<TurnId>
    decreases games.len() - from,
{
    if from < 0 || from >= games.len() {
        None
    } else if games[from].game_id == game_id {
        Some(games[from].current_turn.turn_id)
    } else {
        turn_of_game(games, game_id, from + 1)
    }
}

/// The cache after a new save has been queued for a game: the save is kept
/// for the game and the turn that the game waits for.
pub open spec fn cache_with_new_save(
    cache: Map<(GameId, TurnId), SaveView>,
    games: Seq<GameView>,
    game_id: GameId,
    save: SaveView,
) -> Map<(GameId, TurnId), SaveView> {
    match turn_of_game(games, game_id, 0) {
        Some(turn_id) => cache.insert((game_id, turn_id), save),
        None => cache,
    }
}

/// The states after the given games have been marked as downloaded, the
/// first `n` of them.
pub open spec fn marked_downloaded(
    states: Map<GameId, TransferState>,
    games: Seq<GameId>,
    n: nat,
) -> Map<GameId, TransferState>
    decreases n,
{
    if n == 0 {
        states
    } else {
        marked_downloaded(states, games, (n - 1) as nat).insert(
            games[n - 1],
            TransferState::Downloaded,
        )
    }
}

/// The engine's memory: the transfer state of each game and the analysed
/// saves.
pub struct Manager {
    transfer: HashMap<u32, TransferState>,
    analysed: AnalysedSaveCache,
}

impl Manager {
    /// The transfer states of the games that have one.
    pub closed spec fn states(&self) -> Map<GameId, TransferState> {
        Map::new(
            |game_id: GameId| self.transfer@.contains_key(game_id.0),
            |game_id: GameId| self.transfer@[game_id.0],
        )
    }

    /// The analysed saves, by game and turn.
    pub closed spec fn cache(&self) -> Map<(GameId, TurnId), SaveView> {
        self.analysed@
    }

    /// An engine that knows of no game.
    pub fn new() -> (r: Self)
        ensures
            r.states() == Map::<GameId, TransferState>::empty(),
            r.cache() == Map::<(GameId, TurnId), SaveView>::empty(),
    {
        let r = Manager { transfer: HashMap::new(), analysed: AnalysedSaveCache::new() };
        assert(r.states() =~= Map::<GameId, TransferState>::empty());
        r
    }

    /// The transfer state of a game. A game that has not been looked at yet
    /// is idle.
    pub fn transfer_state(&self, game_id: GameId) -> (r: TransferState)
        ensures
            r == state_in(self.states(), game_id),
    {
        match self.transfer.get(&game_id.0) {
            Some(state) => *state,
            None => TransferState::Idle,
        }
    }

    /// Puts a game into a state.
    fn set_state(&mut self, game_id: GameId, state: TransferState)
        ensures
            final(self).states() == old(self).states().insert(game_id, state),
            final(self).cache() == old(self).cache(),
    {
        self.transfer.insert(game_id.0, state);
        assert(self.states() =~= old(self).states().insert(game_id, state));
    }

    /// The analysed save of the given game and turn, if there is one.
    pub fn analysed(&self, game_id: &GameId, turn_id: &TurnId) -> (r: Option<&Civ5Save>)
        ensures
            match r {
                Some(save) => self.cache().contains_key((*game_id, *turn_id)) && self.cache()[(
                    *game_id,
                    *turn_id,
                )] == save@,
                None => !self.cache().contains_key((*game_id, *turn_id)),
            },
    {
        self.analysed.get(*game_id, *turn_id)
    }

    /// Keeps an analysed save for the given game and turn, in place of the
    /// one kept for them before, if any.
    pub fn keep_analysed(&mut self, game_id: &GameId, turn_id: &TurnId, save: Civ5Save)
        ensures
            final(self).states() == old(self).states(),
            final(self).cache() == old(self).cache().insert((*game_id, *turn_id), save@),
    {
        self.analysed.insert(*game_id, *turn_id, save);
    }

    /// Decodes the bytes of a save and keeps the result for the given game
    /// and turn. Bytes that are no save change nothing.
    pub fn analyse(&mut self, game_id: &GameId, turn_id: &TurnId, data: &[u8]) -> (r: Result<
        (),
        SaveError,
    >)
        ensures
            final(self).states() == old(self).states(),
            match parse_save(data@) {
                Ok(save) => {
                    &&& r is Ok
                    &&& final(self).cache() == old(self).cache().insert((*game_id, *turn_id), save)
                },
                Err(e) => {
                    &&& r == Err::<(), SaveError>(e)
                    &&& final(self).cache() == old(self).cache()
                },
            },
    {
        let mut reader = Civ5SaveReader::new(data);
        let save = reader.parse()?;
        self.analysed.insert(*game_id, *turn_id, save);
        Ok(())
    }

    /// Takes in the bytes of a finished download: they are decoded, the save
    /// is kept for the given game and turn, and the game is `Downloaded`.
    /// Bytes that are no save change nothing, so that the download can be
    /// tried again.
    pub fn store_downloaded_save(&mut self, game_id: &GameId, turn_id: &TurnId, data: &[u8]) -> (r:
        Result<(), SaveError>)
        ensures
            match parse_save(data@) {
                Ok(save) => {
                    &&& r is Ok
                    &&& final(self).cache() == old(self).cache().insert((*game_id, *turn_id), save)
                    &&& final(self).states() == old(self).states().insert(
                        *game_id,
                        TransferState::Downloaded,
                    )
                },
                Err(e) => {
                    &&& r == Err::<(), SaveError>(e)
                    &&& final(self).cache() == old(self).cache()
                    &&& final(self).states() == old(self).states()
                },
            },
    {
        self.analyse(game_id, turn_id, data)?;
        self.set_state(*game_id, TransferState::Downloaded);
        Ok(())
    }

    /// Looks at an idle game. At its first turn there is no save to fetch,
    /// and the game is `Downloaded` at once. Otherwise the game is
    /// `Downloading`, and the caller is asked to fetch its latest save.
    pub fn process_idle_state(&mut self, game: &Game) -> (r: Option<TransferAction>)
        ensures
            final(self).cache() == old(self).cache(),
            final(self).states() == old(self).states().insert(
                game@.game_id,
                step_state(TransferState::Idle, game@),
            ),
            match r {
                Some(action) => step_action(TransferState::Idle, game@) == Some(action@),
                None => step_action(TransferState::Idle, game@) is None,
            },
    {
        if game.current_turn.is_first_turn {
            self.set_state(game.game_id, TransferState::Downloaded);
            return None;
        }
        let file_name = naming::filename(game);
        self.set_state(game.game_id, TransferState::Downloading);
        Some(TransferAction::Download { game_id: game.game_id, file_name })
    }

    /// Looks at a game with a queued upload: the game is `Uploading`, and
    /// the caller is asked to send the bytes kept for it.
    pub fn process_upload_queued(&mut self, game: &Game) -> (r: TransferAction)
        ensures
            final(self).cache() == old(self).cache(),
            final(self).states() == old(self).states().insert(
                game@.game_id,
                TransferState::Uploading,
            ),
            step_action(TransferState::UploadQueued, game@) == Some(r@),
    {
        self.set_state(game.game_id, TransferState::Uploading);
        TransferAction::Upload { game_id: game.game_id, turn_id: game.current_turn.turn_id }
    }

    /// Looks at each of the games that wait for the user, in order, and
    /// moves on those that can move without anything from outside.
    pub fn process_transfers(&mut self, my_games: &Vec<Game>) -> (actions: Vec<TransferAction>)
        ensures
            final(self).cache() == old(self).cache(),
            final(self).states() == states_after(
                old(self).states(),
                game_views(my_games@),
                my_games@.len(),
            ),
            action_views(actions@) == actions_after(
                old(self).states(),
                game_views(my_games@),
                my_games@.len(),
            ),
    {
        let ghost games = game_views(my_games@);
        let mut actions: Vec<TransferAction> = Vec::new();
        let mut i: usize = 0;
        assert(action_views(actions@) =~= Seq::<TransferActionView>::empty());
        while i < my_games.len()
            invariant
                i <= my_games.len(),
                games == game_views(my_games@),
                self.cache() == old(self).cache(),
                self.states() == states_after(old(self).states(), games, i as nat),
                action_views(actions@) == actions_after(old(self).states(), games, i as nat),
            decreases my_games.len() - i,
        {
            let game = &my_games[i];
            assert(games[i as int] == game@);
            let ghost before = action_views(actions@);
            let ghost state_before = self.states();
            match self.transfer_state(game.game_id) {
                TransferState::Idle => {
                    match self.process_idle_state(game) {
                        Some(action) => {
                            actions.push(action);
                            assert(action_views(actions@) =~= before.push(action@));
                        },
                        None => {},
                    }
                },
                TransferState::UploadQueued => {
                    let action = self.process_upload_queued(game);
                    actions.push(action);
                    assert(action_views(actions@) =~= before.push(action@));
                },
                other => {
                    self.set_state(game.game_id, other);
                },
            }
            i += 1;
        }
        actions
    }

    /// Reads the messages that a download has sent so far. A message that
    /// the file is complete ends the download: its path is returned, for the
    /// caller to read the file and hand it to `store_downloaded_save`. Every
    /// other message, a failure too, leaves things as they are. The engine
    /// itself is not changed: the game stays `Downloading`.
    pub fn process_downloading_state(&self, messages: &Vec<DownloadMessage>) -> (r: Option<String>)
        ensures
            match r {
                Some(path) => first_done(messages@, 0) == Some(path@),
                None => first_done(messages@, 0) is None,
            },
    {
        let mut i: usize = 0;
        while i < messages.len()
            invariant
                i <= messages.len(),
                first_done(messages@, 0) == first_done(messages@, i as int),
            decreases messages.len() - i,
        {
            match &messages[i] {
                DownloadMessage::Done(path) => {
                    return Some(path.clone());
                },
                _ => {},
            }
            i += 1;
        }
        None
    }

    /// Reads the messages that the upload of a game has sent so far. Once
    /// the service has confirmed the upload, a game that is `Uploading` is
    /// `UploadComplete`; nothing else changes anything.
    pub fn process_uploading_state(&mut self, game_id: GameId, messages: &Vec<UploadMessage>) -> (r:
        bool)
        ensures
            final(self).cache() == old(self).cache(),
            r == (state_in(old(self).states(), game_id) == TransferState::Uploading
                && upload_confirmed(messages@)),
            final(self).states() == if r {
                old(self).states().insert(game_id, TransferState::UploadComplete)
            } else {
                old(self).states()
            },
    {
        match self.transfer_state(game_id) {
            TransferState::Uploading => {},
            _ => {
                return false;
            },
        }
        let mut i: usize = 0;
        while i < messages.len()
            invariant
                i <= messages.len(),
                self.cache() == old(self).cache(),
                self.states() == old(self).states(),
                state_in(self.states(), game_id) == TransferState::Uploading,
                forall|k: int| 0 <= k < i ==> !(#[trigger] messages@[k] is Done),
            decreases messages.len() - i,
        {
            match &messages[i] {
                UploadMessage::Done => {
                    self.set_state(game_id, TransferState::UploadComplete);
                    return true;
                },
                _ => {},
            }
            i += 1;
        }
        false
    }

    /// Selects the games that a new save may belong to, among the games that
    /// wait for the user: each is compared by the analysed save of its
    /// current turn.
    pub fn find_game_for_save(&self, new_parsed_save: &Civ5Save, my_games: &Vec<Game>) -> (found:
        Vec<GameId>)
        ensures
            found@ == matching_ids(
                new_parsed_save@,
                candidates_of(game_views(my_games@), self.cache()),
            ),
    {
        let mut candidates: Vec<Candidate<'_>> = Vec::new();
        let mut i: usize = 0;
        while i < my_games.len()
            invariant
                i <= my_games.len(),
                candidates.len() == i,
                forall|k: int|
                    0 <= k < i ==> (#[trigger] candidates@[k])@ == candidates_of(
                        game_views(my_games@),
                        self.cache(),
                    )[k],
            decreases my_games.len() - i,
        {
            let game = &my_games[i];
            let last_save = self.analysed(&game.game_id, &game.current_turn.turn_id);
            candidates.push(Candidate { game, last_save });
            i += 1;
        }
        assert(matcher::candidate_views(candidates@) =~= candidates_of(
            game_views(my_games@),
            self.cache(),
        ));
        matcher::find_game_for_save(new_parsed_save, &candidates)
    }

    /// The turn that the first of the games with the given id waits for.
    fn turn_of(my_games: &Vec<Game>, game_id: GameId) -> (r: Option<TurnId>)
        ensures
            r == turn_of_game(game_views(my_games@), game_id, 0),
    {
        let ghost games = game_views(my_games@);
        let mut i: usize = 0;
        while i < my_games.len()
            invariant
                i <= my_games.len(),
                games == game_views(my_games@),
                turn_of_game(games, game_id, 0) == turn_of_game(games, game_id, i as int),
            decreases my_games.len() - i,
        {
            assert(games[i as int] == my_games@[i as int]@);
            if my_games[i].game_id.0 == game_id.0 {
                return Some(my_games[i].current_turn.turn_id);
            }
            i += 1;
        }
        None
    }

    /// Gives a new save to the one game that it belongs to: the game is
    /// queued for upload, and the save is kept as the analysed save of the
    /// turn that the game waits for. Where no game or more than one fits,
    /// nothing is changed and the reason is returned.
    pub fn queue_upload(&mut self, new_parsed_save: &Civ5Save, my_games: &Vec<Game>) -> (r: Result<
        GameId,
        MatchError,
    >)
        ensures
            r == game_of_new_save(new_parsed_save@, game_views(my_games@), old(self).cache()),
            final(self).states() == match r {
                Ok(game_id) => old(self).states().insert(game_id, TransferState::UploadQueued),
                Err(_) => old(self).states(),
            },
            final(self).cache() == match r {
                Ok(game_id) => cache_with_new_save(
                    old(self).cache(),
                    game_views(my_games@),
                    game_id,
                    new_parsed_save@,
                ),
                Err(_) => old(self).cache(),
            },
    {
        let found = self.find_game_for_save(new_parsed_save, my_games);
        let game_id = matcher::resolve_match(&found)?;
        self.set_state(game_id, TransferState::UploadQueued);
        match Self::turn_of(my_games, game_id) {
            Some(turn_id) => {
                self.keep_analysed(&game_id, &turn_id, new_parsed_save.clone());
            },
            None => {},
        }
        Ok(game_id)
    }

    /// Takes in a new file of the directory of saves, the turn of its name
    /// being known. A file whose name gave no turn is ignored, and that is
    /// no error. Otherwise the bytes are decoded and the save is queued for
    /// upload for the one game that it belongs to, and kept as the analysed
    /// save of that game's turn. The caller keeps the bytes for that game.
    pub fn handle_new_save(&mut self, turn: Option<u64>, bytes: &[u8], my_games: &Vec<Game>) -> (r:
        Result<Option<GameId>, NewSaveError>)
        ensures
            r == new_save_outcome(turn, bytes@, game_views(my_games@), old(self).cache()),
            final(self).states() == match r {
                Ok(Some(game_id)) => old(self).states().insert(
                    game_id,
                    TransferState::UploadQueued,
                ),
                _ => old(self).states(),
            },
            final(self).cache() == match r {
                Ok(Some(game_id)) => cache_with_new_save(
                    old(self).cache(),
                    game_views(my_games@),
                    game_id,
                    parse_save(bytes@)->Ok_0,
                ),
                _ => old(self).cache(),
            },
    {
        if turn.is_none() {
            return Ok(None);
        }
        let mut reader = Civ5SaveReader::new(bytes);
        let new_parsed_save = match reader.parse() {
            Ok(save) => save,
            Err(e) => {
                return Err(NewSaveError::Save(e));
            },
        };
        match self.queue_upload(&new_parsed_save, my_games) {
            Ok(game_id) => Ok(Some(game_id)),
            Err(e) => Err(NewSaveError::Match(e)),
        }
    }

    /// Takes in a new file of the directory of saves. A file whose name
    /// does not have the pattern of a save is ignored, and that is no error.
    /// Otherwise the file is handled as `handle_new_save` says.
    pub fn handle_save(&mut self, filename: &str, bytes: &[u8], my_games: &Vec<Game>) -> (r: Result<
        Option<GameId>,
        NewSaveError,
    >)
        ensures
            r == new_save_outcome(
                turn_of_filename(filename@),
                bytes@,
                game_views(my_games@),
                old(self).cache(),
            ),
            final(self).states() == match r {
                Ok(Some(game_id)) => old(self).states().insert(
                    game_id,
                    TransferState::UploadQueued,
                ),
                _ => old(self).states(),
            },
            final(self).cache() == match r {
                Ok(Some(game_id)) => cache_with_new_save(
                    old(self).cache(),
                    game_views(my_games@),
                    game_id,
                    parse_save(bytes@)->Ok_0,
                ),
                _ => old(self).cache(),
            },
    {
        let turn = naming::turn_from_filename(filename);
        self.handle_new_save(turn, bytes, my_games)
    }

    /// Marks each of the given games as downloaded: they are the games for
    /// whose current turn the bytes of the save are stored already.
    pub fn fill_transfer_states(&mut self, downloaded: &Vec<GameId>)
        ensures
            final(self).cache() == old(self).cache(),
            final(self).states() == marked_downloaded(
                old(self).states(),
                downloaded@,
                downloaded@.len(),
            ),
    {
        let mut i: usize = 0;
        while i < downloaded.len()
            invariant
                i <= downloaded.len(),
                self.cache() == old(self).cache(),
                self.states() == marked_downloaded(old(self).states(), downloaded@, i as nat),
            decreases downloaded.len() - i,
        {
            self.set_state(downloaded[i], TransferState::Downloaded);
            i += 1;
        }
    }
}

/// What becomes of a new file whose name gave the turn `turn`: nothing where
/// the name gave none; else the game that the save is queued for, or why the
/// bytes are no save, or why the save is queued for no game.
pub open spec fn new_save_outcome(
    turn: Option<u64>,
    bytes: Seq<u8>,
    games: Seq<GameView>,
    cache: Map<(GameId, TurnId), SaveView>,
) -> Result<Option<GameId>, NewSaveError> {
    match turn {
        None => Ok(None),
        Some(_) => match parse_save(bytes) {
            Err(e) => Err(NewSaveError::Save(e)),
            Ok(save) => match game_of_new_save(save, games, cache) {
                Ok(game_id) => Ok(Some(game_id)),
                Err(e) => Err(NewSaveError::Match(e)),
            },
        },
    }
}

/// A game at its first turn goes from `Idle` to `Downloaded`, and nothing
/// is to be started for it.
pub proof fn first_turn_needs_no_download(game: GameView)
    requires
        game.current_turn.is_first_turn,
    ensures
        step_state(TransferState::Idle, game) == TransferState::Downloaded,
        step_action(TransferState::Idle, game) is None,
{
}

/// Whatever the states and the games: a download is started only for a game
/// of the list that is not at its first turn.
pub proof fn downloads_start_past_first_turn_only(
    states: Map<GameId, TransferState>,
    games: Seq<GameView>,
    n: nat,
    a: int,
)
    requires
        n <= games.len(),
        0 <= a < actions_after(states, games, n).len(),
        actions_after(states, games, n)[a] is Download,
    ensures
        exists|k: int|
            0 <= k < n && (#[trigger] games[k]).game_id == actions_after(
                states,
                games,
                n,
            )[a]->Download_game_id && !games[k].current_turn.is_first_turn,
    decreases n,
{
    if n > 0 {
        let before = actions_after(states, games, (n - 1) as nat);
        if a < before.len() {
            downloads_start_past_first_turn_only(states, games, (n - 1) as nat, a);
            let k = choose|k: int|
                0 <= k < n - 1 && (#[trigger] games[k]).game_id == before[a]->Download_game_id
                    && !games[k].current_turn.is_first_turn;
            assert(games[k].game_id == actions_after(states, games, n)[a]->Download_game_id);
        } else {
            assert(games[n - 1].game_id == actions_after(states, games, n)[a]->Download_game_id);
        }
    }
}

/// A look at the games, however many, leaves a game that is `Downloading`
/// in that state.
pub proof fn downloading_waits_for_the_download(
    states: Map<GameId, TransferState>,
    games: Seq<GameView>,
    n: nat,
    game_id: GameId,
)
    requires
        state_in(states, game_id) == TransferState::Downloading,
    ensures
        state_in(states_after(states, games, n), game_id) == TransferState::Downloading,
    decreases n,
{
    if n > 0 {
        downloading_waits_for_the_download(states, games, (n - 1) as nat, game_id);
    }
}

/// Every id among the matches is the id of one of the candidates.
proof fn lemma_matches_are_candidates(
    save: SaveView,
    candidates: Seq<CandidateView>,
    n: nat,
    a: int,
)
    requires
        n <= candidates.len(),
        0 <= a < matcher::matching_ids_upto(save, candidates, n).len(),
    ensures
        exists|k: int|
            0 <= k < n && (#[trigger] candidates[k]).game.game_id == matcher::matching_ids_upto(
                save,
                candidates,
                n,
            )[a],
    decreases n,
{
    if n > 0 {
        let before = matcher::matching_ids_upto(save, candidates, (n - 1) as nat);
        if a < before.len() {
            lemma_matches_are_candidates(save, candidates, (n - 1) as nat, a);
            let k = choose|k: int|
                0 <= k < n - 1 && (#[trigger] candidates[k]).game.game_id == before[a];
            assert(candidates[k].game.game_id == matcher::matching_ids_upto(save, candidates, n)[a]);
        } else {
            assert(candidates[n - 1].game.game_id == matcher::matching_ids_upto(
                save,
                candidates,
                n,
            )[a]);
        }
    }
}

/// A game of the list from index `from` on has a turn.
proof fn lemma_listed_game_has_a_turn(games: Seq<GameView>, game_id: GameId, from: int, k: int)
    requires
        0 <= from <= k < games.len(),
        games[k].game_id == game_id,
    ensures
        turn_of_game(games, game_id, from) is Some,
    decreases games.len() - from,
{
    if games[from].game_id != game_id {
        lemma_listed_game_has_a_turn(games, game_id, from + 1, k);
    }
}

/// The game that a new save is queued for is one of the games, so that
/// there is a turn for which the save is kept.
pub proof fn a_queued_save_is_kept(
    save: SaveView,
    games: Seq<GameView>,
    cache: Map<(GameId, TurnId), SaveView>,
)
    requires
        game_of_new_save(save, games, cache) is Ok,
    ensures
        ({
            let game_id = game_of_new_save(save, games, cache)->Ok_0;
            &&& turn_of_game(games, game_id, 0) matches Some(turn_id)
            &&& cache_with_new_save(cache, games, game_id, save).contains_key((game_id, turn_id))
            &&& cache_with_new_save(cache, games, game_id, save)[(game_id, turn_id)] == save
        }),
{
    let candidates = candidates_of(games, cache);
    lemma_matches_are_candidates(save, candidates, candidates.len(), 0);
    let game_id = game_of_new_save(save, games, cache)->Ok_0;
    let k = choose|k: int|
        0 <= k < candidates.len() && (#[trigger] candidates[k]).game.game_id == matching_ids(
            save,
            candidates,
        )[0];
    lemma_listed_game_has_a_turn(games, game_id, 0, k);
}

/// A state in which a game waits for something from outside: a look at the
/// game does not move it, and starts nothing.
pub open spec fn waits(state: TransferState) -> bool {
    state != TransferState::Idle && state != TransferState::UploadQueued
}

/// After a look at the games, each of them waits for something from outside.
pub proof fn lemma_looked_at_games_wait(
    states: Map<GameId, TransferState>,
    games: Seq<GameView>,
    n: nat,
    k: int,
)
    requires
        0 <= k < n <= games.len(),
    ensures
        waits(state_in(states_after(states, games, n), games[k].game_id)),
    decreases n,
{
    if k < n - 1 {
        lemma_looked_at_games_wait(states, games, (n - 1) as nat, k);
    }
}

/// A look at games that all wait for something from outside changes no
/// state and starts nothing.
pub proof fn lemma_waiting_games_stay(
    states: Map<GameId, TransferState>,
    games: Seq<GameView>,
    n: nat,
)
    requires
        n <= games.len(),
        forall|k: int| 0 <= k < n ==> waits(state_in(states, (#[trigger] games[k]).game_id)),
    ensures
        states_after(states, games, n) == states,
        actions_after(states, games, n) == Seq::<TransferActionView>::empty(),
    decreases n,
{
    if n > 0 {
        lemma_waiting_games_stay(states, games, (n - 1) as nat);
        let game = games[n - 1];
        assert(waits(state_in(states, game.game_id)));
        assert(states.insert(game.game_id, states[game.game_id]) =~= states);
    }
}

/// A second look at the same games, with nothing having happened in
/// between, changes no state and starts nothing: each download and each
/// upload is started once.
pub proof fn second_look_starts_nothing(states: Map<GameId, TransferState>, games: Seq<GameView>)
    ensures
        ({
            let after = states_after(states, games, games.len());
            &&& states_after(after, games, games.len()) == after
            &&& actions_after(after, games, games.len()) == Seq::<TransferActionView>::empty()
        }),
{
    let after = states_after(states, games, games.len());
    assert forall|k: int| 0 <= k < games.len() implies waits(
        state_in(after, (#[trigger] games[k]).game_id),
    ) by {
        lemma_looked_at_games_wait(states, games, games.len(), k);
    }
    lemma_waiting_games_stay(after, games, games.len());
}

/// The messages of a download hold the path of a finished file exactly if
/// one of them is `Done`.
pub proof fn done_ends_the_download(messages: Seq<DownloadMessage>, from: int)
    requires
        0 <= from,
    ensures
        first_done(messages, from) is Some <==> exists|i: int|
            from <= i < messages.len() && #[trigger] messages[i] is Done,
    decreases messages.len() - from,
{
    if from < messages.len() {
        done_ends_the_download(messages, from + 1);
        if !(messages[from] is Done) {
            if exists|i: int| from <= i < messages.len() && #[trigger] messages[i] is Done {
                let i = choose|i: int| from <= i < messages.len() && #[trigger] messages[i] is Done;
                assert(from + 1 <= i);
            }
        }
    }
}

/// A player's profile as it is stored: with the bytes of the avatar and the
/// time of their download, in seconds since the Unix epoch.
#[derive(Debug)]
pub struct StoredPlayer {
    pub player: Player,
    pub image_data: Vec<u8>,
    pub last_downloaded: u64,
}

/// Mathematical form of a [`StoredPlayer`].
pub struct StoredPlayerView {
    pub player: PlayerView,
    pub image_data: Seq<u8>,
    pub last_downloaded: u64,
}

impl View for StoredPlayer {
    type V = StoredPlayerView;

    open spec fn view(&self) -> StoredPlayerView {
        StoredPlayerView {
            player: self.player@,
            image_data: self.image_data@,
            last_downloaded: self.last_downloaded,
        }
    }
}

impl Clone for StoredPlayer {
    fn clone(&self) -> (r: Self)
        ensures
            r@ == self@,
    {
        let image_data = self.image_data.clone();
        assert(image_data@ =~= self.image_data@);
        StoredPlayer {
            player: self.player.clone(),
            image_data,
            last_downloaded: self.last_downloaded,
        }
    }
}

/// What the engine reports to the user interface.
#[derive(Debug)]
pub enum Event {
    AuthenticationSuccess,
    AuthenticationFailure,
    UpdatedGames(Vec<Game>),
    UpdatedPlayer(StoredPlayer),
}

/// Mathematical form of an [`Event`].
pub enum EventView {
    AuthenticationSuccess,
    AuthenticationFailure,
    UpdatedGames(Seq<GameView>),
    UpdatedPlayer(StoredPlayerView),
}

impl View for Event {
    type V = EventView;

    open spec fn view(&self) -> EventView {
        match *self {
            Event::AuthenticationSuccess => EventView::AuthenticationSuccess,
            Event::AuthenticationFailure => EventView::AuthenticationFailure,
            Event::UpdatedGames(games) => EventView::UpdatedGames(game_views(games@)),
            Event::UpdatedPlayer(player) => EventView::UpdatedPlayer(player@),
        }
    }
}

/// The views of a list of events, in order.
pub open spec fn event_views(events: Seq<Event>) -> Seq<EventView> {
    Seq::new(events.len(), |i: int| events[i]@)
}

/// What a request for the user's games brings, piece by piece.
#[derive(Debug)]
pub enum FetchGames {
    Games(Vec<Game>),
    StoredPlayer(StoredPlayer),
}

/// Mathematical form of what a fetch brought: a piece, or the reason of a
/// failure.
pub enum FetchedView {
    Games(Seq<GameView>),
    StoredPlayer(StoredPlayerView),
    Failed(Seq<char>),
}

/// The view of one fetched piece.
pub open spec fn fetched_view(fetched: Result<FetchGames, String>) -> FetchedView {
    match fetched {
        Ok(FetchGames::Games(games)) => FetchedView::Games(game_views(games@)),
        Ok(FetchGames::StoredPlayer(player)) => FetchedView::StoredPlayer(player@),
        Err(reason) => FetchedView::Failed(reason@),
    }
}

/// The views of a list of fetched pieces, in order.
pub open spec fn fetched_views(fetched: Seq<Result<FetchGames, String>>) -> Seq<FetchedView> {
    Seq::new(fetched.len(), |i: int| fetched_view(fetched[i]))
}

/// What the engine asks its caller to write to the store.
#[derive(Debug)]
pub enum Command {
    /// Store the user's id.
    SaveUserId(UserId),
    /// Forget the stored games.
    ClearGames,
    /// Store the games.
    SaveGames(Vec<Game>),
    /// Store the player's profile.
    SaveStoredPlayer(StoredPlayer),
}

/// Mathematical form of a [`Command`].
pub enum CommandView {
    SaveUserId(UserId),
    ClearGames,
    SaveGames(Seq<GameView>),
    SaveStoredPlayer(StoredPlayerView),
}

impl View for Command {
    type V = CommandView;

    open spec fn view(&self) -> CommandView {
        match *self {
            Command::SaveUserId(user_id) => CommandView::SaveUserId(user_id),
            Command::ClearGames => CommandView::ClearGames,
            Command::SaveGames(games) => CommandView::SaveGames(game_views(games@)),
            Command::SaveStoredPlayer(player) => CommandView::SaveStoredPlayer(player@),
        }
    }
}

/// The views of a list of commands, in order.
pub open spec fn command_views(commands: Seq<Command>) -> Seq<CommandView> {
    Seq::new(commands.len(), |i: int| commands[i]@)
}

/// What one round of the engine brought: what to report, what to store, and
/// the reason of the failure that ended the round early, if one did.
#[derive(Debug)]
pub struct Tick {
    pub events: Vec<Event>,
    pub commands: Vec<Command>,
    pub failure: Option<String>,
}

/// Mathematical form of a [`Tick`].
pub struct TickView {
    pub events: Seq<EventView>,
    pub commands: Seq<CommandView>,
    pub failure: Option<Seq<char>>,
}

impl View for Tick {
    type V = TickView;

    open spec fn view(&self) -> TickView {
        TickView {
            events: event_views(self.events@),
            commands: command_views(self.commands@),
            failure: match self.failure {
                Some(reason) => Some(reason@),
                None => None,
            },
        }
    }
}

/// What is reported for an answer to a request to authenticate.
pub open spec fn auth_event(response: Option<UserId>) -> EventView {
    match response {
        Some(_) => EventView::AuthenticationSuccess,
        None => EventView::AuthenticationFailure,
    }
}

/// What is stored for an answer to a request to authenticate: the user's
/// id, and before it the games are forgotten where they were those of
/// another user.
pub open spec fn auth_commands(previous: Option<UserId>, response: Option<UserId>) -> Seq<
    CommandView,
> {
    match response {
        Some(user_id) => if previous is Some && previous != Some(user_id) {
            seq![CommandView::SaveUserId(user_id), CommandView::ClearGames]
        } else {
            seq![CommandView::SaveUserId(user_id)]
        },
        None => Seq::empty(),
    }
}

/// The round before anything was fetched: what the answer to a request to
/// authenticate brings, where there is one.
pub open spec fn tick_of_auth(previous: Option<UserId>, auth: Option<Option<UserId>>) -> TickView {
    match auth {
        Some(response) => TickView {
            events: seq![auth_event(response)],
            commands: auth_commands(previous, response),
            failure: None,
        },
        None => TickView { events: Seq::empty(), commands: Seq::empty(), failure: None },
    }
}

/// The round after one more fetched piece. Games and profiles are stored
/// and reported; a failure ends the round, and nothing after it counts.
pub open spec fn tick_with(tick: TickView, fetched: FetchedView) -> TickView {
    if tick.failure is Some {
        tick
    } else {
        match fetched {
            FetchedView::Games(games) => TickView {
                events: tick.events.push(EventView::UpdatedGames(games)),
                commands: tick.commands.push(CommandView::SaveGames(games)),
                failure: None,
            },
            FetchedView::StoredPlayer(player) => TickView {
                events: tick.events.push(EventView::UpdatedPlayer(player)),
                commands: tick.commands.push(CommandView::SaveStoredPlayer(player)),
                failure: None,
            },
            FetchedView::Failed(reason) => TickView {
                events: tick.events,
                commands: tick.commands,
                failure: Some(reason),
            },
        }
    }
}

/// The round after the first `n` fetched pieces.
pub open spec fn tick_after(tick: TickView, fetched: Seq<FetchedView>, n: nat) -> TickView
    decreases n,
{
    if n == 0 {
        tick
    } else {
        tick_with(tick_after(tick, fetched, (n - 1) as nat), fetched[n - 1])
    }
}

/// The steps of a start of the engine.
#[derive(Clone, Copy, Debug, PartialEq, Eq, Structural)]
pub enum StartStep {
    /// Mark the games whose save is stored as downloaded.
    FillTransferStates,
    /// Ask the service who the user is.
    Authenticate,
    /// Ask the service for the user's games.
    FetchGames,
    /// Watch the directory of saves for new files.
    WatchSaves,
}

/// The steps of a start: the transfer states are filled in; the user is
/// authenticated where a key is stored; the games are fetched where a user
/// id is stored; and the directory of saves is watched.
pub open spec fn start_steps(has_auth_key: bool, has_user_id: bool) -> Seq<StartStep> {
    seq![StartStep::FillTransferStates] + if has_auth_key {
        seq![StartStep::Authenticate]
    } else {
        Seq::empty()
    } + if has_user_id {
        seq![StartStep::FetchGames]
    } else {
        Seq::empty()
    } + seq![StartStep::WatchSaves]
}

/// The games among the first `n` that wait for the user, in order.
pub open spec fn games_of_user(games: Seq<GameView>, user_id: UserId, n: nat) -> Seq<GameView>
    decreases n,
{
    if n == 0 {
        Seq::empty()
    } else {
        let before = games_of_user(games, user_id, (n - 1) as nat);
        if games[n - 1].current_turn.user_id == user_id {
            before.push(games[n - 1])
        } else {
            before
        }
    }
}

/// A request that needs to know the user came before the user was known.
#[derive(Clone, Copy, Debug, PartialEq, Eq, Structural)]
pub struct NotAuthenticated;

impl Manager {
    /// The steps of a start of the engine, in order.
    pub fn start(has_auth_key: bool, has_user_id: bool) -> (steps: Vec<StartStep>)
        ensures
            steps@ == start_steps(has_auth_key, has_user_id),
    {
        let mut steps: Vec<StartStep> = Vec::new();
        steps.push(StartStep::FillTransferStates);
        if has_auth_key {
            steps.push(StartStep::Authenticate);
        }
        if has_user_id {
            steps.push(StartStep::FetchGames);
        }
        steps.push(StartStep::WatchSaves);
        assert(steps@ =~= start_steps(has_auth_key, has_user_id));
        steps
    }

    /// Decides what an answer to a request to authenticate brings. An id
    /// means success: it is to be stored, and the stored games are to be
    /// forgotten where the user stored before was another one. No id means
    /// failure, and nothing is stored.
    pub fn handle_auth_response(previous_user_id: Option<UserId>, maybe_user_id: Option<UserId>) -> (r:
        (Event, Vec<Command>))
        ensures
            r.0@ == auth_event(maybe_user_id),
            command_views(r.1@) == auth_commands(previous_user_id, maybe_user_id),
    {
        let mut commands: Vec<Command> = Vec::new();
        match maybe_user_id {
            Some(user_id) => {
                commands.push(Command::SaveUserId(user_id));
                match previous_user_id {
                    Some(previous) => {
                        if previous.0 != user_id.0 {
                            commands.push(Command::ClearGames);
                        }
                    },
                    None => {},
                }
                assert(command_views(commands@) =~= auth_commands(
                    previous_user_id,
                    maybe_user_id,
                ));
                (Event::AuthenticationSuccess, commands)
            },
            None => {
                assert(command_views(commands@) =~= auth_commands(
                    previous_user_id,
                    maybe_user_id,
                ));
                (Event::AuthenticationFailure, commands)
            },
        }
    }

    /// Works off what has arrived since the last round: the answer to a
    /// request to authenticate, if there is one, and then the fetched
    /// pieces, in order. The first failure among them ends the round.
    pub fn process(
        previous_user_id: Option<UserId>,
        auth_response: Option<Option<UserId>>,
        fetched: Vec<Result<FetchGames, String>>,
    ) -> (tick: Tick)
        ensures
            tick@ == tick_after(
                tick_of_auth(previous_user_id, auth_response),
                fetched_views(fetched@),
                fetched@.len(),
            ),
    {
        let ghost start = tick_of_auth(previous_user_id, auth_response);
        let ghost pieces = fetched_views(fetched@);
        let mut events: Vec<Event> = Vec::new();
        let mut commands: Vec<Command> = Vec::new();
        match auth_response {
            Some(maybe_user_id) => {
                let (event, stores) = Self::handle_auth_response(previous_user_id, maybe_user_id);
                events.push(event);
                commands = stores;
            },
            None => {},
        }
        let mut tick = Tick { events, commands, failure: None };
        assert(tick@.events =~= start.events);
        assert(tick@.commands =~= start.commands);
        let mut i: usize = 0;
        while i < fetched.len()
            invariant
                i <= fetched.len(),
                pieces == fetched_views(fetched@),
                tick@ == tick_after(start, pieces, i as nat),
            decreases fetched.len() - i,
        {
            let ghost before = tick@;
            assert(pieces[i as int] == fetched_view(fetched@[i as int]));
            if tick.failure.is_none() {
                match &fetched[i] {
                    Ok(FetchGames::Games(games)) => {
                        let games = clone_games(games);
                        let stored = clone_games(&games);
                        tick.commands.push(Command::SaveGames(stored));
                        tick.events.push(Event::UpdatedGames(games));
                    },
                    Ok(FetchGames::StoredPlayer(player)) => {
                        tick.commands.push(Command::SaveStoredPlayer(player.clone()));
                        tick.events.push(Event::UpdatedPlayer(player.clone()));
                    },
                    Err(reason) => {
                        tick.failure = Some(reason.clone());
                    },
                }
                assert(tick@.events =~= tick_with(before, pieces[i as int]).events);
                assert(tick@.commands =~= tick_with(before, pieces[i as int]).commands);
            }
            i += 1;
        }
        tick
    }

    /// The games that wait for the given user, in the order of `games`.
    /// Without a user there is no answer.
    pub fn my_games(games: &Vec<Game>, user_id: Option<UserId>) -> (r: Result<
        Vec<Game>,
        NotAuthenticated,
    >)
        ensures
            match user_id {
                Some(id) => r matches Ok(mine) && game_views(mine@) == games_of_user(
                    game_views(games@),
                    id,
                    games@.len(),
                ),
                None => r is Err,
            },
    {
        let id = match user_id {
            Some(id) => id,
            None => {
                return Err(NotAuthenticated);
            },
        };
        let mut mine: Vec<Game> = Vec::new();
        let mut i: usize = 0;
        assert(game_views(mine@) =~= Seq::<GameView>::empty());
        while i < games.len()
            invariant
                i <= games.len(),
                game_views(mine@) == games_of_user(game_views(games@), id, i as nat),
            decreases games.len() - i,
        {
            let game = &games[i];
            let ghost before = game_views(mine@);
            if game.is_user_id_turn(&id) {
                let copy = game.clone();
                mine.push(copy);
                assert(game_views(mine@) =~= before.push(game@));
            }
            i += 1;
        }
        Ok(mine)
    }
}

/// A copy of a list of games.
pub fn clone_games(games: &Vec<Game>) -> (r: Vec<Game>)
    ensures
        game_views(r@) == game_views(games@),
{
    let mut copy: Vec<Game> = Vec::new();
    let mut i: usize = 0;
    while i < games.len()
        invariant
            i <= games.len(),
            copy.len() == i,
            forall|k: int| 0 <= k < i ==> (#[trigger] copy@[k])@ == games@[k]@,
        decreases games.len() - i,
    {
        copy.push(games[i].clone());
        i += 1;
    }
    assert(game_views(copy@) =~= game_views(games@));
    copy
}

/// Player `j` of game `i` is the given user.
pub open spec fn seat_of(games: Seq<GameView>, i: int, j: int, user_id: UserId) -> bool {
    0 <= i < games.len() && 0 <= j < games[i].players.len() && games[i].players[j].user_id
        == user_id
}

/// The user has a seat in one of the games.
pub open spec fn plays_in(games: Seq<GameView>, user_id: UserId) -> bool {
    exists|i: int, j: int| seat_of(games, i, j, user_id)
}

/// The ids rise strictly, so that none stands twice.
pub open spec fn ascending(ids: Seq<UserId>) -> bool {
    forall|i: int, j: int| 0 <= i < j < ids.len() ==> ids[i].0 < ids[j].0
}

/// Whether the list holds the id.
fn contains_id(ids: &Vec<UserId>, user_id: UserId) -> (r: bool)
    ensures
        r == ids@.contains(user_id),
{
    let mut i: usize = 0;
    while i < ids.len()
        invariant
            i <= ids.len(),
            forall|k: int| 0 <= k < i ==> ids@[k] != user_id,
        decreases ids.len() - i,
    {
        if ids[i].0 == user_id.0 {
            return true;
        }
        i += 1;
    }
    false
}

/// Puts the id into the rising list at its place, unless it stands there
/// already.
fn insert_ascending(ids: &mut Vec<UserId>, user_id: UserId)
    requires
        ascending(old(ids)@),
    ensures
        ascending(final(ids)@),
        forall|u: UserId| final(ids)@.contains(u) <==> old(ids)@.contains(u) || u == user_id,
{
    let mut at: usize = 0;
    while at < ids.len() && ids[at].0 < user_id.0
        invariant
            at <= ids.len(),
            ids@ == old(ids)@,
            forall|k: int| 0 <= k < at ==> ids@[k].0 < user_id.0,
        decreases ids.len() - at,
    {
        at += 1;
    }
    if at < ids.len() && ids[at].0 == user_id.0 {
        assert(ids@[at as int] == user_id);
        return ;
    }
    ids.insert(at, user_id);
    proof {
        let before = old(ids)@;
        let after = ids@;
        assert(after[at as int] == user_id);
        assert forall|u: UserId| after.contains(u) <==> before.contains(u) || u == user_id by {
            if after.contains(u) {
                let k = choose|k: int| 0 <= k < after.len() && after[k] == u;
                if k < at {
                    assert(before[k] == u);
                } else if k > at {
                    assert(before[k - 1] == u);
                }
            }
            if before.contains(u) {
                let k = choose|k: int| 0 <= k < before.len() && before[k] == u;
                if k < at {
                    assert(after[k] == u);
                } else {
                    assert(after[k + 1] == u);
                }
            }
        }
        assert forall|i: int, j: int| 0 <= i < j < after.len() implies after[i].0
            < after[j].0 by {
            let bi = if i < at {
                i
            } else {
                i - 1
            };
            let bj = if j < at {
                j
            } else {
                j - 1
            };
            if i != at && j != at {
                assert(before[bi].0 < before[bj].0);
            } else if i == at {
                assert(before[at as int].0 <= before[bj].0);
            }
        }
    }
}

/// The user has a seat among the players of the games before game `i`, or
/// among the first `j` players of game `i`.
pub open spec fn plays_before(games: Seq<GameView>, i: int, j: int, user_id: UserId) -> bool {
    exists|a: int, b: int| seat_of(games, a, b, user_id) && (a < i || (a == i && b < j))
}

/// The players of the games whose profiles are not known yet: every user
/// with a seat in one of the games who is not among the known ones, once
/// each, by rising id.
pub fn filter_unknown_players(games: &GetGamesAndPlayers, known: &Vec<UserId>) -> (r: Vec<UserId>)
    ensures
        ascending(r@),
        forall|u: UserId|
            r@.contains(u) <==> plays_in(game_views(games.games@), u) && !known@.contains(u),
{
    let ghost all = game_views(games.games@);
    let mut out: Vec<UserId> = Vec::new();
    let mut i: usize = 0;
    while i < games.games.len()
        invariant
            i <= games.games.len(),
            all == game_views(games.games@),
            ascending(out@),
            forall|u: UserId|
                out@.contains(u) <==> plays_before(all, i as int, 0, u) && !known@.contains(u),
        decreases games.games.len() - i,
    {
        let game = &games.games[i];
        assert(all[i as int] == game@);
        let mut j: usize = 0;
        while j < game.players.len()
            invariant
                i < games.games.len(),
                j <= game.players.len(),
                all == game_views(games.games@),
                all[i as int] == game@,
                ascending(out@),
                forall|u: UserId|
                    out@.contains(u) <==> plays_before(all, i as int, j as int, u)
                        && !known@.contains(u),
            decreases game.players.len() - j,
        {
            let user_id = game.players[j].user_id;
            let ghost before = out@;
            if !contains_id(known, user_id) {
                insert_ascending(&mut out, user_id);
            }
            proof {
                assert(seat_of(all, i as int, j as int, user_id));
                assert forall|u: UserId|
                    out@.contains(u) <==> plays_before(all, i as int, j + 1, u)
                        && !known@.contains(u) by {
                    if plays_before(all, i as int, j + 1, u) {
                        let (a, b) = choose|a: int, b: int|
                            seat_of(all, a, b, u) && (a < i || (a == i && b < j + 1));
                        if !(a == i && b == j) {
                            assert(seat_of(all, a, b, u) && (a < i || (a == i && b < j)));
                        }
                    }
                    if plays_before(all, i as int, j as int, u) {
                        let (a, b) = choose|a: int, b: int|
                            seat_of(all, a, b, u) && (a < i || (a == i && b < j));
                        assert(seat_of(all, a, b, u) && (a < i || (a == i && b < j + 1)));
                    }
                    if u == user_id {
                        assert(seat_of(all, i as int, j as int, u) && (i < i || (i == i && j < j
                            + 1)));
                    }
                }
            }
            j += 1;
        }
        proof {
            assert forall|u: UserId|
                out@.contains(u) <==> plays_before(all, i + 1, 0, u) && !known@.contains(u) by {
                if plays_before(all, i + 1, 0, u) {
                    let (a, b) = choose|a: int, b: int|
                        seat_of(all, a, b, u) && (a < i + 1 || (a == i + 1 && b < 0));
                    assert(seat_of(all, a, b, u) && (a < i || (a == i && b < game.players.len())));
                }
                if plays_before(all, i as int, game.players.len() as int, u) {
                    let (a, b) = choose|a: int, b: int|
                        seat_of(all, a, b, u) && (a < i || (a == i && b < game.players.len()));
                    assert(seat_of(all, a, b, u) && (a < i + 1 || (a == i + 1 && b < 0)));
                }
            }
        }
        i += 1;
    }
    proof {
        assert forall|u: UserId|
            plays_before(all, games.games.len() as int, 0, u) <==> plays_in(all, u) by {
            if plays_in(all, u) {
                let (a, b) = choose|a: int, b: int| seat_of(all, a, b, u);
                assert(seat_of(all, a, b, u) && (a < games.games.len() || (a == games.games.len()
                    && b < 0)));
            }
        }
    }
    out
}

} // verus!
