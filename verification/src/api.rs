//! The records that the relay service hands out, and the client's own
//! credentials.

use crate::text::{decimal, decimal_string, parse_decimal, parse_u64, push_decimal};
use vstd::prelude::*;
use vstd::string::StringExecFns;

verus! {

/// Identifier of a user at the relay service.
#[derive(Default, Debug, Copy, Clone, PartialEq, Eq, Hash, Structural)]
pub struct UserId(pub u64);

impl From<u64> for UserId {
    fn from(id: u64) -> (r: Self) {
        UserId(id)
    }
}

impl vstd::std_specs::convert::FromSpecImpl<u64> for UserId {
    open spec fn obeys_from_spec() -> bool {
        true
    }

    open spec fn from_spec(id: u64) -> Self {
        UserId(id)
    }
}

/// Identifier of a game at the relay service.
#[derive(Default, Debug, Copy, Clone, PartialEq, Eq, Hash, Structural)]
pub struct GameId(pub u32);

impl From<u32> for GameId {
    fn from(id: u32) -> (r: Self) {
        GameId(id)
    }
}

impl vstd::std_specs::convert::FromSpecImpl<u32> for GameId {
    open spec fn obeys_from_spec() -> bool {
        true
    }

    open spec fn from_spec(id: u32) -> Self {
        GameId(id)
    }
}

/// Identifier of one turn of one game at the relay service.
#[derive(Default, Debug, Copy, Clone, PartialEq, Eq, Hash, Structural)]
pub struct TurnId(pub u64);

impl From<u64> for TurnId {
    fn from(id: u64) -> (r: Self) {
        TurnId(id)
    }
}

impl vstd::std_specs::convert::FromSpecImpl<u64> for TurnId {
    open spec fn obeys_from_spec() -> bool {
        true
    }

    open spec fn from_spec(id: u64) -> Self {
        TurnId(id)
    }
}

impl UserId {
    /// The identifier in decimal notation.
    pub fn to_string(&self) -> (r: String)
        ensures
            r@ == decimal(self.0 as nat),
    {
        decimal_string(self.0)
    }
}

impl GameId {
    /// The identifier in decimal notation.
    pub fn to_string(&self) -> (r: String)
        ensures
            r@ == decimal(self.0 as nat),
    {
        decimal_string(self.0 as u64)
    }
}

impl TurnId {
    /// The identifier in decimal notation.
    pub fn to_string(&self) -> (r: String)
        ensures
            r@ == decimal(self.0 as nat),
    {
        decimal_string(self.0)
    }
}

/// A player's seat in a game.
#[derive(Default, Debug, Copy, Clone, PartialEq, Eq, Structural)]
pub struct PlayerOrder {
    pub user_id: UserId,
    pub turn_order: u16,
}

/// The turn that a game is waiting for.
#[derive(Default, Debug, PartialEq)]
pub struct CurrentTurn {
    pub turn_id: TurnId,
    pub number: u64,
    pub user_id: UserId,
    pub started: String,
    pub expires: Option<String>,
    pub skipped: bool,
    pub player_number: u64,
    pub is_first_turn: bool,
}

/// Mathematical form of a [`CurrentTurn`].
pub struct CurrentTurnView {
    pub turn_id: TurnId,
    pub number: u64,
    pub user_id: UserId,
    pub started: Seq<char>,
    pub expires: Option<Seq<char>>,
    pub skipped: bool,
    pub player_number: u64,
    pub is_first_turn: bool,
}

impl View for CurrentTurn {
    type V = CurrentTurnView;

    open spec fn view(&self) -> CurrentTurnView {
        CurrentTurnView {
            turn_id: self.turn_id,
            number: self.number,
            user_id: self.user_id,
            started: self.started@,
            expires: match self.expires {
                Some(s) => Some(s@),
                None => None,
            },
            skipped: self.skipped,
            player_number: self.player_number,
            is_first_turn: self.is_first_turn,
        }
    }
}

impl Clone for CurrentTurn {
    fn clone(&self) -> (r: Self)
        ensures
            r@ == self@,
    {
        CurrentTurn {
            turn_id: self.turn_id,
            number: self.number,
            user_id: self.user_id,
            started: self.started.clone(),
            expires: match &self.expires {
                Some(s) => Some(s.clone()),
                None => None,
            },
            skipped: self.skipped,
            player_number: self.player_number,
            is_first_turn: self.is_first_turn,
        }
    }
}

/// A game as the relay service lists it.
#[derive(Default, Debug, PartialEq)]
pub struct Game {
    pub name: String,
    pub game_id: GameId,
    pub players: Vec<PlayerOrder>,
    pub current_turn: CurrentTurn,
    pub typ: u8,
}

/// Mathematical form of a [`Game`].
pub struct GameView {
    pub name: Seq<char>,
    pub game_id: GameId,
    pub players: Seq<PlayerOrder>,
    pub current_turn: CurrentTurnView,
    pub typ: u8,
}

impl View for Game {
    type V = GameView;

    open spec fn view(&self) -> GameView {
        GameView {
            name: self.name@,
            game_id: self.game_id,
            players: self.players@,
            current_turn: self.current_turn@,
            typ: self.typ,
        }
    }
}

impl Clone for Game {
    fn clone(&self) -> (r: Self)
        ensures
            r@ == self@,
    {
        let players = self.players.clone();
        assert(players@ =~= self.players@);
        Game {
            name: self.name.clone(),
            game_id: self.game_id,
            players,
            current_turn: self.current_turn.clone(),
            typ: self.typ,
        }
    }
}

/// The views of a list of games, in order.
pub open spec fn game_views(games: Seq<Game>) -> Seq<GameView> {
    Seq::new(games.len(), |i: int| games[i]@)
}

impl Game {
    /// Whether the game waits for the given user.
    pub fn is_user_id_turn(&self, user_id: &UserId) -> (r: bool)
        ensures
            r == (self@.current_turn.user_id == *user_id),
    {
        self.current_turn.user_id.0 == user_id.0
    }
}

/// A user's public profile.
#[derive(Default, Debug, PartialEq)]
pub struct Player {
    pub steam_id: UserId,
    pub persona_name: String,
    pub avatar_url: String,
    pub persona_state: u64,
    pub game_id: GameId,
}

/// Mathematical form of a [`Player`].
pub struct PlayerView {
    pub steam_id: UserId,
    pub persona_name: Seq<char>,
    pub avatar_url: Seq<char>,
    pub persona_state: u64,
    pub game_id: GameId,
}

impl View for Player {
    type V = PlayerView;

    open spec fn view(&self) -> PlayerView {
        PlayerView {
            steam_id: self.steam_id,
            persona_name: self.persona_name@,
            avatar_url: self.avatar_url@,
            persona_state: self.persona_state,
            game_id: self.game_id,
        }
    }
}

impl Clone for Player {
    fn clone(&self) -> (r: Self)
        ensures
            r@ == self@,
    {
        Player {
            steam_id: self.steam_id,
            persona_name: self.persona_name.clone(),
            avatar_url: self.avatar_url.clone(),
            persona_state: self.persona_state,
            game_id: self.game_id,
        }
    }
}

/// The answer to a request for the user's games and for player profiles.
#[derive(Default, Debug, Clone, PartialEq)]
pub struct GetGamesAndPlayers {
    pub games: Vec<Game>,
    pub players: Vec<Player>,
    pub current_total_points: u64,
}

/// The answer to an upload.
#[derive(Default, Debug, Copy, Clone, PartialEq, Eq, Structural)]
pub struct UploadResponse {
    pub result_type: u8,
    pub points_earned: u32,
}

/// The client's credentials for the relay service.
#[derive(Debug)]
pub struct Api {
    auth_key: String,
}

impl Api {
    /// A client that authenticates with the given key.
    pub fn new(auth_key: &str) -> (r: Self)
        ensures
            r.spec_auth_key() == auth_key@,
    {
        Api { auth_key: auth_key.to_owned() }
    }

    /// The key that the client authenticates with.
    pub closed spec fn spec_auth_key(&self) -> Seq<char> {
        self.auth_key@
    }

    /// The key that the client authenticates with.
    pub fn auth_key(&self) -> (r: &str)
        ensures
            r@ == self.spec_auth_key(),
    {
        self.auth_key.as_str()
    }
}

/// Why an answer of the relay service is of no use.
#[derive(Clone, Copy, Debug, PartialEq, Eq, Structural)]
pub enum ApiError {
    /// The answer to a request to authenticate is neither `null` nor a
    /// number.
    NotANumber,
    /// The service answered an upload with result type 0.
    UploadRejected,
}

/// The view of a list of pairs of strings, in order.
pub open spec fn pair_views(pairs: Seq<(String, String)>) -> Seq<(Seq<char>, Seq<char>)> {
    Seq::new(pairs.len(), |i: int| (pairs[i].0@, pairs[i].1@))
}

/// What an answer to a request to authenticate means: `null` is no user, a
/// number is the user's id, anything else is an error.
pub open spec fn authenticate_response(text: Seq<char>) -> Result<Option<UserId>, ApiError> {
    if text == "null"@ {
        Ok(None)
    } else {
        match parse_decimal(text) {
            Some(id) => Ok(Some(UserId(id))),
            None => Err(ApiError::NotANumber),
        }
    }
}

/// The first `n` ids in decimal notation, with an underscore between each
/// two.
pub open spec fn joined_ids(ids: Seq<UserId>, n: nat) -> Seq<char>
    decreases n,
{
    if n == 0 {
        Seq::empty()
    } else if n == 1 {
        decimal(ids[0].0 as nat)
    } else {
        joined_ids(ids, (n - 1) as nat) + "_"@ + decimal(ids[n - 1].0 as nat)
    }
}

impl Api {
    /// The address of an endpoint of the service.
    pub fn url(endpoint: &str) -> (r: String)
        ensures
            r@ == "http://multiplayerrobot.com/api/Diplomacy/"@ + endpoint@,
    {
        let mut s = String::from_str("http://multiplayerrobot.com/api/Diplomacy/");
        s.append(endpoint);
        s
    }

    /// The parameters of a request: the key first, then the given ones.
    pub fn query(&self, extra_query: &Vec<(String, String)>) -> (r: Vec<(String, String)>)
        ensures
            pair_views(r@) == seq![("authKey"@, self.spec_auth_key())] + pair_views(extra_query@),
    {
        let mut query: Vec<(String, String)> = Vec::new();
        query.push((String::from_str("authKey"), self.auth_key.clone()));
        let mut i: usize = 0;
        while i < extra_query.len()
            invariant
                i <= extra_query.len(),
                query.len() == i + 1,
                query@[0].0@ == "authKey"@,
                query@[0].1@ == self.spec_auth_key(),
                forall|k: int|
                    1 <= k <= i ==> (#[trigger] query@[k]).0@ == extra_query@[k - 1].0@
                        && query@[k].1@ == extra_query@[k - 1].1@,
            decreases extra_query.len() - i,
        {
            let pair = &extra_query[i];
            query.push((pair.0.clone(), pair.1.clone()));
            i += 1;
        }
        assert(pair_views(query@) =~= seq![("authKey"@, self.spec_auth_key())] + pair_views(
            extra_query@,
        ));
        query
    }

    /// Reads the answer to a request to authenticate. No user means that
    /// the key was not accepted.
    pub fn parse_authenticate_response(text: &str) -> (r: Result<Option<UserId>, ApiError>)
        ensures
            r == authenticate_response(text@),
    {
        if is_null(text) {
            return Ok(None);
        }
        match parse_u64(text) {
            Some(id) => Ok(Some(UserId(id))),
            None => Err(ApiError::NotANumber),
        }
    }

    /// The ids as the service wants them in a request for profiles: in
    /// decimal notation, with an underscore between each two.
    pub fn player_id_text(player_ids: &Vec<UserId>) -> (r: String)
        ensures
            r@ == joined_ids(player_ids@, player_ids@.len()),
    {
        let mut s = String::new();
        let mut i: usize = 0;
        while i < player_ids.len()
            invariant
                i <= player_ids.len(),
                s@ == joined_ids(player_ids@, i as nat),
            decreases player_ids.len() - i,
        {
            let ghost before = s@;
            if i > 0 {
                s.append("_");
            }
            push_decimal(&mut s, player_ids[i].0);
            proof {
                if i == 0 {
                    assert(before + decimal(player_ids@[0].0 as nat) =~= decimal(
                        player_ids@[0].0 as nat,
                    ));
                }
            }
            i += 1;
        }
        s
    }

    /// The name under which the save of a turn is uploaded.
    pub fn upload_file_name(turn_id: TurnId) -> (r: String)
        ensures
            r@ == decimal(turn_id.0 as nat) + ".Civ5Save"@,
    {
        let mut s = String::new();
        push_decimal(&mut s, turn_id.0);
        s.append(".Civ5Save");
        assert(Seq::<char>::empty() + decimal(turn_id.0 as nat) =~= decimal(turn_id.0 as nat));
        s
    }

    /// Whether the service took an upload: result type 0 means that it did
    /// not.
    pub fn check_upload_response(response: &UploadResponse) -> (r: Result<(), ApiError>)
        ensures
            r == if response.result_type == 0 {
                Err::<(), ApiError>(ApiError::UploadRejected)
            } else {
                Ok(())
            },
    {
        if response.result_type == 0 {
            Err(ApiError::UploadRejected)
        } else {
            Ok(())
        }
    }
}

/// Whether the text is the word `null`.
fn is_null(text: &str) -> (r: bool)
    ensures
        r == (text@ == "null"@),
{
    let chars = crate::text::chars_of(text);
    proof {
        reveal_strlit("null");
    }
    let r = chars.len() == 4 && chars[0] == 'n' && chars[1] == 'u' && chars[2] == 'l' && chars[3]
        == 'l';
    proof {
        if r {
            assert(text@ =~= "null"@);
        }
    }
    r
}

impl Clone for Api {
    fn clone(&self) -> (r: Self)
        ensures
            r.spec_auth_key() == self.spec_auth_key(),
    {
        Api { auth_key: self.auth_key.clone() }
    }
}

/// What a running download reports, in this order: `Started`, any number of
/// `Chunk`, then one of `Done` and `Error`.
#[derive(Debug)]
pub enum DownloadMessage {
    /// The download failed, with the reason.
    Error(String),
    /// The download began; the size of the file where the service told it.
    Started(Option<u64>),
    /// More bytes have arrived.
    Chunk,
    /// The file is complete and stands at the given path.
    Done(String),
}

/// What a running upload reports, in this order: `Started`, any number of
/// `Chunk`, then one of `Done` and `Error`.
#[derive(Debug)]
pub enum UploadMessage {
    /// The upload failed, with the reason.
    Error(String),
    /// The upload began.
    Started,
    /// More bytes have been sent.
    Chunk,
    /// The service has confirmed the upload.
    Done,
}

} // verus!
