//! The names that the engine gives to files and stored values, and the turn
//! number that the game puts into the name of a save file.

use crate::api::{Game, GameId, TurnId, UserId};
use crate::text::{chars_of, decimal, parse_decimal, parse_u64, push_decimal};
use regex::Regex;
use vstd::prelude::*;
use vstd::string::StringExecFns;
use vstd::utf8::{decode_utf8, encode_utf8, valid_utf8};

verus! {

/// The pattern of the file names that the game gives to the saves of a
/// hot-seat game, from the first character of the name to the last: the next
/// leader, an underscore, the turn in four digits, a space, `BC` or `AD`, a
/// hyphen, the year, and the extension.
pub const SAVE_NAME_PATTERN: &'static str =
    "^(?P<leader>.*?)_(?P<turn>\\d{4}) (?P<year>(?:BC|AD)-.*?)\\.Civ5Save$";

/// The name of the group of `SAVE_NAME_PATTERN` that holds the turn.
pub const TURN_GROUP: &'static str = "turn";

/// What the named group of a regular expression holds for the leftmost match
/// of the expression in a text. There is no such value where the pattern is
/// no valid expression, where it matches nowhere in the text, and where the
/// group took no part in the match.
pub uninterp spec fn named_capture(pattern: Seq<char>, group: Seq<char>, text: Seq<char>) -> Option<
    Seq<char>,
>;

/// Compiles the pattern with `regex::Regex::new`, searches the text with
/// `Regex::captures`, and takes the group with `Captures::name`. The result
/// is a function of the three texts alone; the contract gives it a name and
/// states nothing else of it.
#[verifier::external_body]
fn capture_named(pattern: &str, group: &str, text: &str) -> (r: Option<String>)
    ensures
        match r {
            Some(found) => named_capture(pattern@, group@, text@) == Some(found@),
            None => named_capture(pattern@, group@, text@) is None,
        },
{
    let expression = Regex::new(pattern).ok()?;
    let captures = expression.captures(text)?;
    Some(captures.name(group)?.as_str().to_owned())
}

/// The turn that the captured digits of a file name denote, if the name had
/// the pattern of a save at all.
pub open spec fn turn_of_capture(capture: Option<Seq<char>>) -> Option<u64> {
    match capture {
        Some(digits) => parse_decimal(digits),
        None => None,
    }
}

/// The turn number in the name of a save file, for a name that has the
/// pattern of such names.
pub open spec fn turn_of_filename(filename: Seq<char>) -> Option<u64> {
    turn_of_capture(named_capture(SAVE_NAME_PATTERN@, TURN_GROUP@, filename))
}

/// The turn that the digits captured from a file name denote. A name that
/// did not match gives no turn, and neither do digits other than `0` to `9`.
pub fn turn_from_capture(capture: &Option<String>) -> (r: Option<u64>)
    ensures
        r == turn_of_capture(
            match *capture {
                Some(digits) => Some(digits@),
                None => None,
            },
        ),
{
    match capture {
        Some(digits) => parse_u64(digits.as_str()),
        None => None,
    }
}

/// The turn number in the name of a save file. A name that does not have the
/// pattern of such names gives none; that is no error.
pub fn turn_from_filename(filename: &str) -> (r: Option<u64>)
    ensures
        r == turn_of_filename(filename@),
{
    let capture = capture_named(SAVE_NAME_PATTERN, TURN_GROUP, filename);
    turn_from_capture(&capture)
}

/// Whether a character may not stand in a file name.
pub open spec fn is_reserved(c: char) -> bool {
    c == '.' || c == '/' || c == '\\' || c == '"' || c == '<' || c == '>' || c == '|' || c == ':'
        || c == '*' || c == '?'
}

/// The name with an underscore in place of each reserved character.
pub open spec fn sanitized(name: Seq<char>) -> Seq<char> {
    Seq::new(
        name.len(),
        |i: int|
            if is_reserved(name[i]) {
                '_'
            } else {
                name[i]
            },
    )
}

/// Appends the name, with an underscore in place of each reserved character.
fn push_sanitized(s: &mut String, name: &str)
    ensures
        final(s)@ == old(s)@ + sanitized(name@),
{
    let chars = chars_of(name);
    let mut i: usize = 0;
    assert(s@ =~= old(s)@ + sanitized(name@).take(0));
    while i < chars.len()
        invariant
            i <= chars.len(),
            chars@ == name@,
            s@ == old(s)@ + sanitized(name@).take(i as int),
        decreases chars.len() - i,
    {
        let c = chars[i];
        let reserved = c == '.' || c == '/' || c == '\\' || c == '"' || c == '<' || c == '>' || c
            == '|' || c == ':' || c == '*' || c == '?';
        let clean = if reserved {
            '_'
        } else {
            c
        };
        s.push(clean);
        assert((old(s)@ + sanitized(name@).take(i as int)).push(clean) =~= old(s)@ + sanitized(
            name@,
        ).take(i + 1));
        i += 1;
    }
    assert(sanitized(name@).take(chars@.len() as int) =~= sanitized(name@));
}

/// The name of the file that the latest save of a game is downloaded to.
pub open spec fn save_file_name(game_id: GameId, name: Seq<char>) -> Seq<char> {
    "(civfun "@ + decimal(game_id.0 as nat) + ") "@ + sanitized(name) + ".Civ5Save"@
}

/// The name of the file that the latest save of the game is downloaded to:
/// it is made of the game's id and of its name without reserved characters.
pub fn filename(game: &Game) -> (r: String)
    ensures
        r@ == save_file_name(game@.game_id, game@.name),
{
    let mut s = String::from_str("(civfun ");
    push_decimal(&mut s, game.game_id.0 as u64);
    s.append(") ");
    push_sanitized(&mut s, game.name.as_str());
    s.append(".Civ5Save");
    s
}

/// The key under which a player's profile is stored.
pub fn player_info_key(user_id: &UserId) -> (r: String)
    ensures
        r@ == "player-info-"@ + decimal(user_id.0 as nat),
{
    let mut s = String::from_str("player-info-");
    push_decimal(&mut s, user_id.0);
    s
}

/// The key under which the bytes of a downloaded save are stored.
pub fn saved_bytes_db_key(game_id: &GameId, turn_id: &TurnId) -> (r: String)
    ensures
        r@ == "saved-bytes-"@ + decimal(game_id.0 as nat) + "-"@ + decimal(turn_id.0 as nat),
{
    let mut s = String::from_str("saved-bytes-");
    push_decimal(&mut s, game_id.0 as u64);
    s.append("-");
    push_decimal(&mut s, turn_id.0);
    s
}

/// The key under which an analysed save is stored.
pub fn analysed_game_key(game_id: &GameId, turn_id: &TurnId) -> (r: String)
    ensures
        r@ == "analysed-"@ + decimal(game_id.0 as nat) + "-"@ + decimal(turn_id.0 as nat),
{
    let mut s = String::from_str("analysed-");
    push_decimal(&mut s, game_id.0 as u64);
    s.append("-");
    push_decimal(&mut s, turn_id.0);
    s
}

/// The key under which the bytes of a save that waits for upload are stored.
pub fn upload_bytes_db_key(game_id: &GameId) -> (r: String)
    ensures
        r@ == "upload-bytes-"@ + decimal(game_id.0 as nat),
{
    let mut s = String::from_str("upload-bytes-");
    push_decimal(&mut s, game_id.0 as u64);
    s
}

/// Why a stored value could not be read.
#[derive(Clone, Copy, Debug, PartialEq, Eq, Structural)]
pub enum DecodeError {
    /// The bytes are no UTF-8.
    InvalidUtf8,
    /// The text is no number.
    NotANumber,
}

/// The user id that stored bytes hold: its decimal notation in UTF-8.
pub open spec fn stored_user_id(bytes: Seq<u8>) -> Result<UserId, DecodeError> {
    if !valid_utf8(bytes) {
        Err(DecodeError::InvalidUtf8)
    } else {
        match parse_decimal(decode_utf8(bytes)) {
            Some(id) => Ok(UserId(id)),
            None => Err(DecodeError::NotANumber),
        }
    }
}

/// A user id that is stored as the UTF-8 of its decimal notation reads back
/// as itself.
pub proof fn stored_user_id_reads_back(user_id: UserId)
    ensures
        stored_user_id(encode_utf8(decimal(user_id.0 as nat))) == Ok::<UserId, DecodeError>(
            user_id,
        ),
{
    vstd::utf8::encode_utf8_valid_utf8(decimal(user_id.0 as nat));
    vstd::utf8::encode_utf8_decode_utf8(decimal(user_id.0 as nat));
    crate::text::decimal_reads_back(user_id.0);
}

/// Reads a stored user id.
pub fn decode_user_id(bytes: &[u8]) -> (r: Result<UserId, DecodeError>)
    ensures
        r == stored_user_id(bytes@),
{
    match core::str::from_utf8(bytes) {
        Ok(text) => match parse_u64(text) {
            Some(id) => Ok(UserId(id)),
            None => Err(DecodeError::NotANumber),
        },
        Err(_) => Err(DecodeError::InvalidUtf8),
    }
}

/// Reads a stored authentication key: the bytes are its text in UTF-8.
pub fn decode_auth_key(bytes: &[u8]) -> (r: Result<String, DecodeError>)
    ensures
        match r {
            Ok(key) => valid_utf8(bytes@) && key@ == decode_utf8(bytes@),
            Err(e) => !valid_utf8(bytes@) && e == DecodeError::InvalidUtf8,
        },
{
    match core::str::from_utf8(bytes) {
        Ok(text) => Ok(text.to_owned()),
        Err(_) => Err(DecodeError::InvalidUtf8),
    }
}

/// The kind of system that the program runs on.
#[derive(Clone, Copy, Debug, PartialEq, Eq, Structural)]
pub enum Platform {
    Windows,
    MacOs,
    Unix,
    Other,
}

/// The directories that lead from the user's home to the saves of hot-seat
/// games, on the systems where the game runs.
pub open spec fn save_dir_of(platform: Platform) -> Option<Seq<Seq<char>>> {
    let tail = seq!["Sid Meier's Civilization 5"@, "Saves"@, "hotseat"@];
    match platform {
        Platform::Windows => Some(seq!["Documents"@, "My Games"@] + tail),
        Platform::MacOs => Some(seq!["Documents"@, "Aspyr"@] + tail),
        Platform::Unix => Some(seq![".local"@, "share"@, "Aspyr"@] + tail),
        Platform::Other => None,
    }
}

/// The directories that lead from the user's home to the saves of hot-seat
/// games. There is no such place on a system where the game does not run.
pub fn save_dir(platform: Platform) -> (r: Option<Vec<String>>)
    ensures
        match r {
            Some(segments) => save_dir_of(platform) == Some(
                crate::reader::string_views(segments@),
            ),
            None => save_dir_of(platform) is None,
        },
{
    let mut segments: Vec<String> = Vec::new();
    match platform {
        Platform::Windows => {
            segments.push(String::from_str("Documents"));
            segments.push(String::from_str("My Games"));
        },
        Platform::MacOs => {
            segments.push(String::from_str("Documents"));
            segments.push(String::from_str("Aspyr"));
        },
        Platform::Unix => {
            segments.push(String::from_str(".local"));
            segments.push(String::from_str("share"));
            segments.push(String::from_str("Aspyr"));
        },
        Platform::Other => {
            return None;
        },
    }
    segments.push(String::from_str("Sid Meier's Civilization 5"));
    segments.push(String::from_str("Saves"));
    segments.push(String::from_str("hotseat"));
    assert(save_dir_of(platform)->0 =~= crate::reader::string_views(segments@));
    Some(segments)
}

} // verus!
