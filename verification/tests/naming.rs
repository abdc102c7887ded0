use civfun_gmr::api::{Game, GameId, TurnId, UserId};
use civfun_gmr::naming::{
    analysed_game_key, decode_auth_key, decode_user_id, filename, player_info_key, save_dir,
    saved_bytes_db_key, turn_from_capture, turn_from_filename, upload_bytes_db_key, DecodeError,
    Platform,
};

#[test]
fn the_turn_is_read_from_the_name_of_a_save() {
    assert_eq!(turn_from_filename("Casimir III_0028 BC-2320.Civ5Save"), Some(28));
    assert_eq!(turn_from_filename("Casimir III_0005 BC-3700.Civ5Save"), Some(5));
    assert_eq!(turn_from_filename("Ahmad al-Mansur_0054 BC-0840.Civ5Save"), Some(54));
    assert_eq!(turn_from_filename("Elizabeth_0437 AD-2017.Civ5Save"), Some(437));
    assert_eq!(turn_from_filename("Harun al-Rashid_0179 AD-1770.Civ5Save"), Some(179));
    assert_eq!(turn_from_filename("_0000 BC-.Civ5Save"), Some(0));
    assert_eq!(turn_from_filename("A_0001 BC-1_0002 AD-3.Civ5Save"), Some(1));
    assert_eq!(turn_from_filename("Some_Leader_9999 AD-2050.Civ5Save"), Some(9999));
}

#[test]
fn other_names_give_no_turn() {
    assert_eq!(turn_from_filename("random.txt"), None);
    assert_eq!(turn_from_filename(""), None);
    assert_eq!(turn_from_filename("Casimir III_028 BC-2320.Civ5Save"), None);
    assert_eq!(turn_from_filename("Casimir III 0028 BC-2320.Civ5Save"), None);
    assert_eq!(turn_from_filename("Casimir III_0028BC-2320.Civ5Save"), None);
    assert_eq!(turn_from_filename("Casimir III_0028 BC-2320.Civ5Sav"), None);
    assert_eq!(turn_from_filename("Casimir III_0028 BC-2320_Civ5Save"), None);
    assert_eq!(turn_from_filename("Casimir III_0028 BC-2320.Civ5Save.bak"), None);
    assert_eq!(turn_from_filename("Casimir III_0028 BC-2320.Civ5Save "), None);
    assert_eq!(turn_from_filename("Casimir III_0028 XX-2320.Civ5Save"), None);
    assert_eq!(turn_from_filename("Casimir III_0028 BC2320.Civ5Save"), None);
    assert_eq!(turn_from_filename("Casimir III_0028 bc-2320.Civ5Save"), None);
    assert_eq!(turn_from_filename("Casimir III_0028 2320.Civ5Save"), None);
    assert_eq!(turn_from_filename("_0000 .Civ5Save"), None);
    assert_eq!(turn_from_filename("Casimir\nIII_0028 BC-2320.Civ5Save"), None);
    assert_eq!(turn_from_filename("(civfun 12) My Game.Civ5Save"), None);
    // Four digits, but none of `0` to `9`.
    assert_eq!(turn_from_filename("Casimir III_٠٠٢٨ BC-2320.Civ5Save"), None);
}

#[test]
fn captured_digits_give_the_turn() {
    assert_eq!(turn_from_capture(&Some("0028".to_string())), Some(28));
    assert_eq!(turn_from_capture(&Some("٠٠٢٨".to_string())), None);
    assert_eq!(turn_from_capture(&Some("".to_string())), None);
    assert_eq!(turn_from_capture(&None), None);
}

fn game(id: u32, name: &str) -> Game {
    Game { name: name.to_string(), game_id: GameId(id), ..Default::default() }
}

#[test]
fn the_download_is_named_after_the_game() {
    assert_eq!(filename(&game(12, "My Game")), "(civfun 12) My Game.Civ5Save");
    assert_eq!(filename(&game(0, "")), "(civfun 0) .Civ5Save");
    assert_eq!(
        filename(&game(4294967295, "a./\\\"<>|:*?b")),
        "(civfun 4294967295) a__________b.Civ5Save"
    );
    assert_eq!(
        filename(&game(7, "Süd: Krieg & Frieden?")),
        "(civfun 7) Süd_ Krieg & Frieden_.Civ5Save"
    );
    // The name of a download has no turn, unless the game is named like
    // a save.
    assert_eq!(turn_from_filename(&filename(&game(7, "My Game"))), None);
    assert_eq!(turn_from_filename(&filename(&game(7, "Anna_0028 BC-1"))), Some(28));
}

#[test]
fn stored_values_have_their_keys() {
    assert_eq!(player_info_key(&UserId(76561198000000000)), "player-info-76561198000000000");
    assert_eq!(player_info_key(&UserId(0)), "player-info-0");
    assert_eq!(saved_bytes_db_key(&GameId(12), &TurnId(3456)), "saved-bytes-12-3456");
    assert_eq!(analysed_game_key(&GameId(12), &TurnId(3456)), "analysed-12-3456");
    assert_eq!(analysed_game_key(&GameId(0), &TurnId(u64::MAX)), "analysed-0-18446744073709551615");
    assert_eq!(upload_bytes_db_key(&GameId(4294967295)), "upload-bytes-4294967295");
}

#[test]
fn stored_user_ids_are_read_back() {
    assert_eq!(decode_user_id(b"76561198000000000"), Ok(UserId(76561198000000000)));
    assert_eq!(decode_user_id(b"0"), Ok(UserId(0)));
    assert_eq!(decode_user_id(b""), Err(DecodeError::NotANumber));
    assert_eq!(decode_user_id(b"12x"), Err(DecodeError::NotANumber));
    assert_eq!(decode_user_id(&[0x31, 0xff]), Err(DecodeError::InvalidUtf8));
    assert_eq!(decode_user_id(UserId(42).to_string().as_bytes()), Ok(UserId(42)));
}

#[test]
fn stored_keys_are_read_back() {
    assert_eq!(decode_auth_key(b"ABC123"), Ok("ABC123".to_string()));
    assert_eq!(decode_auth_key("clé".as_bytes()), Ok("clé".to_string()));
    assert_eq!(decode_auth_key(b""), Ok(String::new()));
    assert_eq!(decode_auth_key(&[0xc3]), Err(DecodeError::InvalidUtf8));
}

#[test]
fn the_saves_have_their_place_on_each_system() {
    assert_eq!(
        save_dir(Platform::Windows).unwrap(),
        vec!["Documents", "My Games", "Sid Meier's Civilization 5", "Saves", "hotseat"]
    );
    assert_eq!(
        save_dir(Platform::MacOs).unwrap(),
        vec!["Documents", "Aspyr", "Sid Meier's Civilization 5", "Saves", "hotseat"]
    );
    assert_eq!(
        save_dir(Platform::Unix).unwrap(),
        vec![".local", "share", "Aspyr", "Sid Meier's Civilization 5", "Saves", "hotseat"]
    );
    assert_eq!(save_dir(Platform::Other), None);
}
