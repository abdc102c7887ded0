use civfun_gmr::api::{CurrentTurn, Game, GameId, TurnId, UserId};
use civfun_gmr::matcher::{find_game_for_save, resolve_match, Candidate, MatchError};
use civfun_gmr::save::{Chunk, Civ5Save, Header};

fn header(turn: u32) -> Header {
    Header {
        save: 8,
        game: String::new(),
        build: String::new(),
        turn,
        starting_civ: String::new(),
        handicap: String::new(),
        era: String::new(),
        current_era: String::new(),
        game_speed: String::new(),
        world_size: String::new(),
        map_script: String::new(),
    }
}

/// A save of the given turn whose chunk 5 holds `world`.
fn save(turn: u32, world: &[u8]) -> Civ5Save {
    let mut start = 0u64;
    let mut chunks = Vec::new();
    for id in 0..31 {
        let data = if id == 5 { world.to_vec() } else { Vec::new() };
        let size = data.len() as u64;
        let offset = start + size + 4;
        chunks.push(Chunk { id, offset, size, data });
        start = offset;
    }
    Civ5Save::from_parts(header(turn), Vec::new(), chunks).unwrap()
}

fn game(id: u32, is_first_turn: bool) -> Game {
    Game {
        name: format!("Game {}", id),
        game_id: GameId(id),
        current_turn: CurrentTurn {
            turn_id: TurnId(1000 + id as u64),
            user_id: UserId(7),
            is_first_turn,
            ..Default::default()
        },
        ..Default::default()
    }
}

#[test]
fn the_game_one_turn_ahead_is_selected() {
    let games = [game(1, false), game(2, false), game(3, false), game(4, false)];
    let last = [
        save(28, &[9; 100]),
        save(28, &[1, 2, 3, 4, 5, 6, 7, 8]),
        save(29, &[7; 100]),
        save(28, &[3; 100]),
    ];
    let new_save = save(29, &[1, 2, 3, 4, 5, 0, 7, 8]);
    let candidates: Vec<Candidate> = games
        .iter()
        .zip(last.iter())
        .map(|(game, last_save)| Candidate { game, last_save: Some(last_save) })
        .collect();
    assert_eq!(new_save.difference_score(&last[1]), 1);
    assert_eq!(new_save.difference_score(&last[0]), 8);
    let found = find_game_for_save(&new_save, &candidates);
    assert_eq!(found, vec![GameId(2)]);
    assert_eq!(resolve_match(&found), Ok(GameId(2)));
}

#[test]
fn a_save_of_the_same_turn_is_eligible_too() {
    let games = [game(1, false), game(2, false)];
    let last = [save(29, &[1, 2, 3]), save(28, &[9, 9, 9])];
    let new_save = save(29, &[1, 2, 3]);
    let candidates = vec![
        Candidate { game: &games[0], last_save: Some(&last[0]) },
        Candidate { game: &games[1], last_save: Some(&last[1]) },
    ];
    assert_eq!(find_game_for_save(&new_save, &candidates), vec![GameId(1)]);
}

#[test]
fn games_of_other_turns_are_skipped_however_alike() {
    let games = [game(1, false), game(2, false), game(3, false)];
    // The same bytes, but two turns back, one turn ahead, and far ahead.
    let last = [save(27, &[1, 2, 3]), save(30, &[1, 2, 3]), save(u32::MAX, &[1, 2, 3])];
    let new_save = save(29, &[1, 2, 3]);
    let candidates: Vec<Candidate> = games
        .iter()
        .zip(last.iter())
        .map(|(game, last_save)| Candidate { game, last_save: Some(last_save) })
        .collect();
    let found = find_game_for_save(&new_save, &candidates);
    assert_eq!(found, Vec::<GameId>::new());
    assert_eq!(resolve_match(&found), Err(MatchError::TurnMatchNotFound));
}

#[test]
fn games_without_a_last_save_are_skipped() {
    let games = [game(1, false), game(2, false)];
    let last = save(28, &[5; 50]);
    let new_save = save(29, &[1, 2, 3]);
    let candidates = vec![
        Candidate { game: &games[0], last_save: None },
        Candidate { game: &games[1], last_save: Some(&last) },
    ];
    assert_eq!(find_game_for_save(&new_save, &candidates), vec![GameId(2)]);
    let nothing_known = vec![
        Candidate { game: &games[0], last_save: None },
        Candidate { game: &games[1], last_save: None },
    ];
    assert_eq!(find_game_for_save(&new_save, &nothing_known), Vec::<GameId>::new());
    assert_eq!(find_game_for_save(&new_save, &Vec::new()), Vec::<GameId>::new());
}

#[test]
fn a_tie_is_reported_as_ambiguous() {
    let games = [game(5, false), game(3, false), game(4, false)];
    let last = [save(28, &[1, 2, 0]), save(28, &[1, 0, 3]), save(28, &[0, 0, 3])];
    let new_save = save(29, &[1, 2, 3]);
    let candidates: Vec<Candidate> = games
        .iter()
        .zip(last.iter())
        .map(|(game, last_save)| Candidate { game, last_save: Some(last_save) })
        .collect();
    let found = find_game_for_save(&new_save, &candidates);
    // Both games with the lowest score, in the order of the candidates.
    assert_eq!(found, vec![GameId(5), GameId(3)]);
    assert_eq!(resolve_match(&found), Err(MatchError::TurnMatchAmbiguous));
}

#[test]
fn a_first_turn_save_matches_the_first_turn_games() {
    let games = [game(1, false), game(2, true), game(3, true), game(4, false)];
    let last = save(0, &[1, 2, 3]);
    let new_save = save(0, &[1, 2, 3]);
    let candidates = vec![
        // Alike and of the same turn, but not at its first turn.
        Candidate { game: &games[0], last_save: Some(&last) },
        Candidate { game: &games[1], last_save: None },
        Candidate { game: &games[2], last_save: Some(&last) },
        Candidate { game: &games[3], last_save: None },
    ];
    let found = find_game_for_save(&new_save, &candidates);
    assert_eq!(found, vec![GameId(2), GameId(3)]);
    assert_eq!(resolve_match(&found), Err(MatchError::TurnMatchAmbiguous));
    let two = vec![
        Candidate { game: &games[0], last_save: Some(&last) },
        Candidate { game: &games[1], last_save: None },
    ];
    assert_eq!(find_game_for_save(&new_save, &two), vec![GameId(2)]);
}

#[test]
fn a_first_turn_game_is_no_match_for_a_later_save() {
    let games = [game(1, true)];
    let new_save = save(1, &[1, 2, 3]);
    let candidates = vec![Candidate { game: &games[0], last_save: None }];
    assert_eq!(find_game_for_save(&new_save, &candidates), Vec::<GameId>::new());
}

#[test]
fn resolves_a_match() {
    assert_eq!(resolve_match(&vec![]), Err(MatchError::TurnMatchNotFound));
    assert_eq!(resolve_match(&vec![GameId(9)]), Ok(GameId(9)));
    assert_eq!(resolve_match(&vec![GameId(9), GameId(9)]), Err(MatchError::TurnMatchAmbiguous));
    assert_eq!(
        resolve_match(&vec![GameId(1), GameId(2), GameId(3)]),
        Err(MatchError::TurnMatchAmbiguous)
    );
}
