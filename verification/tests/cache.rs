use civfun_gmr::api::{GameId, TurnId};
use civfun_gmr::cache::AnalysedSaveCache;
use civfun_gmr::reader::Civ5SaveReader;
use civfun_gmr::save::{Chunk, Civ5Save, Header};

fn save(turn: u32) -> Civ5Save {
    let header = Header {
        save: 8,
        game: String::new(),
        build: String::new(),
        turn,
        starting_civ: String::new(),
        handicap: String::new(),
        era: String::new(),
        current_era: String::new(),
        game_speed: String::new(),
        world_size: String::new(),
        map_script: String::new(),
    };
    let chunks = (0..31)
        .map(|id| Chunk { id, offset: 4 * (id as u64 + 1), size: 0, data: Vec::new() })
        .collect();
    Civ5Save::from_parts(header, Vec::new(), chunks).unwrap()
}

#[test]
fn the_cache_keeps_one_save_for_each_game_and_turn() {
    let mut cache = AnalysedSaveCache::new();
    assert!(cache.get(GameId(1), TurnId(1)).is_none());
    cache.insert(GameId(1), TurnId(1), save(10));
    cache.insert(GameId(1), TurnId(2), save(11));
    cache.insert(GameId(2), TurnId(1), save(20));
    assert_eq!(cache.get(GameId(1), TurnId(1)).unwrap().turn(), 10);
    assert_eq!(cache.get(GameId(1), TurnId(2)).unwrap().turn(), 11);
    assert_eq!(cache.get(GameId(2), TurnId(1)).unwrap().turn(), 20);
    assert!(cache.get(GameId(2), TurnId(2)).is_none());
    cache.insert(GameId(1), TurnId(2), save(12));
    assert_eq!(cache.get(GameId(1), TurnId(2)).unwrap().turn(), 12);
    assert_eq!(cache.get(GameId(1), TurnId(1)).unwrap().turn(), 10);
    assert_eq!(cache.get(GameId(2), TurnId(1)).unwrap().turn(), 20);
}

#[test]
fn a_reader_hands_out_the_chunks_it_found() {
    let mut bytes = vec![7, 8];
    for _ in 0..31 {
        bytes.extend_from_slice(&[0x40, 0, 0, 0]);
    }
    let mut reader = Civ5SaveReader::new(&bytes);
    assert!(reader.chunks().is_empty());
    reader.load_chunks().unwrap();
    assert_eq!(reader.chunks().len(), 31);
    assert_eq!(reader.chunks()[0].data, vec![7, 8]);
    assert_eq!(reader.chunks()[0].offset, 6);
    assert_eq!(reader.chunks()[30].offset, bytes.len() as u64);
    // Without the magic literal the chunks are found, but there is no save.
    assert!(reader.parse().is_err());
    assert_eq!(reader.chunks().len(), 31);
}
