use civfun_gmr::reader::Civ5SaveReader;
use civfun_gmr::save::{Chunk, Civ5Save, Header, Player, PlayerType, SaveError};

const MARKER: [u8; 4] = [0x40, 0, 0, 0];

fn lp(text: &str) -> Vec<u8> {
    let mut v = (text.len() as u32).to_le_bytes().to_vec();
    v.extend_from_slice(text.as_bytes());
    v
}

fn header_bytes(turn: u32) -> Vec<u8> {
    let mut v = b"CIV5".to_vec();
    v.extend_from_slice(&8u32.to_le_bytes());
    v.extend(lp("My Game"));
    v.extend(lp("1.0.3.279"));
    v.extend_from_slice(&turn.to_le_bytes());
    v.push(0);
    v.extend(lp("CIVILIZATION_POLAND"));
    v.extend(lp("HANDICAP_PRINCE"));
    v.extend(lp("ERA_ANCIENT"));
    v.extend(lp("ERA_CLASSICAL"));
    v.extend(lp("GAMESPEED_QUICK"));
    v.extend(lp("WORLDSIZE_SMALL"));
    v.extend(lp("Continents"));
    v
}

/// A save of the given turn with the given players; `filler` stands behind
/// the player types.
fn build_save(turn: u32, players: &[(&str, u32)], filler: &[u8]) -> Vec<u8> {
    let mut v = header_bytes(turn);
    v.extend_from_slice(&MARKER);
    v.extend_from_slice(&[1, 2, 3]);
    v.extend_from_slice(&MARKER);
    for (name, _) in players {
        v.extend(lp(name));
    }
    v.extend(lp(""));
    v.extend_from_slice(&MARKER);
    for (_, code) in players {
        v.extend_from_slice(&code.to_le_bytes());
    }
    v.extend_from_slice(filler);
    for _ in 3..31 {
        v.extend_from_slice(&MARKER);
    }
    v
}

fn parse(bytes: &[u8]) -> Result<Civ5Save, SaveError> {
    Civ5SaveReader::new(bytes).parse()
}

fn some_header() -> Header {
    parse(&build_save(5, &[("A", 3)], &[])).unwrap().header().clone()
}

#[test]
fn parses_header_and_players() {
    let bytes = build_save(28, &[("Alice", 3), ("Bob", 1), ("Carol", 2), ("Dan", 4)], &[9, 9]);
    let save = parse(&bytes).unwrap();
    let header = save.header();
    assert_eq!(header.turn, 28);
    assert_eq!(save.turn(), 28);
    assert_eq!(header.save, 8);
    assert_eq!(header.game, "My Game");
    assert_eq!(header.build, "1.0.3.279");
    assert_eq!(header.starting_civ, "CIVILIZATION_POLAND");
    assert_eq!(header.handicap, "HANDICAP_PRINCE");
    assert_eq!(header.era, "ERA_ANCIENT");
    assert_eq!(header.current_era, "ERA_CLASSICAL");
    assert_eq!(header.game_speed, "GAMESPEED_QUICK");
    assert_eq!(header.world_size, "WORLDSIZE_SMALL");
    assert_eq!(header.map_script, "Continents");
    let players = save.players();
    assert_eq!(players.len(), 4);
    assert_eq!(players[0].name, "Alice");
    assert_eq!(players[0].player_type, PlayerType::Human);
    assert_eq!(players[1].name, "Bob");
    assert_eq!(players[1].player_type, PlayerType::AI);
    assert_eq!(players[2].player_type, PlayerType::Dead);
    assert_eq!(players[3].name, "Dan");
    assert_eq!(players[3].player_type, PlayerType::NoPlayer);
}

#[test]
fn header_holds_text_beyond_ascii() {
    let mut v = b"CIV5".to_vec();
    v.extend_from_slice(&1u32.to_le_bytes());
    v.extend(lp("Zażółć gęślą jaźń"));
    v.extend(lp(""));
    v.extend_from_slice(&2u32.to_le_bytes());
    v.push(7);
    for _ in 0..7 {
        v.extend(lp("x"));
    }
    let mut reader = Civ5SaveReader::new(&v[4..]);
    let header = reader.header().unwrap();
    assert_eq!(header.game, "Zażółć gęślą jaźń");
    assert_eq!(header.build, "");
    assert_eq!(header.turn, 2);
    // The reader stands behind the header: nothing is left.
    assert_eq!(reader.exact(1).unwrap_err(), SaveError::UnexpectedEof);
    assert_eq!(reader.exact(0).unwrap(), Vec::<u8>::new());
}

#[test]
fn a_save_has_no_players_where_the_first_name_is_empty() {
    let save = parse(&build_save(1, &[], &[1, 2, 3])).unwrap();
    assert_eq!(save.players().len(), 0);
}

#[test]
fn bad_magic_is_malformed_header() {
    let mut bytes = build_save(1, &[("A", 3)], &[]);
    bytes[0] = b'X';
    assert_eq!(parse(&bytes).unwrap_err(), SaveError::MalformedHeader);
    assert_eq!(parse(&[]).unwrap_err(), SaveError::MalformedHeader);
    assert_eq!(parse(b"CIV").unwrap_err(), SaveError::MalformedHeader);
}

#[test]
fn header_cut_short_is_unexpected_eof() {
    let bytes = build_save(1, &[("A", 3)], &[]);
    assert_eq!(parse(b"CIV5").unwrap_err(), SaveError::UnexpectedEof);
    assert_eq!(parse(&bytes[..10]).unwrap_err(), SaveError::UnexpectedEof);
    let header_len = header_bytes(1).len();
    assert_eq!(parse(&bytes[..header_len - 1]).unwrap_err(), SaveError::UnexpectedEof);
}

#[test]
fn invalid_utf8_in_the_header_is_reported() {
    let mut bytes = build_save(1, &[("A", 3)], &[]);
    // The first byte of the game name.
    bytes[12] = 0xff;
    assert_eq!(parse(&bytes).unwrap_err(), SaveError::InvalidUtf8String);
}

#[test]
fn invalid_utf8_in_a_player_name_is_reported() {
    let bytes = build_save(1, &[("A", 3)], &[]);
    let names_at = header_bytes(1).len() + 4 + 3 + 4;
    let mut broken = bytes.clone();
    assert_eq!(broken[names_at + 4], b'A');
    broken[names_at + 4] = 0x80;
    assert_eq!(parse(&broken).unwrap_err(), SaveError::InvalidUtf8String);
}

#[test]
fn a_save_cut_off_before_the_last_marker_has_no_chunk_boundary() {
    let bytes = build_save(1, &[("A", 3)], &[5, 6, 7]);
    assert!(parse(&bytes).is_ok());
    let header_len = header_bytes(1).len();
    for cut in 1..(bytes.len() - header_len) {
        let n = bytes.len() - cut;
        assert_eq!(parse(&bytes[..n]).unwrap_err(), SaveError::ChunkBoundaryNotFound, "n = {}", n);
    }
    // Only 30 markers in all.
    let mut thirty = header_bytes(1);
    for _ in 0..30 {
        thirty.extend_from_slice(&MARKER);
    }
    assert_eq!(parse(&thirty).unwrap_err(), SaveError::ChunkBoundaryNotFound);
}

#[test]
fn bytes_behind_the_last_marker_are_not_looked_at() {
    let mut bytes = build_save(1, &[("A", 3)], &[5, 6, 7]);
    bytes.extend_from_slice(&[0xff, 0x40, 0, 0, 0, 9]);
    let save = parse(&bytes).unwrap();
    assert_eq!(save.chunks().len(), 31);
}

#[test]
fn chunks_partition_the_buffer() {
    let bytes = build_save(3, &[("Alice", 3), ("Bob", 1)], &[0xaa, 0xbb]);
    let save = parse(&bytes).unwrap();
    let chunks = save.chunks();
    assert_eq!(chunks.len(), 31);
    let header_len = header_bytes(3).len();
    assert_eq!(chunks[0].id, 0);
    assert_eq!(chunks[0].size, header_len as u64);
    assert_eq!(chunks[0].offset, header_len as u64 + 4);
    assert_eq!(chunks[0].data, bytes[..header_len].to_vec());
    assert_eq!(chunks[1].data, vec![1, 2, 3]);
    assert_eq!(chunks[1].offset, header_len as u64 + 4 + 3 + 4);
    let mut start = 0u64;
    for (k, chunk) in chunks.iter().enumerate() {
        assert_eq!(chunk.id, k);
        assert_eq!(chunk.size, chunk.data.len() as u64);
        assert_eq!(chunk.offset, start + chunk.size + 4);
        let from = start as usize;
        let to = from + chunk.data.len();
        assert_eq!(chunk.data, bytes[from..to].to_vec());
        assert_eq!(&bytes[to..to + 4], &MARKER);
        start = chunk.offset;
    }
    assert_eq!(start as usize, bytes.len());
    // The types and the filler stand in the chunk behind marker 2.
    assert_eq!(chunks[3].data, vec![3, 0, 0, 0, 1, 0, 0, 0, 0xaa, 0xbb]);
    assert_eq!(chunks[30].data, Vec::<u8>::new());
}

#[test]
fn unknown_player_type_is_reported_with_its_code() {
    let bytes = build_save(1, &[("A", 3), ("B", 9)], &[]);
    assert_eq!(parse(&bytes).unwrap_err(), SaveError::UnknownPlayerType(9));
    let bytes = build_save(1, &[("A", 0)], &[]);
    assert_eq!(parse(&bytes).unwrap_err(), SaveError::UnknownPlayerType(0));
}

#[test]
fn fewer_types_than_names_fail_to_parse() {
    // Two names and one type: the marker that follows the type is read as
    // the type of the second player.
    let mut v = header_bytes(1);
    v.extend_from_slice(&MARKER);
    v.extend_from_slice(&MARKER);
    v.extend(lp("A"));
    v.extend(lp("B"));
    v.extend(lp(""));
    v.extend_from_slice(&MARKER);
    v.extend_from_slice(&3u32.to_le_bytes());
    for _ in 3..31 {
        v.extend_from_slice(&MARKER);
    }
    assert_eq!(parse(&v).unwrap_err(), SaveError::UnknownPlayerType(0x40));
    // With both types the same buffer parses.
    let good = build_save(1, &[("A", 3), ("B", 3)], &[]);
    assert_eq!(parse(&good).unwrap().players().len(), 2);
}

#[test]
fn names_without_an_end_are_unexpected_eof() {
    // Behind marker 1 stands a name and then, instead of the empty string,
    // marker 2: it is read as the length 0x40 of a name that the buffer does
    // not hold in full.
    let mut v = header_bytes(1);
    v.extend_from_slice(&MARKER);
    v.extend_from_slice(&MARKER);
    v.extend(lp("A"));
    for _ in 2..17 {
        v.extend_from_slice(&MARKER);
    }
    assert_eq!(parse(&v).unwrap_err(), SaveError::ChunkBoundaryNotFound);
    for _ in 17..31 {
        v.extend_from_slice(&MARKER);
    }
    // 29 markers of 4 bytes follow the name: the first is the length, and
    // the 112 bytes behind it hold a name of 64 bytes, then a length 0 at
    // the place of byte 2 to 5 of a marker.
    assert!(parse(&v).is_err());
    let short = {
        let mut w = header_bytes(1);
        w.extend_from_slice(&MARKER);
        w.extend_from_slice(&MARKER);
        w.extend(lp("A"));
        w.extend_from_slice(&[0x40, 0, 0, 0]);
        w
    };
    let mut reader = Civ5SaveReader::new(&short);
    reader.seek_past_match(&MARKER).unwrap();
    reader.seek_past_match(&MARKER).unwrap();
    assert_eq!(reader.strings().unwrap_err(), SaveError::UnexpectedEof);
}

#[test]
fn reads_little_endian_integers() {
    let bytes = [0x78, 0x56, 0x34, 0x12, 0x01, 0x00, 0x00, 0x00, 0xff, 0xff, 0xff, 0xff, 0x00];
    let mut reader = Civ5SaveReader::new(&bytes);
    assert_eq!(reader.u32().unwrap(), 0x12345678);
    assert_eq!(reader.u32().unwrap(), 1);
    assert_eq!(reader.u32().unwrap(), u32::MAX);
    assert_eq!(reader.u32().unwrap_err(), SaveError::UnexpectedEof);
    // The failed read did not move the reader.
    assert_eq!(reader.exact(1).unwrap(), vec![0]);
}

#[test]
fn reads_exact_bytes() {
    let bytes = [1, 2, 3, 4, 5];
    let mut reader = Civ5SaveReader::new(&bytes);
    assert_eq!(reader.exact(2).unwrap(), vec![1, 2]);
    assert_eq!(reader.exact(4).unwrap_err(), SaveError::UnexpectedEof);
    assert_eq!(reader.exact(3).unwrap(), vec![3, 4, 5]);
    assert_eq!(reader.exact(0).unwrap(), Vec::<u8>::new());
    assert_eq!(reader.exact(usize::MAX).unwrap_err(), SaveError::UnexpectedEof);
}

#[test]
fn reads_length_prefixed_strings() {
    let mut bytes = lp("héllo");
    bytes.extend(lp(""));
    bytes.extend_from_slice(&[2, 0, 0, 0, b'a']);
    let mut reader = Civ5SaveReader::new(&bytes);
    assert_eq!(reader.string().unwrap(), "héllo");
    assert_eq!(reader.string().unwrap(), "");
    assert_eq!(reader.string().unwrap_err(), SaveError::UnexpectedEof);
    // The failed read did not move the reader: the length is still there.
    assert_eq!(reader.u32().unwrap(), 2);
    let broken = [1, 0, 0, 0, 0xff];
    let mut reader = Civ5SaveReader::new(&broken);
    assert_eq!(reader.string().unwrap_err(), SaveError::InvalidUtf8String);
    assert_eq!(reader.u32().unwrap(), 1);
}

#[test]
fn reads_strings_up_to_the_empty_one() {
    let mut bytes = lp("one");
    bytes.extend(lp("two"));
    bytes.extend(lp(""));
    bytes.extend(lp("three"));
    let mut reader = Civ5SaveReader::new(&bytes);
    assert_eq!(reader.strings().unwrap(), vec!["one".to_string(), "two".to_string()]);
    assert_eq!(reader.string().unwrap(), "three");
    let mut open_ended = lp("one");
    open_ended.extend(lp("two"));
    let mut reader = Civ5SaveReader::new(&open_ended);
    assert_eq!(reader.strings().unwrap_err(), SaveError::UnexpectedEof);
    assert_eq!(reader.string().unwrap(), "one");
}

#[test]
fn seeks_past_a_pattern() {
    let bytes = [9, 0x40, 0, 0, 1, 0x40, 0, 0, 0, 7, 0x40, 0, 0, 0];
    let mut reader = Civ5SaveReader::new(&bytes);
    reader.seek_past_match(&MARKER).unwrap();
    assert_eq!(reader.exact(1).unwrap(), vec![7]);
    reader.seek_past_match(&MARKER).unwrap();
    assert_eq!(reader.seek_past_match(&MARKER).unwrap_err(), SaveError::ChunkBoundaryNotFound);
    assert_eq!(reader.exact(1).unwrap_err(), SaveError::UnexpectedEof);
    let mut reader = Civ5SaveReader::new(&bytes);
    reader.seek_past_match(&[0, 1]).unwrap();
    assert_eq!(reader.exact(2).unwrap(), vec![0x40, 0]);
    // A pattern at the very position of the reader is found there.
    let mut reader = Civ5SaveReader::new(&MARKER);
    reader.seek_past_match(&MARKER).unwrap();
    assert_eq!(reader.exact(1).unwrap_err(), SaveError::UnexpectedEof);
}

#[test]
fn loads_chunks_and_seeks_to_them() {
    let bytes = build_save(1, &[("Alice", 3)], &[]);
    let mut reader = Civ5SaveReader::new(&bytes);
    assert_eq!(reader.chunk(0).unwrap_err(), SaveError::UnexpectedChunkCount);
    reader.load_chunks().unwrap();
    reader.chunk(1).unwrap();
    assert_eq!(reader.strings().unwrap(), vec!["Alice".to_string()]);
    reader.chunk(2).unwrap();
    assert_eq!(reader.u32().unwrap(), 3);
    reader.chunk(30).unwrap();
    assert_eq!(reader.exact(1).unwrap_err(), SaveError::UnexpectedEof);
    assert_eq!(reader.chunk(31).unwrap_err(), SaveError::UnexpectedChunkCount);
    let short = [1, 2, 3];
    let mut reader = Civ5SaveReader::new(&short);
    assert_eq!(reader.exact(1).unwrap(), vec![1]);
    assert_eq!(reader.load_chunks().unwrap_err(), SaveError::ChunkBoundaryNotFound);
    // The reader is where it was.
    assert_eq!(reader.exact(1).unwrap(), vec![2]);
}

#[test]
fn player_types_have_their_codes() {
    assert_eq!(PlayerType::try_from(1), Ok(PlayerType::AI));
    assert_eq!(PlayerType::try_from(2), Ok(PlayerType::Dead));
    assert_eq!(PlayerType::try_from(3), Ok(PlayerType::Human));
    assert_eq!(PlayerType::try_from(4), Ok(PlayerType::NoPlayer));
    assert_eq!(PlayerType::try_from(0), Err(SaveError::UnknownPlayerType(0)));
    assert_eq!(PlayerType::try_from(5), Err(SaveError::UnknownPlayerType(5)));
    assert_eq!(PlayerType::try_from(u32::MAX), Err(SaveError::UnknownPlayerType(u32::MAX)));
}

fn laid_out_chunks(data: Vec<Vec<u8>>) -> Vec<Chunk> {
    let mut start = 0u64;
    let mut chunks = Vec::new();
    for (id, data) in data.into_iter().enumerate() {
        let size = data.len() as u64;
        let offset = start + size + 4;
        chunks.push(Chunk { id, offset, size, data });
        start = offset;
    }
    chunks
}

fn save_of(data: Vec<Vec<u8>>) -> Civ5Save {
    Civ5Save::from_parts(some_header(), Vec::new(), laid_out_chunks(data)).unwrap()
}

fn thirty_one(first: &[u8], second: &[u8]) -> Vec<Vec<u8>> {
    let mut data = vec![Vec::new(); 31];
    data[0] = first.to_vec();
    data[1] = second.to_vec();
    data
}

#[test]
fn a_save_is_built_from_valid_parts_only() {
    let players = vec![Player { name: "A".to_string(), player_type: PlayerType::Human }];
    let good = laid_out_chunks(thirty_one(&[1, 2], &[3]));
    let save = Civ5Save::from_parts(some_header(), players.clone(), good.clone()).unwrap();
    assert_eq!(save.chunks().len(), 31);
    assert_eq!(save.players()[0].name, "A");
    assert_eq!(save.header().turn, 5);

    let mut thirty = good.clone();
    thirty.pop();
    assert_eq!(
        Civ5Save::from_parts(some_header(), players.clone(), thirty).unwrap_err(),
        SaveError::UnexpectedChunkCount
    );
    let mut thirty_two = good.clone();
    thirty_two.push(Chunk { id: 31, offset: 0, size: 0, data: vec![] });
    assert_eq!(
        Civ5Save::from_parts(some_header(), players.clone(), thirty_two).unwrap_err(),
        SaveError::UnexpectedChunkCount
    );
    assert_eq!(
        Civ5Save::from_parts(some_header(), players.clone(), vec![]).unwrap_err(),
        SaveError::UnexpectedChunkCount
    );

    let mut wrong_id = good.clone();
    wrong_id[4].id = 5;
    assert_eq!(
        Civ5Save::from_parts(some_header(), players.clone(), wrong_id).unwrap_err(),
        SaveError::ChunkBoundaryNotFound
    );
    let mut wrong_size = good.clone();
    wrong_size[0].size = 3;
    assert_eq!(
        Civ5Save::from_parts(some_header(), players.clone(), wrong_size).unwrap_err(),
        SaveError::ChunkBoundaryNotFound
    );
    let mut wrong_offset = good.clone();
    wrong_offset[30].offset += 1;
    assert_eq!(
        Civ5Save::from_parts(some_header(), players.clone(), wrong_offset).unwrap_err(),
        SaveError::ChunkBoundaryNotFound
    );
    let mut too_far = good;
    too_far[0].offset = u64::MAX;
    assert_eq!(
        Civ5Save::from_parts(some_header(), players, too_far).unwrap_err(),
        SaveError::ChunkBoundaryNotFound
    );
}

#[test]
fn a_save_does_not_differ_from_itself() {
    let bytes = build_save(28, &[("Alice", 3), ("Bob", 1)], &[1, 2, 3, 4, 5, 6, 7, 8]);
    let save = parse(&bytes).unwrap();
    assert_eq!(save.difference_score(&save), 0);
    let copy = save.clone();
    assert_eq!(save.difference_score(&copy), 0);
    assert_eq!(copy.difference_score(&save), 0);
    let again = parse(&bytes).unwrap();
    assert_eq!(save.difference_score(&again), 0);
}

#[test]
fn the_score_counts_differing_and_missing_bytes() {
    let a = save_of(thirty_one(&[1, 2, 3, 4], &[9, 9]));
    let same = save_of(thirty_one(&[1, 2, 3, 4], &[9, 9]));
    assert_eq!(a.difference_score(&same), 0);
    // Two bytes differ in chunk 0, one in chunk 1.
    let b = save_of(thirty_one(&[1, 0, 3, 0], &[9, 8]));
    assert_eq!(a.difference_score(&b), 3);
    assert_eq!(b.difference_score(&a), 3);
    // A shorter chunk on the other side: each missing byte counts.
    let c = save_of(thirty_one(&[1, 2], &[]));
    assert_eq!(a.difference_score(&c), 4);
    // The other way round the surplus of the other side is not looked at.
    assert_eq!(c.difference_score(&a), 0);
    // A difference in a later chunk counts as well.
    let mut data = thirty_one(&[1, 2, 3, 4], &[9, 9]);
    data[30] = vec![5, 5, 5];
    let d = save_of(data);
    assert_eq!(d.difference_score(&a), 3);
    assert_eq!(a.difference_score(&d), 0);
    let empty = save_of(vec![Vec::new(); 31]);
    assert_eq!(empty.difference_score(&a), 0);
    assert_eq!(a.difference_score(&empty), 6);
}

#[test]
fn consecutive_turns_score_lower_than_other_games() {
    let world: Vec<u8> = (0..600u32).map(|i| (i % 50) as u8 + 1).collect();
    let mut next_world = world.clone();
    for i in [3, 77, 150, 151, 400] {
        next_world[i] = 0x7f;
    }
    let other_world: Vec<u8> = (0..600u32).map(|i| (i % 37) as u8 + 60).collect();
    let players = [("Alice", 3), ("Bob", 1)];
    let turn_28 = parse(&build_save(28, &players, &world)).unwrap();
    let turn_29 = parse(&build_save(29, &players, &next_world)).unwrap();
    let other = parse(&build_save(28, &[("Carol", 3), ("Dave", 3)], &other_world)).unwrap();
    // One byte of the turn in the header, five in the world.
    assert_eq!(turn_29.difference_score(&turn_28), 6);
    assert_eq!(turn_28.difference_score(&turn_29), 6);
    let far = turn_29.difference_score(&other);
    assert!(far > 500, "{}", far);
    assert!(turn_29.difference_score(&turn_28) < far);
    assert!(turn_28.difference_score(&other) > 500);
}

#[test]
fn a_save_named_after_turn_28_parses_to_turn_28() {
    let name = "Casimir III_0028 BC-2320.Civ5Save";
    let turn = civfun_gmr::naming::turn_from_filename(name).unwrap();
    let save = parse(&build_save(turn as u32, &[("Casimir III", 3)], &[])).unwrap();
    assert_eq!(save.header().turn, 28);
}
