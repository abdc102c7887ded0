//! Decoding of the binary save format: a cursor over the bytes, the reads
//! that the format is made of, and the parser built from them.

use crate::save::{
    chunk_views, Chunk, ChunkView, Civ5Save, Header, HeaderView, Player, PlayerType, PlayerView,
    SaveError, SaveView, CHUNK_COUNT, MARKER_LEN,
};
use byteorder::{ByteOrder, LittleEndian};
use vstd::prelude::*;
use vstd::slice::slice_subrange;
use vstd::utf8::{decode_utf8, valid_utf8};

verus! {

/// The value of the first four bytes of `b`, read as an unsigned integer with
/// the least significant byte first.
pub open spec fn u32_from_le(b: Seq<u8>) -> u32 {
    (b[0] + b[1] * 0x100 + b[2] * 0x1_0000 + b[3] * 0x100_0000) as u32
}

/// `byteorder::LittleEndian::read_u32`: the first four bytes of the buffer as
/// a little-endian unsigned integer. The function panics on a buffer of fewer
/// than four bytes, which the precondition excludes.
#[verifier::external_body]
fn read_u32_le(buf: &[u8]) -> (r: u32)
    requires
        buf@.len() >= 4,
    ensures
        r == u32_from_le(buf@),
{
    LittleEndian::read_u32(buf)
}

/// The `n` bytes at `pos`, if the buffer holds that many.
pub open spec fn read_exact(bytes: Seq<u8>, pos: int, n: int) -> Option<Seq<u8>> {
    if 0 <= pos && 0 <= n && pos + n <= bytes.len() {
        Some(bytes.subrange(pos, pos + n))
    } else {
        None
    }
}

/// The little-endian unsigned 32-bit integer at `pos`, if the buffer holds
/// four bytes there.
pub open spec fn read_u32(bytes: Seq<u8>, pos: int) -> Option<u32> {
    match read_exact(bytes, pos, 4) {
        Some(b) => Some(u32_from_le(b)),
        None => None,
    }
}

/// The length-prefixed string at `pos` and the position after it: a 32-bit
/// length, then that many bytes of UTF-8.
pub open spec fn read_string(bytes: Seq<u8>, pos: int) -> Result<(Seq<char>, int), SaveError> {
    match read_u32(bytes, pos) {
        None => Err(SaveError::UnexpectedEof),
        Some(n) => match read_exact(bytes, pos + 4, n as int) {
            None => Err(SaveError::UnexpectedEof),
            Some(b) => if valid_utf8(b) {
                Ok((decode_utf8(b), pos + 4 + n))
            } else {
                Err(SaveError::InvalidUtf8String)
            },
        },
    }
}

/// The strings from `pos` up to the first empty one, which is read and left
/// out, and the position after that empty string.
pub open spec fn read_strings(bytes: Seq<u8>, pos: int) -> Result<(Seq<Seq<char>>, int), SaveError>
    decreases bytes.len() - pos,
{
    match read_string(bytes, pos) {
        Err(e) => Err(e),
        Ok((s, next)) => if s.len() == 0 {
            Ok((Seq::empty(), next))
        } else {
            match read_strings(bytes, next) {
                Err(e) => Err(e),
                Ok((rest, end)) => Ok((seq![s] + rest, end)),
            }
        },
    }
}

/// Position after a string read, or 0 where the read failed.
pub open spec fn position_after(read: Result<(Seq<char>, int), SaveError>) -> int {
    match read {
        Ok((_, next)) => next,
        Err(_) => 0,
    }
}

/// The text of a string read, or nothing where the read failed.
pub open spec fn text_of(read: Result<(Seq<char>, int), SaveError>) -> Seq<char> {
    match read {
        Ok((s, _)) => s,
        Err(_) => Seq::empty(),
    }
}

/// The header that starts at `pos` and the position after it. The fields
/// stand in this order: the save-format version, the game name, the build,
/// the turn, one reserved byte, then the starting civilisation, the
/// handicap, the era, the current era, the game speed, the world size and
/// the map script. The first field that cannot be read decides the error.
pub open spec fn read_header(bytes: Seq<u8>, pos: int) -> Result<(HeaderView, int), SaveError> {
    let save = read_u32(bytes, pos);
    let game = read_string(bytes, pos + 4);
    let build = read_string(bytes, position_after(game));
    let turn = read_u32(bytes, position_after(build));
    let reserved = read_exact(bytes, position_after(build) + 4, 1);
    let starting_civ = read_string(bytes, position_after(build) + 5);
    let handicap = read_string(bytes, position_after(starting_civ));
    let era = read_string(bytes, position_after(handicap));
    let current_era = read_string(bytes, position_after(era));
    let game_speed = read_string(bytes, position_after(current_era));
    let world_size = read_string(bytes, position_after(game_speed));
    let map_script = read_string(bytes, position_after(world_size));
    if save is None {
        Err(SaveError::UnexpectedEof)
    } else if game is Err {
        Err(game->Err_0)
    } else if build is Err {
        Err(build->Err_0)
    } else if turn is None || reserved is None {
        Err(SaveError::UnexpectedEof)
    } else if starting_civ is Err {
        Err(starting_civ->Err_0)
    } else if handicap is Err {
        Err(handicap->Err_0)
    } else if era is Err {
        Err(era->Err_0)
    } else if current_era is Err {
        Err(current_era->Err_0)
    } else if game_speed is Err {
        Err(game_speed->Err_0)
    } else if world_size is Err {
        Err(world_size->Err_0)
    } else if map_script is Err {
        Err(map_script->Err_0)
    } else {
        Ok(
            (
                HeaderView {
                    save: save->0,
                    game: text_of(game),
                    build: text_of(build),
                    turn: turn->0,
                    starting_civ: text_of(starting_civ),
                    handicap: text_of(handicap),
                    era: text_of(era),
                    current_era: text_of(current_era),
                    game_speed: text_of(game_speed),
                    world_size: text_of(world_size),
                    map_script: text_of(map_script),
                },
                position_after(map_script),
            ),
        )
    }
}

/// The bytes that close a chunk.
pub open spec fn marker() -> Seq<u8> {
    seq![0x40u8, 0u8, 0u8, 0u8]
}

/// The bytes that a save file starts with: the letters `CIV5`.
pub open spec fn magic() -> Seq<u8> {
    seq![0x43u8, 0x49u8, 0x56u8, 0x35u8]
}

/// The pattern stands in the buffer at position `i`.
pub open spec fn matches_at(bytes: Seq<u8>, pattern: Seq<u8>, i: int) -> bool {
    read_exact(bytes, i, pattern.len() as int) == Some(pattern)
}

/// The first position at or after `from` at which the pattern stands.
pub open spec fn first_match(bytes: Seq<u8>, pattern: Seq<u8>, from: int) -> Option<int>
    decreases bytes.len() - from + 1,
{
    if from < 0 || from + pattern.len() > bytes.len() {
        None
    } else if matches_at(bytes, pattern, from) {
        Some(from)
    } else {
        first_match(bytes, pattern, from + 1)
    }
}

/// The next `count` chunks of the buffer from position `start`, numbered
/// from `id`: each runs up to the next marker, and the one after it starts
/// behind that marker. There is no such list where the buffer ends before
/// `count` markers have been found.
pub open spec fn scan_chunks(bytes: Seq<u8>, start: int, id: nat, count: nat) -> Option<
    Seq<ChunkView>,
>
    decreases count,
{
    if count == 0 {
        Some(Seq::empty())
    } else {
        match first_match(bytes, marker(), start) {
            None => None,
            Some(m) => match scan_chunks(bytes, m + MARKER_LEN, id + 1, (count - 1) as nat) {
                None => None,
                Some(rest) => Some(
                    seq![
                        ChunkView {
                            id,
                            offset: (m + MARKER_LEN) as nat,
                            size: (m - start) as nat,
                            data: bytes.subrange(start, m),
                        },
                    ] + rest,
                ),
            },
        }
    }
}

/// The first `n` player types from `pos`, one 32-bit code each. The first
/// code that is missing or unknown decides the error.
pub open spec fn read_player_types(bytes: Seq<u8>, pos: int, n: nat) -> Result<
    Seq<PlayerType>,
    SaveError,
>
    decreases n,
{
    if n == 0 {
        Ok(Seq::empty())
    } else {
        match read_player_types(bytes, pos, (n - 1) as nat) {
            Err(e) => Err(e),
            Ok(before) => match read_u32(bytes, pos + 4 * (n - 1)) {
                None => Err(SaveError::UnexpectedEof),
                Some(code) => match PlayerType::of_code(code) {
                    None => Err(SaveError::UnknownPlayerType(code)),
                    Some(t) => Ok(before.push(t)),
                },
            },
        }
    }
}

/// The players of a save with the given chunks: the names are the strings
/// behind the marker of chunk 1, the types the codes behind the marker of
/// chunk 2, one for each name.
pub open spec fn read_players(bytes: Seq<u8>, chunks: Seq<ChunkView>) -> Result<
    Seq<PlayerView>,
    SaveError,
> {
    match read_strings(bytes, chunks[1].offset as int) {
        Err(e) => Err(e),
        Ok((names, _)) => match read_player_types(bytes, chunks[2].offset as int, names.len()) {
            Err(e) => Err(e),
            Ok(types) => Ok(
                Seq::new(
                    names.len(),
                    |i: int| PlayerView { name: names[i], player_type: types[i] },
                ),
            ),
        },
    }
}

/// The save that a buffer encodes, or the reason why it encodes none. The
/// checks come in this order: the magic literal, the header, the chunks, the
/// players.
pub open spec fn parse_save(bytes: Seq<u8>) -> Result<SaveView, SaveError> {
    if read_exact(bytes, 0, 4) != Some(magic()) {
        Err(SaveError::MalformedHeader)
    } else {
        match read_header(bytes, 4) {
            Err(e) => Err(e),
            Ok((header, _)) => match scan_chunks(bytes, 0, 0, CHUNK_COUNT as nat) {
                None => Err(SaveError::ChunkBoundaryNotFound),
                Some(chunks) => match read_players(bytes, chunks) {
                    Err(e) => Err(e),
                    Ok(players) => Ok(SaveView { header, players, chunks }),
                },
            },
        }
    }
}

/// What `first_match` finds is a match at or after `from`, and the earliest
/// one; where it finds nothing, there is no match at or after `from`.
pub proof fn lemma_first_match(bytes: Seq<u8>, pattern: Seq<u8>, from: int)
    requires
        0 <= from,
    ensures
        match first_match(bytes, pattern, from) {
            Some(m) => {
                &&& from <= m
                &&& m + pattern.len() <= bytes.len()
                &&& matches_at(bytes, pattern, m)
                &&& forall|j: int| from <= j < m ==> !matches_at(bytes, pattern, j)
            },
            None => forall|j: int| from <= j ==> !matches_at(bytes, pattern, j),
        },
    decreases bytes.len() - from + 1,
{
    if from + pattern.len() <= bytes.len() && !matches_at(bytes, pattern, from) {
        lemma_first_match(bytes, pattern, from + 1);
    }
}

/// Chunk `k` of a scan that began at `start` with number `id`: it carries
/// its number, begins where the chunk before it ended, holds the bytes up to
/// the first marker from there, and ends behind that marker.
pub open spec fn scanned_chunk(
    bytes: Seq<u8>,
    start: int,
    id: nat,
    chunks: Seq<ChunkView>,
    k: int,
) -> bool {
    let begin = if k == 0 {
        start
    } else {
        chunks[k - 1].offset as int
    };
    &&& chunks[k].id == id + k
    &&& first_match(bytes, marker(), begin) == Some(chunks[k].offset - MARKER_LEN)
    &&& chunks[k].size == chunks[k].offset - MARKER_LEN - begin
    &&& chunks[k].data == bytes.subrange(begin, chunks[k].offset - MARKER_LEN)
    &&& begin <= chunks[k].offset - MARKER_LEN
    &&& chunks[k].offset <= bytes.len()
}

/// A scan gives as many chunks as were asked for, each as `scanned_chunk`
/// describes.
pub proof fn lemma_scan_chunks(bytes: Seq<u8>, start: int, id: nat, count: nat)
    requires
        0 <= start,
    ensures
        scan_chunks(bytes, start, id, count) matches Some(chunks) ==> {
            &&& chunks.len() == count
            &&& forall|k: int| 0 <= k < count ==> scanned_chunk(bytes, start, id, chunks, k)
        },
    decreases count,
{
    if count > 0 {
        lemma_first_match(bytes, marker(), start);
        if let Some(m) = first_match(bytes, marker(), start) {
            lemma_scan_chunks(bytes, m + MARKER_LEN, id + 1, (count - 1) as nat);
            if let Some(rest) = scan_chunks(bytes, m + MARKER_LEN, id + 1, (count - 1) as nat) {
                let first = ChunkView {
                    id,
                    offset: (m + MARKER_LEN) as nat,
                    size: (m - start) as nat,
                    data: bytes.subrange(start, m),
                };
                let chunks = seq![first] + rest;
                assert forall|k: int| 0 <= k < count implies scanned_chunk(
                    bytes,
                    start,
                    id,
                    chunks,
                    k,
                ) by {
                    if k > 0 {
                        assert(scanned_chunk(bytes, m + MARKER_LEN, id + 1, rest, k - 1));
                        assert(chunks[k] == rest[k - 1]);
                        if k > 1 {
                            assert(chunks[k - 1] == rest[k - 2]);
                        }
                    }
                }
            }
        }
    }
}

/// The first `k` chunks, each followed by a marker, one after another.
pub open spec fn chunks_with_markers(chunks: Seq<ChunkView>, k: nat) -> Seq<u8>
    decreases k,
{
    if k == 0 {
        Seq::empty()
    } else {
        chunks_with_markers(chunks, (k - 1) as nat) + chunks[k - 1].data + marker()
    }
}

/// The chunks of a scan from the start of the buffer, each followed by a
/// marker, make up the buffer as far as the scan went: the chunks partition
/// it, but for the markers between them.
pub proof fn scanned_chunks_make_up_the_buffer(bytes: Seq<u8>, count: nat, k: nat)
    requires
        scan_chunks(bytes, 0, 0, count) is Some,
        k <= count,
    ensures
        ({
            let chunks = scan_chunks(bytes, 0, 0, count)->0;
            chunks_with_markers(chunks, k) == bytes.subrange(
                0,
                crate::save::chunk_start(chunks, k as int) as int,
            )
        }),
    decreases k,
{
    let chunks = scan_chunks(bytes, 0, 0, count)->0;
    lemma_scan_chunks(bytes, 0, 0, count);
    if k == 0 {
        assert(bytes.subrange(0, 0) =~= Seq::<u8>::empty());
    } else {
        scanned_chunks_make_up_the_buffer(bytes, count, (k - 1) as nat);
        assert(scanned_chunk(bytes, 0, 0, chunks, k - 1));
        let begin = crate::save::chunk_start(chunks, k - 1) as int;
        let end = chunks[k - 1].offset as int;
        lemma_first_match(bytes, marker(), begin);
        assert(bytes.subrange(end - MARKER_LEN, end) == marker());
        assert(bytes.subrange(0, begin) + bytes.subrange(begin, end - MARKER_LEN) + bytes.subrange(
            end - MARKER_LEN,
            end,
        ) =~= bytes.subrange(0, end));
    }
}

/// The chunks of a scan from the start of the buffer lie one after another,
/// each followed by one marker.
pub proof fn lemma_scan_is_laid_out(bytes: Seq<u8>, count: nat)
    ensures
        scan_chunks(bytes, 0, 0, count) matches Some(chunks) ==> chunks.len() == count
            && crate::save::laid_out(chunks),
{
    lemma_scan_chunks(bytes, 0, 0, count);
    if let Some(chunks) = scan_chunks(bytes, 0, 0, count) {
        assert forall|k: int| 0 <= k < chunks.len() implies crate::save::chunk_in_place(
            chunks,
            k,
        ) by {
            assert(scanned_chunk(bytes, 0, 0, chunks, k));
        }
    }
}

/// A cursor over the bytes of a save file.
pub struct Civ5SaveReader<'a> {
    bytes: &'a [u8],
    pos: usize,
    chunks: Vec<Chunk>,
}

impl<'a> Civ5SaveReader<'a> {
    #[verifier::type_invariant]
    spec fn in_bounds(&self) -> bool {
        &&& self.pos <= self.bytes@.len()
        &&& forall|i: int| 0 <= i < self.chunks@.len() ==> self.chunks@[i].offset <= self.bytes@.len()
    }

    /// The bytes that the reader reads.
    pub closed spec fn buffer(&self) -> Seq<u8> {
        self.bytes@
    }

    /// The position of the next read.
    pub closed spec fn position(&self) -> int {
        self.pos as int
    }

    /// The chunks that the reader has found.
    pub closed spec fn loaded(&self) -> Seq<ChunkView> {
        chunk_views(self.chunks@)
    }

    /// A reader at the start of `bytes`, with no chunks found yet.
    pub fn new(bytes: &'a [u8]) -> (r: Self)
        ensures
            r.buffer() == bytes@,
            r.position() == 0,
            r.loaded() == Seq::<ChunkView>::empty(),
    {
        let r = Civ5SaveReader { bytes, pos: 0, chunks: Vec::new() };
        assert(r.loaded() =~= Seq::<ChunkView>::empty());
        r
    }

    /// Reads `size` bytes and moves past them. Where the buffer does not hold
    /// that many, nothing is read and the reader stays where it is.
    pub fn exact(&mut self, size: usize) -> (r: Result<Vec<u8>, SaveError>)
        ensures
            final(self).buffer() == old(self).buffer(),
            final(self).loaded() == old(self).loaded(),
            match read_exact(old(self).buffer(), old(self).position(), size as int) {
                Some(b) => {
                    &&& r matches Ok(v)
                    &&& v@ == b
                    &&& final(self).position() == old(self).position() + size
                },
                None => {
                    &&& r == Err::<Vec<u8>, SaveError>(SaveError::UnexpectedEof)
                    &&& final(self).position() == old(self).position()
                },
            },
    {
        proof {
            use_type_invariant(&*self);
        }
        if size > self.bytes.len() - self.pos {
            return Err(SaveError::UnexpectedEof);
        }
        let found = slice_subrange(self.bytes, self.pos, self.pos + size);
        let v = vstd::slice::slice_to_vec(found);
        self.pos = self.pos + size;
        Ok(v)
    }

    /// Reads a little-endian unsigned 32-bit integer and moves past it.
    pub fn u32(&mut self) -> (r: Result<u32, SaveError>)
        ensures
            final(self).buffer() == old(self).buffer(),
            final(self).loaded() == old(self).loaded(),
            match read_u32(old(self).buffer(), old(self).position()) {
                Some(n) => {
                    &&& r == Ok::<u32, SaveError>(n)
                    &&& final(self).position() == old(self).position() + 4
                },
                None => {
                    &&& r == Err::<u32, SaveError>(SaveError::UnexpectedEof)
                    &&& final(self).position() == old(self).position()
                },
            },
    {
        proof {
            use_type_invariant(&*self);
        }
        if 4 > self.bytes.len() - self.pos {
            return Err(SaveError::UnexpectedEof);
        }
        let found = slice_subrange(self.bytes, self.pos, self.pos + 4);
        let n = read_u32_le(found);
        self.pos = self.pos + 4;
        Ok(n)
    }

    /// Reads a length-prefixed string and moves past it. On an error the
    /// reader stays where it is.
    pub fn string(&mut self) -> (r: Result<String, SaveError>)
        ensures
            final(self).buffer() == old(self).buffer(),
            final(self).loaded() == old(self).loaded(),
            match read_string(old(self).buffer(), old(self).position()) {
                Ok((s, next)) => {
                    &&& r matches Ok(text)
                    &&& text@ == s
                    &&& final(self).position() == next
                },
                Err(e) => {
                    &&& r == Err::<String, SaveError>(e)
                    &&& final(self).position() == old(self).position()
                },
            },
    {
        let start = self.pos;
        let size = self.u32()? as usize;
        let found = match self.exact(size) {
            Ok(found) => found,
            Err(e) => {
                proof {
                    use_type_invariant(&*self);
                }
                self.pos = start;
                return Err(e);
            },
        };
        match core::str::from_utf8(found.as_slice()) {
            Ok(text) => Ok(text.to_owned()),
            Err(_) => {
                proof {
                    use_type_invariant(&*self);
                }
                self.pos = start;
                Err(SaveError::InvalidUtf8String)
            },
        }
    }

    /// Reads strings up to the first empty one and moves past that. On an
    /// error the reader stays where it is.
    pub fn strings(&mut self) -> (r: Result<Vec<String>, SaveError>)
        ensures
            final(self).buffer() == old(self).buffer(),
            final(self).loaded() == old(self).loaded(),
            match read_strings(old(self).buffer(), old(self).position()) {
                Ok((texts, end)) => {
                    &&& r matches Ok(v)
                    &&& string_views(v@) == texts
                    &&& final(self).position() == end
                },
                Err(e) => {
                    &&& r == Err::<Vec<String>, SaveError>(e)
                    &&& final(self).position() == old(self).position()
                },
            },
    {
        let start = self.pos;
        let mut v: Vec<String> = Vec::new();
        proof {
            use_type_invariant(&*self);
            assert(string_views(v@) =~= Seq::<Seq<char>>::empty());
        }
        loop
            invariant
                self.buffer() == old(self).buffer(),
                self.loaded() == old(self).loaded(),
                start == old(self).position(),
                start <= self.buffer().len(),
                read_strings(self.buffer(), start as int) == match read_strings(
                    self.buffer(),
                    self.position(),
                ) {
                    Ok((rest, end)) => Ok::<(Seq<Seq<char>>, int), SaveError>(
                        (string_views(v@) + rest, end),
                    ),
                    Err(e) => Err(e),
                },
            decreases self.buffer().len() - self.position(),
        {
            proof {
                use_type_invariant(&*self);
            }
            let s = match self.string() {
                Ok(s) => s,
                Err(e) => {
                    proof {
                        use_type_invariant(&*self);
                    }
                    self.pos = start;
                    return Err(e);
                },
            };
            if s.as_str().is_empty() {
                assert(string_views(v@) + Seq::<Seq<char>>::empty() =~= string_views(v@));
                return Ok(v);
            }
            proof {
                let ghost before = string_views(v@);
                assert(string_views(v@.push(s)) =~= before + seq![s@]);
                assert forall|rest: Seq<Seq<char>>| (before + seq![s@]) + rest == before + (seq![
                    s@,
                ] + rest) by {
                    assert((before + seq![s@]) + rest =~= before + (seq![s@] + rest));
                }
            }
            v.push(s);
        }
    }
}

/// The views of a list of strings, in order.
pub open spec fn string_views(strings: Seq<String>) -> Seq<Seq<char>> {
    Seq::new(strings.len(), |i: int| strings[i]@)
}

/// Whether the pattern stands in the buffer at position `i`.
fn stands_at(bytes: &[u8], pattern: &[u8], i: usize) -> (r: bool)
    requires
        i + pattern@.len() <= bytes@.len(),
    ensures
        r == matches_at(bytes@, pattern@, i as int),
{
    let len = bytes.len();
    let mut j: usize = 0;
    while j < pattern.len()
        invariant
            j <= pattern@.len(),
            len == bytes@.len(),
            i + pattern@.len() <= bytes@.len(),
            forall|k: int| 0 <= k < j ==> bytes@[i + k] == pattern@[k],
        decreases pattern.len() - j,
    {
        if bytes[i + j] != pattern[j] {
            assert(bytes@.subrange(i as int, i + pattern@.len())[j as int] != pattern@[j as int]);
            return false;
        }
        j += 1;
    }
    assert(bytes@.subrange(i as int, i + pattern@.len()) =~= pattern@);
    true
}

impl<'a> Civ5SaveReader<'a> {
    /// Reads the header and moves past it. On an error the reader stays
    /// where it is.
    pub fn header(&mut self) -> (r: Result<Header, SaveError>)
        ensures
            final(self).buffer() == old(self).buffer(),
            final(self).loaded() == old(self).loaded(),
            match read_header(old(self).buffer(), old(self).position()) {
                Ok((header, end)) => {
                    &&& r matches Ok(h)
                    &&& h@ == header
                    &&& final(self).position() == end
                },
                Err(e) => {
                    &&& r == Err::<Header, SaveError>(e)
                    &&& final(self).position() == old(self).position()
                },
            },
    {
        let start = self.pos;
        proof {
            use_type_invariant(&*self);
        }
        let r = self.header_fields();
        if r.is_err() {
            proof {
                use_type_invariant(&*self);
            }
            self.pos = start;
        }
        r
    }

    /// Reads the header fields in order. On an error the reader stays at the
    /// field that could not be read.
    fn header_fields(&mut self) -> (r: Result<Header, SaveError>)
        ensures
            final(self).buffer() == old(self).buffer(),
            final(self).loaded() == old(self).loaded(),
            match read_header(old(self).buffer(), old(self).position()) {
                Ok((header, end)) => {
                    &&& r matches Ok(h)
                    &&& h@ == header
                    &&& final(self).position() == end
                },
                Err(e) => r == Err::<Header, SaveError>(e),
            },
    {
        let save = self.u32()?;
        let game = self.string()?;
        let build = self.string()?;
        let turn = self.u32()?;
        let _ = self.exact(1)?;
        let starting_civ = self.string()?;
        let handicap = self.string()?;
        let era = self.string()?;
        let current_era = self.string()?;
        let game_speed = self.string()?;
        let world_size = self.string()?;
        let map_script = self.string()?;
        Ok(
            Header {
                save,
                game,
                build,
                turn,
                starting_civ,
                handicap,
                era,
                current_era,
                game_speed,
                world_size,
                map_script,
            },
        )
    }

    /// Moves to the first byte after the next occurrence of the pattern at
    /// or after the reader's position. Where the pattern does not occur, the
    /// reader stays where it is.
    pub fn seek_past_match(&mut self, pattern: &[u8]) -> (r: Result<(), SaveError>)
        ensures
            final(self).buffer() == old(self).buffer(),
            final(self).loaded() == old(self).loaded(),
            match first_match(old(self).buffer(), pattern@, old(self).position()) {
                Some(m) => {
                    &&& r is Ok
                    &&& final(self).position() == m + pattern@.len()
                },
                None => {
                    &&& r == Err::<(), SaveError>(SaveError::ChunkBoundaryNotFound)
                    &&& final(self).position() == old(self).position()
                },
            },
    {
        proof {
            use_type_invariant(&*self);
        }
        let mut i: usize = self.pos;
        while pattern.len() <= self.bytes.len() - i
            invariant
                self.buffer() == old(self).buffer(),
                self.loaded() == old(self).loaded(),
                self.position() == old(self).position(),
                self.pos <= i <= self.bytes@.len(),
                first_match(self.bytes@, pattern@, self.pos as int) == first_match(
                    self.bytes@,
                    pattern@,
                    i as int,
                ),
            decreases self.bytes@.len() - i,
        {
            if stands_at(self.bytes, pattern, i) {
                proof {
                    use_type_invariant(&*self);
                }
                self.pos = i + pattern.len();
                return Ok(());
            }
            if i == self.bytes.len() {
                assert(pattern@.len() == 0);
                assert(self.bytes@.subrange(i as int, i as int) =~= pattern@);
                assert(false);
            }
            i += 1;
        }
        Err(SaveError::ChunkBoundaryNotFound)
    }

    /// Splits the buffer into its chunks, from position 0, and moves behind
    /// the marker of the last one. Where the buffer ends before the last
    /// marker, the reader keeps the chunks and the position that it had.
    pub fn load_chunks(&mut self) -> (r: Result<(), SaveError>)
        ensures
            final(self).buffer() == old(self).buffer(),
            match scan_chunks(old(self).buffer(), 0, 0, CHUNK_COUNT as nat) {
                Some(chunks) => {
                    &&& r is Ok
                    &&& final(self).loaded() == chunks
                    &&& final(self).position() == chunks[CHUNK_COUNT - 1].offset
                },
                None => {
                    &&& r == Err::<(), SaveError>(SaveError::ChunkBoundaryNotFound)
                    &&& final(self).loaded() == old(self).loaded()
                    &&& final(self).position() == old(self).position()
                },
            },
    {
        let start = self.pos;
        let boundary: [u8; 4] = [0x40, 0, 0, 0];
        let mut chunks: Vec<Chunk> = Vec::new();
        proof {
            use_type_invariant(&*self);
            assert(boundary@ =~= marker());
            assert(chunk_views(chunks@) =~= Seq::<ChunkView>::empty());
        }
        self.pos = 0;
        while chunks.len() < CHUNK_COUNT
            invariant
                self.buffer() == old(self).buffer(),
                self.loaded() == old(self).loaded(),
                start == old(self).position(),
                start <= self.buffer().len(),
                boundary@ == marker(),
                chunks.len() <= CHUNK_COUNT,
                self.position() <= self.buffer().len(),
                chunks.len() > 0 ==> self.position() == chunks@[chunks.len() - 1].offset,
                forall|i: int| 0 <= i < chunks.len() ==> chunks@[i].offset <= self.buffer().len(),
                scan_chunks(self.buffer(), 0, 0, CHUNK_COUNT as nat) == match scan_chunks(
                    self.buffer(),
                    self.position(),
                    chunks.len() as nat,
                    (CHUNK_COUNT - chunks.len()) as nat,
                ) {
                    Some(rest) => Some(chunk_views(chunks@) + rest),
                    None => None,
                },
            decreases CHUNK_COUNT - chunks.len(),
        {
            let offset = self.pos;
            proof {
                lemma_first_match(self.buffer(), marker(), offset as int);
            }
            match self.seek_past_match(boundary.as_slice()) {
                Ok(()) => {},
                Err(e) => {
                    proof {
                        use_type_invariant(&*self);
                    }
                    self.pos = start;
                    return Err(e);
                },
            }
            proof {
                use_type_invariant(&*self);
            }
            let new_position = self.pos;
            let end_offset = new_position - MARKER_LEN;
            let data = vstd::slice::slice_to_vec(slice_subrange(self.bytes, offset, end_offset));
            let chunk = Chunk {
                id: chunks.len(),
                offset: new_position as u64,
                size: (end_offset - offset) as u64,
                data,
            };
            proof {
                let before = chunk_views(chunks@);
                assert(chunk_views(chunks@.push(chunk)) =~= before + seq![chunk@]);
                assert forall|rest: Seq<ChunkView>| (before + seq![chunk@]) + rest == before + (
                seq![chunk@] + rest) by {
                    assert((before + seq![chunk@]) + rest =~= before + (seq![chunk@] + rest));
                }
            }
            chunks.push(chunk);
        }
        proof {
            assert(chunk_views(chunks@) + Seq::<ChunkView>::empty() =~= chunk_views(chunks@));
        }
        self.chunks = chunks;
        Ok(())
    }

    /// The chunks that the reader has found, in file order.
    pub fn chunks(&self) -> (r: &Vec<Chunk>)
        ensures
            chunk_views(r@) == self.loaded(),
    {
        &self.chunks
    }

    /// Moves behind the marker of the chunk with the given index. Where the
    /// reader has found no such chunk, it stays where it is.
    pub fn chunk(&mut self, chunk: usize) -> (r: Result<(), SaveError>)
        ensures
            final(self).buffer() == old(self).buffer(),
            final(self).loaded() == old(self).loaded(),
            if chunk < old(self).loaded().len() {
                &&& r is Ok
                &&& final(self).position() == old(self).loaded()[chunk as int].offset
            } else {
                &&& r == Err::<(), SaveError>(SaveError::UnexpectedChunkCount)
                &&& final(self).position() == old(self).position()
            },
    {
        proof {
            use_type_invariant(&*self);
        }
        if chunk >= self.chunks.len() {
            return Err(SaveError::UnexpectedChunkCount);
        }
        let offset = self.chunks[chunk].offset;
        let len = self.bytes.len();
        assert(self.loaded()[chunk as int] == self.chunks@[chunk as int]@);
        assert(offset <= len);
        self.pos = offset as usize;
        Ok(())
    }
}

/// Once a player type cannot be read, reading more of them fails alike.
pub proof fn lemma_player_types_error_stays(bytes: Seq<u8>, pos: int, k: nat, n: nat)
    requires
        k <= n,
        read_player_types(bytes, pos, k) is Err,
    ensures
        read_player_types(bytes, pos, n) == read_player_types(bytes, pos, k),
    decreases n,
{
    if k < n {
        lemma_player_types_error_stays(bytes, pos, k, (n - 1) as nat);
    }
}

/// The chunks that a reader holds after an attempt to parse: those of the
/// buffer where the attempt got as far as finding them, else those that it
/// held before.
pub open spec fn chunks_after_parse(bytes: Seq<u8>, before: Seq<ChunkView>) -> Seq<ChunkView> {
    if read_exact(bytes, 0, 4) == Some(magic()) && read_header(bytes, 4) is Ok {
        match scan_chunks(bytes, 0, 0, CHUNK_COUNT as nat) {
            Some(chunks) => chunks,
            None => before,
        }
    } else {
        before
    }
}

impl<'a> Civ5SaveReader<'a> {
    /// Decodes the buffer, from its start, into a save. After a failure the
    /// reader is back at the start of the buffer.
    pub fn parse(&mut self) -> (r: Result<Civ5Save, SaveError>)
        ensures
            final(self).buffer() == old(self).buffer(),
            final(self).loaded() == chunks_after_parse(old(self).buffer(), old(self).loaded()),
            match parse_save(old(self).buffer()) {
                Ok(save) => {
                    &&& r matches Ok(parsed)
                    &&& parsed@ == save
                    &&& final(self).position() == save.chunks[2].offset + 4 * save.players.len()
                },
                Err(e) => {
                    &&& r matches Err(error)
                    &&& error == e
                    &&& final(self).position() == 0
                },
            },
    {
        proof {
            use_type_invariant(&*self);
        }
        self.pos = 0;
        let r = self.parse_from_start();
        if r.is_err() {
            proof {
                use_type_invariant(&*self);
            }
            self.pos = 0;
        }
        r
    }

    /// Decodes the buffer into a save, the reader being at its start.
    fn parse_from_start(&mut self) -> (r: Result<Civ5Save, SaveError>)
        requires
            old(self).position() == 0,
        ensures
            final(self).buffer() == old(self).buffer(),
            final(self).loaded() == chunks_after_parse(old(self).buffer(), old(self).loaded()),
            match parse_save(old(self).buffer()) {
                Ok(save) => {
                    &&& r matches Ok(parsed)
                    &&& parsed@ == save
                    &&& final(self).position() == save.chunks[2].offset + 4 * save.players.len()
                },
                Err(e) => {
                    &&& r matches Err(error)
                    &&& error == e
                },
            },
    {
        let ghost bytes = self.buffer();
        let found = match self.exact(4) {
            Ok(found) => found,
            Err(_) => {
                return Err(SaveError::MalformedHeader);
            },
        };
        if found[0] != 0x43 || found[1] != 0x49 || found[2] != 0x56 || found[3] != 0x35 {
            return Err(SaveError::MalformedHeader);
        }
        assert(found@ =~= magic());
        let header = self.header()?;
        self.load_chunks()?;
        let ghost chunks = self.loaded();
        proof {
            lemma_scan_chunks(bytes, 0, 0, CHUNK_COUNT as nat);
            lemma_scan_is_laid_out(bytes, CHUNK_COUNT as nat);
        }
        self.chunk(1)?;
        let names = self.strings()?;
        self.chunk(2)?;
        let ghost types_at = self.position();
        let mut types: Vec<PlayerType> = Vec::new();
        let mut i: usize = 0;
        while i < names.len()
            invariant
                self.buffer() == bytes,
                self.loaded() == chunks,
                bytes == old(self).buffer(),
                read_exact(bytes, 0, 4) == Some(magic()),
                read_header(bytes, 4) is Ok,
                scan_chunks(bytes, 0, 0, CHUNK_COUNT as nat) == Some(chunks),
                read_strings(bytes, chunks[1].offset as int) matches Ok((texts, _))
                    && texts == string_views(names@),
                types_at == chunks[2].offset,
                i <= names.len(),
                types.len() == i,
                self.position() == types_at + 4 * i,
                read_player_types(bytes, types_at, i as nat) == Ok::<Seq<PlayerType>, SaveError>(
                    types@,
                ),
            decreases names.len() - i,
        {
            proof {
                if read_player_types(bytes, types_at, (i + 1) as nat) is Err {
                    lemma_player_types_error_stays(
                        bytes,
                        types_at,
                        (i + 1) as nat,
                        names.len() as nat,
                    );
                }
            }
            let code = self.u32()?;
            let player_type = PlayerType::try_from(code)?;
            types.push(player_type);
            i += 1;
        }
        let mut players: Vec<Player> = Vec::new();
        let mut i: usize = 0;
        while i < names.len()
            invariant
                i <= names.len(),
                types.len() == names.len(),
                players.len() == i,
                forall|k: int|
                    0 <= k < i ==> (#[trigger] players@[k])@ == (PlayerView {
                        name: names@[k]@,
                        player_type: types@[k],
                    }),
            decreases names.len() - i,
        {
            players.push(Player { name: names[i].clone(), player_type: types[i] });
            i += 1;
        }
        let all = self.chunks.clone();
        proof {
            assert(chunk_views(all@) =~= chunks);
            assert(crate::save::player_views(players@) =~= Seq::new(
                string_views(names@).len(),
                |i: int| PlayerView { name: string_views(names@)[i], player_type: types@[i] },
            ));
        }
        Ok(Civ5Save::assemble(header, players, all))
    }
}

/// A read that ends within the first `n` bytes reads the same from the
/// buffer cut off after `n` bytes.
pub proof fn lemma_read_exact_prefix(bytes: Seq<u8>, n: int, pos: int, size: int)
    requires
        0 <= n <= bytes.len(),
        pos + size <= n,
    ensures
        read_exact(bytes.take(n), pos, size) == read_exact(bytes, pos, size),
{
    if 0 <= pos && 0 <= size {
        assert(bytes.take(n).subrange(pos, pos + size) =~= bytes.subrange(pos, pos + size));
    }
}

/// A string that ends within the first `n` bytes reads the same from the
/// buffer cut off after `n` bytes.
pub proof fn lemma_read_string_prefix(bytes: Seq<u8>, n: int, pos: int)
    requires
        0 <= n <= bytes.len(),
        read_string(bytes, pos) matches Ok((_, next)) && next <= n,
    ensures
        read_string(bytes.take(n), pos) == read_string(bytes, pos),
{
    lemma_read_exact_prefix(bytes, n, pos, 4);
    let size = read_u32(bytes, pos)->0;
    lemma_read_exact_prefix(bytes, n, pos + 4, size as int);
}

/// A header that ends within the first `n` bytes reads the same from the
/// buffer cut off after `n` bytes.
pub proof fn lemma_read_header_prefix(bytes: Seq<u8>, n: int, pos: int)
    requires
        0 <= n <= bytes.len(),
        0 <= pos,
        read_header(bytes, pos) matches Ok((_, end)) && end <= n,
    ensures
        read_header(bytes.take(n), pos) == read_header(bytes, pos),
{
    let game = read_string(bytes, pos + 4);
    let build = read_string(bytes, position_after(game));
    let starting_civ = read_string(bytes, position_after(build) + 5);
    let handicap = read_string(bytes, position_after(starting_civ));
    let era = read_string(bytes, position_after(handicap));
    let current_era = read_string(bytes, position_after(era));
    let game_speed = read_string(bytes, position_after(current_era));
    let world_size = read_string(bytes, position_after(game_speed));
    lemma_read_exact_prefix(bytes, n, pos, 4);
    lemma_read_string_prefix(bytes, n, pos + 4);
    lemma_read_string_prefix(bytes, n, position_after(game));
    lemma_read_exact_prefix(bytes, n, position_after(build), 4);
    lemma_read_exact_prefix(bytes, n, position_after(build) + 4, 1);
    lemma_read_string_prefix(bytes, n, position_after(build) + 5);
    lemma_read_string_prefix(bytes, n, position_after(starting_civ));
    lemma_read_string_prefix(bytes, n, position_after(handicap));
    lemma_read_string_prefix(bytes, n, position_after(era));
    lemma_read_string_prefix(bytes, n, position_after(current_era));
    lemma_read_string_prefix(bytes, n, position_after(game_speed));
    lemma_read_string_prefix(bytes, n, position_after(world_size));
}

/// A match found in the buffer cut off after `n` bytes is the first match of
/// the whole buffer too.
pub proof fn lemma_first_match_prefix(bytes: Seq<u8>, n: int, pattern: Seq<u8>, from: int)
    requires
        0 <= n <= bytes.len(),
        0 <= from,
        first_match(bytes.take(n), pattern, from) is Some,
    ensures
        first_match(bytes, pattern, from) == first_match(bytes.take(n), pattern, from),
    decreases n - from + 1,
{
    lemma_read_exact_prefix(bytes, n, from, pattern.len() as int);
    if !matches_at(bytes.take(n), pattern, from) {
        lemma_first_match_prefix(bytes, n, pattern, from + 1);
    }
}

/// Chunks found in the buffer cut off after `n` bytes are the chunks of the
/// whole buffer too.
pub proof fn lemma_scan_chunks_prefix(bytes: Seq<u8>, n: int, start: int, id: nat, count: nat)
    requires
        0 <= n <= bytes.len(),
        0 <= start,
        scan_chunks(bytes.take(n), start, id, count) is Some,
    ensures
        scan_chunks(bytes, start, id, count) == scan_chunks(bytes.take(n), start, id, count),
    decreases count,
{
    if count > 0 {
        lemma_first_match(bytes.take(n), marker(), start);
        lemma_first_match_prefix(bytes, n, marker(), start);
        let m = first_match(bytes.take(n), marker(), start)->0;
        lemma_scan_chunks_prefix(bytes, n, m + MARKER_LEN, id + 1, (count - 1) as nat);
        assert(bytes.take(n).subrange(start, m) =~= bytes.subrange(start, m));
    }
}

/// A buffer that is cut off before the end of the marker of its last chunk
/// has no chunks.
pub proof fn truncated_buffer_has_no_chunks(bytes: Seq<u8>, n: int, count: nat)
    requires
        count > 0,
        scan_chunks(bytes, 0, 0, count) matches Some(chunks) && 0 <= n < chunks[count - 1].offset,
    ensures
        scan_chunks(bytes.take(n), 0, 0, count) is None,
{
    lemma_scan_chunks(bytes, 0, 0, count);
    let chunks = scan_chunks(bytes, 0, 0, count)->0;
    assert(scanned_chunk(bytes, 0, 0, chunks, count - 1));
    if scan_chunks(bytes.take(n), 0, 0, count) is Some {
        lemma_scan_chunks_prefix(bytes, n, 0, 0, count);
        lemma_scan_chunks(bytes.take(n), 0, 0, count);
        assert(scanned_chunk(bytes.take(n), 0, 0, chunks, count - 1));
    }
}

/// Every save that parses has the fixed number of chunks, one player type
/// for each player name, and is valid.
pub proof fn parsed_save_is_valid(bytes: Seq<u8>)
    ensures
        parse_save(bytes) matches Ok(save) ==> {
            &&& save.chunks.len() == CHUNK_COUNT
            &&& crate::save::valid_save(save)
            &&& read_strings(bytes, save.chunks[1].offset as int) matches Ok((names, _))
                && save.players.len() == names.len()
        },
{
    lemma_scan_is_laid_out(bytes, CHUNK_COUNT as nat);
}

/// A buffer with fewer player types than player names is no save.
pub proof fn names_without_types_do_not_parse(bytes: Seq<u8>)
    requires
        scan_chunks(bytes, 0, 0, CHUNK_COUNT as nat) matches Some(chunks) && read_strings(
            bytes,
            chunks[1].offset as int,
        ) matches Ok((names, _)) && read_player_types(
            bytes,
            chunks[2].offset as int,
            names.len(),
        ) is Err,
    ensures
        parse_save(bytes) is Err,
{
}

/// A save file that is cut off behind its header and before the end of the
/// marker of its last chunk fails to parse, with `ChunkBoundaryNotFound`.
pub proof fn truncated_save_does_not_parse(bytes: Seq<u8>, n: int)
    requires
        parse_save(bytes) matches Ok(save) && n < save.chunks[CHUNK_COUNT - 1].offset,
        read_header(bytes, 4) matches Ok((_, end)) && end <= n,
    ensures
        parse_save(bytes.take(n)) == Err::<SaveView, SaveError>(SaveError::ChunkBoundaryNotFound),
{
    lemma_scan_chunks(bytes, 0, 0, CHUNK_COUNT as nat);
    let chunks = scan_chunks(bytes, 0, 0, CHUNK_COUNT as nat)->0;
    assert(scanned_chunk(bytes, 0, 0, chunks, CHUNK_COUNT - 1));
    lemma_header_end(bytes, 4);
    lemma_read_exact_prefix(bytes, n, 0, 4);
    lemma_read_header_prefix(bytes, n, 4);
    truncated_buffer_has_no_chunks(bytes, n, CHUNK_COUNT as nat);
}

/// A header ends at least its fixed fields behind its start.
pub proof fn lemma_header_end(bytes: Seq<u8>, pos: int)
    requires
        0 <= pos,
    ensures
        read_header(bytes, pos) matches Ok((_, end)) ==> pos + 45 <= end <= bytes.len(),
{
}

} // verus!
