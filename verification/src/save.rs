//! The structured form of a parsed save file.

use vstd::prelude::*;

verus! {

/// Why a byte buffer could not be decoded into a save.
#[derive(Clone, Copy, Debug, PartialEq, Eq, Structural)]
pub enum SaveError {
    /// The buffer does not start with the magic literal.
    MalformedHeader,
    /// The buffer ended before the expected number of chunk markers was seen,
    /// or a chunk handed in does not end where its data and the chunks before
    /// it put its marker.
    ChunkBoundaryNotFound,
    /// The number of chunks is not the expected one: a save was to be built
    /// from too few or too many, or a reader was asked for a chunk that it
    /// has not found.
    UnexpectedChunkCount,
    /// A length-prefixed string does not hold valid UTF-8.
    InvalidUtf8String,
    /// A player-type code outside the known range.
    UnknownPlayerType(u32),
    /// The buffer ended in the middle of a field.
    UnexpectedEof,
}

/// Who controls a player slot.
#[derive(Clone, Copy, Debug, PartialEq, Eq, Structural)]
pub enum PlayerType {
    AI,
    Dead,
    Human,
    /// The slot is not in use.
    NoPlayer,
}

impl PlayerType {
    /// The player type that a code stands for, if any.
    pub open spec fn of_code(value: u32) -> Option<PlayerType> {
        if value == 1 {
            Some(PlayerType::AI)
        } else if value == 2 {
            Some(PlayerType::Dead)
        } else if value == 3 {
            Some(PlayerType::Human)
        } else if value == 4 {
            Some(PlayerType::NoPlayer)
        } else {
            None
        }
    }
}

impl TryFrom<u32> for PlayerType {
    type Error = SaveError;

    /// Decodes a stored player-type code.
    fn try_from(value: u32) -> (r: Result<PlayerType, SaveError>) {
        match value {
            1 => Ok(PlayerType::AI),
            2 => Ok(PlayerType::Dead),
            3 => Ok(PlayerType::Human),
            4 => Ok(PlayerType::NoPlayer),
            v => Err(SaveError::UnknownPlayerType(v)),
        }
    }
}

impl vstd::std_specs::convert::TryFromSpecImpl<u32> for PlayerType {
    open spec fn obeys_try_from_spec() -> bool {
        true
    }

    open spec fn try_from_spec(value: u32) -> Result<PlayerType, SaveError> {
        match PlayerType::of_code(value) {
            Some(t) => Ok(t),
            None => Err(SaveError::UnknownPlayerType(value)),
        }
    }
}

/// Number of chunks in a save of the supported format revision.
pub const CHUNK_COUNT: usize = 31;

/// Length in bytes of the marker that closes a chunk.
pub const MARKER_LEN: usize = 4;

/// One marker-delimited region of a save file.
#[derive(Debug)]
pub struct Chunk {
    /// Position of the chunk in the file's chunk order.
    pub id: usize,
    /// Position of the first byte after the marker that closes the chunk.
    pub offset: u64,
    /// Number of bytes in the chunk, its closing marker not counted.
    pub size: u64,
    /// The chunk's bytes.
    pub data: Vec<u8>,
}

/// Mathematical form of a [`Chunk`].
pub struct ChunkView {
    pub id: nat,
    pub offset: nat,
    pub size: nat,
    pub data: Seq<u8>,
}

impl View for Chunk {
    type V = ChunkView;

    open spec fn view(&self) -> ChunkView {
        ChunkView {
            id: self.id as nat,
            offset: self.offset as nat,
            size: self.size as nat,
            data: self.data@,
        }
    }
}

impl Clone for Chunk {
    fn clone(&self) -> (r: Self)
        ensures
            r@ == self@,
    {
        let data = self.data.clone();
        assert(data@ =~= self.data@);
        Chunk { id: self.id, offset: self.offset, size: self.size, data }
    }
}

/// The views of a list of chunks, in order.
pub open spec fn chunk_views(chunks: Seq<Chunk>) -> Seq<ChunkView> {
    Seq::new(chunks.len(), |i: int| chunks[i]@)
}

/// The fixed leading fields of a save file.
#[derive(Debug)]
pub struct Header {
    pub save: u32,
    pub game: String,
    pub build: String,
    pub turn: u32,
    pub starting_civ: String,
    pub handicap: String,
    pub era: String,
    pub current_era: String,
    pub game_speed: String,
    pub world_size: String,
    pub map_script: String,
}

/// Mathematical form of a [`Header`].
pub struct HeaderView {
    pub save: u32,
    pub game: Seq<char>,
    pub build: Seq<char>,
    pub turn: u32,
    pub starting_civ: Seq<char>,
    pub handicap: Seq<char>,
    pub era: Seq<char>,
    pub current_era: Seq<char>,
    pub game_speed: Seq<char>,
    pub world_size: Seq<char>,
    pub map_script: Seq<char>,
}

impl View for Header {
    type V = HeaderView;

    open spec fn view(&self) -> HeaderView {
        HeaderView {
            save: self.save,
            game: self.game@,
            build: self.build@,
            turn: self.turn,
            starting_civ: self.starting_civ@,
            handicap: self.handicap@,
            era: self.era@,
            current_era: self.current_era@,
            game_speed: self.game_speed@,
            world_size: self.world_size@,
            map_script: self.map_script@,
        }
    }
}

impl Clone for Header {
    fn clone(&self) -> (r: Self)
        ensures
            r@ == self@,
    {
        Header {
            save: self.save,
            game: self.game.clone(),
            build: self.build.clone(),
            turn: self.turn,
            starting_civ: self.starting_civ.clone(),
            handicap: self.handicap.clone(),
            era: self.era.clone(),
            current_era: self.current_era.clone(),
            game_speed: self.game_speed.clone(),
            world_size: self.world_size.clone(),
            map_script: self.map_script.clone(),
        }
    }
}

/// One player slot of a save.
#[derive(Debug)]
pub struct Player {
    pub name: String,
    pub player_type: PlayerType,
}

/// Mathematical form of a [`Player`].
pub struct PlayerView {
    pub name: Seq<char>,
    pub player_type: PlayerType,
}

impl View for Player {
    type V = PlayerView;

    open spec fn view(&self) -> PlayerView {
        PlayerView { name: self.name@, player_type: self.player_type }
    }
}

impl Clone for Player {
    fn clone(&self) -> (r: Self)
        ensures
            r@ == self@,
    {
        Player { name: self.name.clone(), player_type: self.player_type }
    }
}

/// The views of a list of players, in order.
pub open spec fn player_views(players: Seq<Player>) -> Seq<PlayerView> {
    Seq::new(players.len(), |i: int| players[i]@)
}

/// Position at which chunk `k` of a chunk list begins.
pub open spec fn chunk_start(chunks: Seq<ChunkView>, k: int) -> nat {
    if k <= 0 {
        0
    } else {
        chunks[k - 1].offset
    }
}

/// Chunk `k` carries its own index, its size is the length of its data, and
/// it ends one marker before its recorded offset.
pub open spec fn chunk_in_place(chunks: Seq<ChunkView>, k: int) -> bool {
    &&& chunks[k].id == k
    &&& chunks[k].size == chunks[k].data.len()
    &&& chunks[k].offset == chunk_start(chunks, k) + chunks[k].size + MARKER_LEN
}

/// The chunks lie one after another from position 0, each followed by one
/// marker.
pub open spec fn laid_out(chunks: Seq<ChunkView>) -> bool {
    forall|k: int| 0 <= k < chunks.len() ==> chunk_in_place(chunks, k)
}

/// Number of data bytes in the first `k` chunks.
pub open spec fn data_len_upto(chunks: Seq<ChunkView>, k: nat) -> nat
    decreases k,
{
    if k == 0 {
        0
    } else {
        data_len_upto(chunks, (k - 1) as nat) + chunks[k - 1].data.len()
    }
}

/// In a laid-out chunk list the first `k` chunks and their markers fill the
/// buffer up to the start of chunk `k`.
pub proof fn lemma_laid_out_data_len(chunks: Seq<ChunkView>, k: nat)
    requires
        laid_out(chunks),
        k <= chunks.len(),
    ensures
        data_len_upto(chunks, k) + MARKER_LEN * k == chunk_start(chunks, k as int),
    decreases k,
{
    if k > 0 {
        lemma_laid_out_data_len(chunks, (k - 1) as nat);
        assert(chunk_in_place(chunks, k - 1));
    }
}

/// Mathematical form of a [`Civ5Save`].
pub struct SaveView {
    pub header: HeaderView,
    pub players: Seq<PlayerView>,
    pub chunks: Seq<ChunkView>,
}

/// What makes a save valid: the fixed number of chunks, laid out one after
/// another.
pub open spec fn valid_save(save: SaveView) -> bool {
    &&& save.chunks.len() == CHUNK_COUNT
    &&& laid_out(save.chunks)
}

/// Whether chunk `a` has a byte at offset `j` that chunk `b` lacks or holds
/// differently.
pub open spec fn differs_at(a: Seq<u8>, b: Seq<u8>, j: int) -> bool {
    j >= b.len() || a[j] != b[j]
}

/// Number of offsets below `n` at which `a` differs from `b`.
pub open spec fn mismatches_upto(a: Seq<u8>, b: Seq<u8>, n: nat) -> nat
    decreases n,
{
    if n == 0 {
        0
    } else {
        mismatches_upto(a, b, (n - 1) as nat) + if differs_at(a, b, n - 1) {
            1nat
        } else {
            0nat
        }
    }
}

/// Number of bytes of `a` that `b` lacks or holds differently. Offsets of `b`
/// beyond the length of `a` are not looked at.
pub open spec fn chunk_difference(a: Seq<u8>, b: Seq<u8>) -> nat {
    mismatches_upto(a, b, a.len())
}

/// The data of chunk `i`, or nothing where there is no such chunk.
pub open spec fn chunk_data(chunks: Seq<ChunkView>, i: int) -> Seq<u8> {
    if 0 <= i < chunks.len() {
        chunks[i].data
    } else {
        Seq::empty()
    }
}

/// Sum of the chunk differences over the first `k` chunks of `a`.
pub open spec fn difference_upto(a: Seq<ChunkView>, b: Seq<ChunkView>, k: nat) -> nat
    decreases k,
{
    if k == 0 {
        0
    } else {
        difference_upto(a, b, (k - 1) as nat) + chunk_difference(
            chunk_data(a, k - 1),
            chunk_data(b, k - 1),
        )
    }
}

/// The difference score of save `a` against save `b`: over every chunk of
/// `a`, the number of its bytes that the chunk of `b` with the same index
/// lacks or holds differently. The score is not symmetric.
pub open spec fn difference(a: SaveView, b: SaveView) -> nat {
    difference_upto(a.chunks, b.chunks, a.chunks.len())
}

/// At most one mismatch per offset.
pub proof fn lemma_mismatches_bounded(a: Seq<u8>, b: Seq<u8>, n: nat)
    ensures
        mismatches_upto(a, b, n) <= n,
    decreases n,
{
    if n > 0 {
        lemma_mismatches_bounded(a, b, (n - 1) as nat);
    }
}

/// The difference over the first `k` chunks is at most their data length.
pub proof fn lemma_difference_bounded(a: Seq<ChunkView>, b: Seq<ChunkView>, k: nat)
    requires
        k <= a.len(),
    ensures
        difference_upto(a, b, k) <= data_len_upto(a, k),
    decreases k,
{
    if k > 0 {
        lemma_difference_bounded(a, b, (k - 1) as nat);
        lemma_mismatches_bounded(chunk_data(a, k - 1), chunk_data(b, k - 1), a[k - 1].data.len());
    }
}

/// A chunk does not differ from itself.
pub proof fn lemma_no_mismatch_with_self(a: Seq<u8>, n: nat)
    requires
        n <= a.len(),
    ensures
        mismatches_upto(a, a, n) == 0,
    decreases n,
{
    if n > 0 {
        lemma_no_mismatch_with_self(a, (n - 1) as nat);
    }
}

/// A chunk list does not differ from itself.
pub proof fn lemma_no_difference_with_self(a: Seq<ChunkView>, k: nat)
    requires
        k <= a.len(),
    ensures
        difference_upto(a, a, k) == 0,
    decreases k,
{
    if k > 0 {
        lemma_no_difference_with_self(a, (k - 1) as nat);
        lemma_no_mismatch_with_self(a[k - 1].data, a[k - 1].data.len());
    }
}

/// The score of a save against itself, and so against any copy of it, is 0.
pub proof fn difference_with_self_is_zero(a: SaveView)
    ensures
        difference(a, a) == 0,
{
    lemma_no_difference_with_self(a.chunks, a.chunks.len());
}

/// A parsed save file: header, players and the raw chunks.
///
/// A value of this type always holds [`CHUNK_COUNT`] chunks that are laid out
/// one after another.
#[derive(Debug)]
pub struct Civ5Save {
    header: Header,
    players: Vec<Player>,
    chunks: Vec<Chunk>,
}

impl View for Civ5Save {
    type V = SaveView;

    closed spec fn view(&self) -> SaveView {
        SaveView {
            header: self.header@,
            players: player_views(self.players@),
            chunks: chunk_views(self.chunks@),
        }
    }
}

impl Clone for Civ5Save {
    fn clone(&self) -> (r: Self)
        ensures
            r@ == self@,
    {
        proof {
            use_type_invariant(self);
        }
        let header = self.header.clone();
        let players = self.players.clone();
        let chunks = self.chunks.clone();
        assert(player_views(players@) =~= player_views(self.players@));
        assert(chunk_views(chunks@) =~= chunk_views(self.chunks@));
        Civ5Save { header, players, chunks }
    }
}

impl Civ5Save {
    #[verifier::type_invariant]
    spec fn valid(&self) -> bool {
        valid_save(self@)
    }

    /// Builds a save from its parts. The chunk list must have the fixed
    /// length, else `UnexpectedChunkCount`; and each chunk must carry its
    /// index, the length of its data, and the offset that follows from the
    /// chunks before it, else `ChunkBoundaryNotFound`.
    pub fn from_parts(header: Header, players: Vec<Player>, chunks: Vec<Chunk>) -> (r: Result<
        Civ5Save,
        SaveError,
    >)
        ensures
            match r {
                Ok(save) => {
                    &&& valid_save(save@)
                    &&& save@.header == header@
                    &&& save@.players == player_views(players@)
                    &&& save@.chunks == chunk_views(chunks@)
                },
                Err(e) => {
                    &&& e == if chunks.len() != CHUNK_COUNT {
                        SaveError::UnexpectedChunkCount
                    } else {
                        SaveError::ChunkBoundaryNotFound
                    }
                    &&& !(chunks.len() == CHUNK_COUNT && laid_out(chunk_views(chunks@)))
                },
            },
    {
        if chunks.len() != CHUNK_COUNT {
            return Err(SaveError::UnexpectedChunkCount);
        }
        let ghost views = chunk_views(chunks@);
        let mut start: u64 = 0;
        let mut k: usize = 0;
        while k < chunks.len()
            invariant
                k <= chunks.len(),
                chunks.len() == CHUNK_COUNT,
                views == chunk_views(chunks@),
                start == chunk_start(views, k as int),
                forall|i: int| 0 <= i < k ==> chunk_in_place(views, i),
            decreases chunks.len() - k,
        {
            let chunk = &chunks[k];
            assert(views[k as int] == chunk@);
            let end = match start.checked_add(chunk.size) {
                Some(end_of_data) => end_of_data.checked_add(MARKER_LEN as u64),
                None => None,
            };
            let in_place = match end {
                Some(offset) => chunk.id == k && chunk.size == chunk.data.len() as u64
                    && chunk.offset == offset,
                None => false,
            };
            if !in_place {
                assert(!chunk_in_place(views, k as int));
                return Err(SaveError::ChunkBoundaryNotFound);
            }
            start = chunk.offset;
            k += 1;
        }
        Ok(Civ5Save { header, players, chunks })
    }

    /// Builds a save from parts that are known to be valid.
    pub(crate) fn assemble(header: Header, players: Vec<Player>, chunks: Vec<Chunk>) -> (save:
        Civ5Save)
        requires
            chunks.len() == CHUNK_COUNT,
            laid_out(chunk_views(chunks@)),
        ensures
            save@.header == header@,
            save@.players == player_views(players@),
            save@.chunks == chunk_views(chunks@),
    {
        Civ5Save { header, players, chunks }
    }

    /// The header fields.
    pub fn header(&self) -> (r: &Header)
        ensures
            r@ == self@.header,
    {
        &self.header
    }

    /// The players, in turn order.
    pub fn players(&self) -> (r: &Vec<Player>)
        ensures
            player_views(r@) == self@.players,
    {
        &self.players
    }

    /// The chunks, in file order.
    pub fn chunks(&self) -> (r: &Vec<Chunk>)
        ensures
            chunk_views(r@) == self@.chunks,
            valid_save(self@),
    {
        proof {
            use_type_invariant(self);
        }
        &self.chunks
    }

    /// The turn number recorded in the header.
    pub fn turn(&self) -> (r: u32)
        ensures
            r == self@.header.turn,
    {
        self.header.turn
    }

    /// Scores how much this save differs from `other`: every byte of every
    /// chunk of this save counts 1 if the chunk of `other` with the same
    /// index has no byte at that offset or a different one. Chunks are
    /// compared up to the length of this save's chunk only, so the score of
    /// `a` against `b` need not be that of `b` against `a`.
    pub fn difference_score(&self, other: &Civ5Save) -> (diff: u64)
        ensures
            diff == difference(self@, other@),
    {
        let ghost a = chunk_views(self.chunks@);
        let ghost b = chunk_views(other.chunks@);
        proof {
            use_type_invariant(self);
            use_type_invariant(other);
            lemma_laid_out_data_len(a, a.len());
        }
        let mut diff: u64 = 0;
        let mut i: usize = 0;
        while i < self.chunks.len()
            invariant
                i <= self.chunks.len(),
                a == chunk_views(self.chunks@),
                b == chunk_views(other.chunks@),
                a.len() == b.len(),
                data_len_upto(a, a.len()) <= u64::MAX,
                diff == difference_upto(a, b, i as nat),
            decreases self.chunks.len() - i,
        {
            let data = &self.chunks[i].data;
            let other_data = &other.chunks[i].data;
            proof {
                lemma_difference_bounded(a, b, i as nat);
                lemma_data_len_monotone(a, (i + 1) as nat, a.len());
                assert(a[i as int].data == data@);
                assert(b[i as int].data == other_data@);
            }
            let mut j: usize = 0;
            while j < data.len()
                invariant
                    j <= data.len(),
                    diff == difference_upto(a, b, i as nat) + mismatches_upto(
                        data@,
                        other_data@,
                        j as nat,
                    ),
                    difference_upto(a, b, i as nat) + data.len() <= u64::MAX,
                decreases data.len() - j,
            {
                proof {
                    lemma_mismatches_bounded(data@, other_data@, j as nat);
                }
                if j >= other_data.len() || data[j] != other_data[j] {
                    diff += 1;
                }
                j += 1;
            }
            i += 1;
        }
        diff
    }
}

/// The data length of a prefix of the chunks is at most that of a longer
/// prefix.
pub proof fn lemma_data_len_monotone(chunks: Seq<ChunkView>, k: nat, n: nat)
    requires
        k <= n,
    ensures
        data_len_upto(chunks, k) <= data_len_upto(chunks, n),
    decreases n,
{
    if k < n {
        lemma_data_len_monotone(chunks, k, (n - 1) as nat);
    }
}

} // verus!
