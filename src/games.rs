//! Game records: three 16-bit indices, two scores and the moves.
use crate::bounded::BoundedBytes;
use crate::error::{ReadError, WriteError};
use crate::header::{from_le16, get_u16, le16, HEADER_SIZE};
use crate::records::{concat, put_padded, zeros};
use crate::slice::{as_chunks, window};
use vstd::prelude::*;

verus! {

/// An Othello game, whose moves are held in `M`.
#[derive(Clone, Hash, Debug)]
pub struct GameRecord<M> {
    /// The index of the tournament.
    pub tournament: u16,
    /// The index of the black player.
    pub black_player: u16,
    /// The index of the white player.
    pub white_player: u16,
    /// The final number of black disks.
    pub score: u8,
    /// The number of black disks if both players had played the best moves
    /// from the point where the number of empty squares was the calculation
    /// depth.
    pub theoretical_score: u8,
    /// The moves, one byte each, as stored: ten times the row plus the
    /// column, both counted from one.
    pub moves: M,
}

/// A game on an `8x8` board.
pub type GameInfo = GameRecord<heapless::Vec<u8, 60>>;

/// A game on a `10x10` board.
pub type GameInfo10 = GameRecord<heapless::Vec<u8, 96>>;

/// Whether `moves` are the moves that `raw` holds: the bytes before its
/// first zero, or all of them where it has none.
pub open spec fn holds_moves(raw: Seq<u8>, moves: Seq<u8>) -> bool {
    &&& moves.len() <= raw.len()
    &&& raw.take(moves.len() as int) == moves
    &&& forall|j: int| 0 <= j < moves.len() ==> moves[j] != 0
    &&& moves.len() < raw.len() ==> raw[moves.len() as int] == 0
}

/// Whether `moves` is free of zeros, so that it can be stored.
pub open spec fn no_zero(moves: Seq<u8>) -> bool {
    forall|j: int| 0 <= j < moves.len() ==> moves[j] != 0
}

/// The width of the record of a game whose moves are held in `M`.
pub open spec fn game_width<M: BoundedBytes>() -> nat {
    8 + M::capacity()
}

/// Whether `g` is the game that `slot` holds.
pub open spec fn holds_game<M: BoundedBytes>(slot: Seq<u8>, g: GameRecord<M>) -> bool {
    &&& from_le16(slot.subrange(0, 2)) == g.tournament
    &&& from_le16(slot.subrange(2, 4)) == g.black_player
    &&& from_le16(slot.subrange(4, 6)) == g.white_player
    &&& slot[6] == g.score
    &&& slot[7] == g.theoretical_score
    &&& holds_moves(slot.skip(8), g.moves.bytes())
}

/// The record that stores `g`: its moves are followed by zeros.
pub open spec fn game_slot<M: BoundedBytes>(g: GameRecord<M>) -> Seq<u8> {
    le16(g.tournament) + le16(g.black_player) + le16(g.white_player) + seq![
        g.score,
        g.theoretical_score,
    ] + g.moves.bytes() + zeros((M::capacity() - g.moves.bytes().len()) as nat)
}

/// Whether `games` are the games that `section` holds, record by record.
pub open spec fn games_section_holds<M: BoundedBytes>(
    section: Seq<u8>,
    games: Seq<GameRecord<M>>,
) -> bool {
    forall|i: int|
        0 <= i < games.len() ==> holds_game(#[trigger] window(section, game_width::<M>(), i), games[i])
}

/// The bytes of a section that stores `games`.
pub open spec fn games_section<M: BoundedBytes>(games: Seq<GameRecord<M>>) -> Seq<u8> {
    concat(games.map_values(|g: GameRecord<M>| game_slot(g)))
}

/// Reads the game in `slot`.
fn read_game<M: BoundedBytes>(slot: &[u8]) -> (r: GameRecord<M>)
    requires
        slot@.len() == game_width::<M>(),
    ensures
        holds_game(slot@, r),
{
    let len = slot.len();
    let mut k: usize = 8;
    while k < len && slot[k] != 0
        invariant
            len == slot@.len(),
            8 <= k <= len,
            forall|j: int| 8 <= j < k ==> slot@[j] != 0,
        decreases len - k,
    {
        k = k + 1;
    }
    let raw = &slot[8..k];
    assert(raw@.len() == k - 8);
    let moves = M::from_bytes(raw).unwrap();
    let g = GameRecord {
        tournament: get_u16(slot, 0),
        black_player: get_u16(slot, 2),
        white_player: get_u16(slot, 4),
        score: slot[6],
        theoretical_score: slot[7],
        moves,
    };
    assert(slot@.skip(8).take(k - 8) =~= raw@);
    g
}

/// Reads `count` games from `bytes`, the section that follows the header. It
/// fails only where the section is not exactly `count` records long.
pub fn read_games<M: BoundedBytes>(bytes: &[u8], count: u32) -> (r: Result<
    Vec<GameRecord<M>>,
    ReadError,
>)
    ensures
        r is Ok <==> bytes@.len() == game_width::<M>() * count,
        r matches Ok(v) ==> v@.len() == count && games_section_holds(bytes@, v@),
{
    let width = M::max_len() + 8;
    let chunks = match as_chunks(bytes, width, count as usize) {
        Some(chunks) => chunks,
        None => return Err(ReadError::InvalidFormat),
    };
    let mut games: Vec<GameRecord<M>> = Vec::new();
    let mut i: usize = 0;
    while i < chunks.len()
        invariant
            width == game_width::<M>(),
            bytes@.len() == width * count,
            chunks@.len() == count,
            forall|j: int| 0 <= j < count ==> (#[trigger] chunks@[j])@ == window(bytes@, width as nat, j),
            i <= count,
            games@.len() == i,
            forall|j: int| 0 <= j < i ==> holds_game(#[trigger] window(bytes@, width as nat, j), games@[j]),
        decreases count - i,
    {
        proof {
            assert(i * width + width <= width * count) by (nonlinear_arith)
                requires
                    i < count,
            ;
        }
        let g = read_game::<M>(chunks[i]);
        games.push(g);
        i = i + 1;
    }
    Ok(games)
}

/// Writes the record of `g` at `at`.
#[verifier::rlimit(20)]
fn put_game<M: BoundedBytes>(buf: &mut [u8], at: usize, g: &GameRecord<M>)
    requires
        at + game_width::<M>() <= old(buf)@.len(),
    ensures
        final(buf)@ == old(buf)@.take(at as int) + game_slot(*g) + old(buf)@.skip(
            at + game_width::<M>(),
        ),
        g.moves.bytes().len() <= M::capacity(),
{
    let n: usize = buf.len();
    buf[at] = (g.tournament % 256) as u8;
    buf[at + 1] = (g.tournament / 256) as u8;
    buf[at + 2] = (g.black_player % 256) as u8;
    buf[at + 3] = (g.black_player / 256) as u8;
    buf[at + 4] = (g.white_player % 256) as u8;
    buf[at + 5] = (g.white_player / 256) as u8;
    buf[at + 6] = g.score;
    buf[at + 7] = g.theoretical_score;
    let moves = g.moves.as_bytes();
    put_padded(buf, at + 8, moves, M::max_len());
    assert(buf@ =~= old(buf)@.take(at as int) + game_slot(*g) + old(buf)@.skip(
        at + game_width::<M>(),
    ));
}

/// Writes `games` after the header in `buf`. It fails where `count` is not
/// the number of games, or else where `buf` is not a header and `count`
/// records long, leaving `buf` as it was.
pub fn write_games<M: BoundedBytes>(buf: &mut [u8], games: &[GameRecord<M>], count: u32) -> (r:
    Result<(), WriteError>)
    ensures
        games@.len() != count ==> r == Err::<(), WriteError>(WriteError::TooManyElements),
        games@.len() == count && old(buf)@.len() != HEADER_SIZE + game_width::<M>() * count
            ==> r == Err::<(), WriteError>(WriteError::InvalidLength),
        r is Ok <==> games@.len() == count && old(buf)@.len() == HEADER_SIZE + game_width::<M>()
            * count,
        r is Ok ==> final(buf)@ == old(buf)@.take(HEADER_SIZE as int) + games_section(games@),
        r is Err ==> final(buf)@ == old(buf)@,
{
    if games.len() != count as usize {
        return Err(WriteError::TooManyElements);
    }
    let width = M::max_len() + 8;
    let len = buf.len();
    if len < HEADER_SIZE {
        return Err(WriteError::InvalidLength);
    }
    let rest = len - HEADER_SIZE;
    if rest % width != 0 || rest / width != games.len() {
        proof {
            if rest == width * count {
                assert(rest % width == 0 && rest / width == count) by (nonlinear_arith)
                    requires
                        rest == width * count,
                        width > 0,
                ;
            }
        }
        return Err(WriteError::InvalidLength);
    }
    proof {
        assert(rest == width * count) by (nonlinear_arith)
            requires
                rest % width == 0,
                rest / width == count,
                width > 0,
        ;
    }
    let ghost slots = games@.map_values(|g: GameRecord<M>| game_slot(g));
    let mut i: usize = 0;
    while i < games.len()
        invariant
            width == game_width::<M>(),
            games@.len() == count,
            len == HEADER_SIZE + width * count,
            slots == games@.map_values(|g: GameRecord<M>| game_slot(g)),
            i <= count,
            buf@.len() == len,
            buf@.take(HEADER_SIZE + i * width) == old(buf)@.take(HEADER_SIZE as int) + concat(
                slots.take(i as int),
            ),
        decreases count - i,
    {
        proof {
            assert(i * width + width <= width * count) by (nonlinear_arith)
                requires
                    i < count,
            ;
        }
        let at = HEADER_SIZE + i * width;
        let ghost before = buf@;
        put_game(buf, at, &games[i]);
        proof {
            assert(slots.take(i + 1).drop_last() =~= slots.take(i as int));
            assert(buf@.take(at + width) =~= before.take(at as int) + game_slot(games@[i as int]));
            assert((i + 1) * width == i * width + width) by (nonlinear_arith);
        }
        i = i + 1;
    }
    proof {
        assert(slots.take(count as int) =~= slots);
        assert(width * count == count * width) by (nonlinear_arith);
        assert(buf@ =~= buf@.take(HEADER_SIZE + count * width));
    }
    Ok(())
}

} // verus!
