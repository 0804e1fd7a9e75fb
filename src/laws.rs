//! What holds of reading and writing files, proved over the specifications
//! of the functions.
use crate::bounded::BoundedBytes;
use crate::file::{
    games_file, games_file_holds, games_file_ok, names_file, names_file_holds, names_file_ok, Date,
    Jou, Trn, Wtb, Wtb10,
};
use crate::games::{game_slot, game_width, games_section, holds_game, holds_moves, no_zero, GameRecord};
use crate::header::{from_le16, header_of, le16, lemma_header_round_trip, HEADER_SIZE};
use crate::records::{
    concat, has_sentinel, holds_name, lemma_concat_windows, name_slot, name_width, names_section,
    no_sentinel, zeros, SENTINEL,
};
use crate::slice::window;
use vstd::prelude::*;

verus! {

/// A slot holds at most one name.
pub proof fn lemma_name_unique(slot: Seq<u8>, a: Seq<u8>, b: Seq<u8>)
    requires
        holds_name(slot, a),
        holds_name(slot, b),
    ensures
        a == b,
{
    if a.len() < b.len() {
        assert(b[a.len() as int] == slot.take(b.len() as int)[a.len() as int]);
    } else if b.len() < a.len() {
        assert(a[b.len() as int] == slot.take(a.len() as int)[b.len() as int]);
    }
}

/// The slot that stores a name free of the sentinel holds that name.
pub proof fn lemma_name_slot_holds(name: Seq<u8>, width: nat)
    requires
        name.len() < width,
        no_sentinel(name),
    ensures
        name_slot(name, width).len() == width,
        holds_name(name_slot(name, width), name),
        has_sentinel(name_slot(name, width)),
{
    let slot = name_slot(name, width);
    assert(slot.take(name.len() as int) =~= name);
    assert(slot[name.len() as int] == SENTINEL);
}

/// A record holds at most one list of moves.
pub proof fn lemma_moves_unique(raw: Seq<u8>, a: Seq<u8>, b: Seq<u8>)
    requires
        holds_moves(raw, a),
        holds_moves(raw, b),
    ensures
        a == b,
{
    if a.len() < b.len() {
        assert(b[a.len() as int] == raw.take(b.len() as int)[a.len() as int]);
    } else if b.len() < a.len() {
        assert(a[b.len() as int] == raw.take(a.len() as int)[b.len() as int]);
    }
}

/// Two bytes store a 16-bit number that is read back.
pub proof fn lemma_le16_round_trip(x: u16)
    ensures
        from_le16(le16(x)) == x,
{
    assert(x == (x % 256) + 256 * (x / 256)) by (nonlinear_arith);
}

/// The fields of a game, with its moves as bytes.
pub open spec fn game_view<M: BoundedBytes>(g: GameRecord<M>) -> (u16, u16, u16, u8, u8, Seq<u8>) {
    (g.tournament, g.black_player, g.white_player, g.score, g.theoretical_score, g.moves.bytes())
}

/// The fields of each game, with its moves as bytes.
pub open spec fn games_view<M: BoundedBytes>(games: Seq<GameRecord<M>>) -> Seq<
    (u16, u16, u16, u8, u8, Seq<u8>),
> {
    games.map_values(|g: GameRecord<M>| game_view(g))
}

/// The record that stores a game whose moves are free of zeros holds that
/// game, and no game with other fields or moves.
pub proof fn lemma_game_slot_holds<M: BoundedBytes>(g: GameRecord<M>)
    requires
        g.moves.bytes().len() <= M::capacity(),
        no_zero(g.moves.bytes()),
    ensures
        game_slot(g).len() == game_width::<M>(),
        holds_game(game_slot(g), g),
        forall|h: GameRecord<M>| holds_game(game_slot(g), h) ==> game_view(h) == game_view(g),
{
    let slot = game_slot(g);
    let m = g.moves.bytes();
    lemma_le16_round_trip(g.tournament);
    lemma_le16_round_trip(g.black_player);
    lemma_le16_round_trip(g.white_player);
    assert(slot.subrange(0, 2) =~= le16(g.tournament));
    assert(slot.subrange(2, 4) =~= le16(g.black_player));
    assert(slot.subrange(4, 6) =~= le16(g.white_player));
    assert(slot.skip(8) =~= m + zeros((M::capacity() - m.len()) as nat));
    assert(slot.skip(8).take(m.len() as int) =~= m);
    assert forall|h: GameRecord<M>| holds_game(slot, h) implies game_view(h) == game_view(g) by {
        lemma_moves_unique(slot.skip(8), h.moves.bytes(), m);
    }
}

/// A file of names is read back as it was written, where each name fits
/// its slot and is free of the sentinel; and no other date or names are
/// read from it.
pub proof fn lemma_names_file_round_trip<S: BoundedBytes>(date: Date, names: Seq<Seq<u8>>)
    requires
        names.len() <= u16::MAX,
        forall|i: int|
            0 <= i < names.len() ==> (#[trigger] names[i]).len() <= S::capacity() && no_sentinel(
                names[i],
            ),
    ensures
        names_file_ok::<S>(names_file::<S>(date, names)),
        names_file_holds::<S>(names_file::<S>(date, names), date, names),
        forall|d: Date, ns: Seq<Seq<u8>>|
            names_file_holds::<S>(names_file::<S>(date, names), d, ns) ==> d == date && ns == names,
{
    let w = name_width::<S>();
    let slots = names.map_values(|n: Seq<u8>| name_slot(n, w));
    let section = names_section(names, w);
    let b = names_file::<S>(date, names);
    lemma_header_round_trip(
        (date.0, date.1, date.2, date.3, 0, names.len() as u16, 0, 0, 0, 0),
        section,
    );
    assert forall|i: int| 0 <= i < slots.len() implies (#[trigger] slots[i]).len() == w by {
        lemma_name_slot_holds(names[i], w);
    }
    lemma_concat_windows(slots, w);
    assert forall|i: int| 0 <= i < names.len() implies holds_name(
        #[trigger] window(section, w, i),
        names[i],
    ) && has_sentinel(window(section, w, i)) by {
        lemma_name_slot_holds(names[i], w);
        assert(window(section, w, i) == slots[i]);
    }
    assert(b.skip(16) == section);
    assert forall|d: Date, ns: Seq<Seq<u8>>| names_file_holds::<S>(b, d, ns) implies d == date
        && ns == names by {
        assert forall|i: int| 0 <= i < ns.len() implies ns[i] == names[i] by {
            assert(holds_name(window(section, w, i), ns[i]));
            lemma_name_unique(window(section, w, i), ns[i], names[i]);
        }
        assert(ns =~= names);
    }
}

/// A file of games is read back as it was written, where the moves of each
/// game fit its record and are free of zeros; and no other date, year,
/// depth or games are read from it.
pub proof fn lemma_games_file_round_trip<M: BoundedBytes>(
    date: Date,
    year: u16,
    board: u8,
    depth: u8,
    games: Seq<GameRecord<M>>,
)
    requires
        games.len() <= u32::MAX,
        forall|i: int|
            0 <= i < games.len() ==> (#[trigger] games[i]).moves.bytes().len() <= M::capacity()
                && no_zero(games[i].moves.bytes()),
    ensures
        games_file_ok::<M>(games_file::<M>(date, year, board, depth, games)),
        header_of(games_file::<M>(date, year, board, depth, games)).7 == board,
        games_file_holds::<M>(games_file::<M>(date, year, board, depth, games), date, year, depth, games),
        forall|d: Date, y: u16, c: u8, gs: Seq<GameRecord<M>>|
            games_file_holds::<M>(games_file::<M>(date, year, board, depth, games), d, y, c, gs)
                ==> d == date && y == year && c == depth && games_view(gs) == games_view(games),
{
    let w = game_width::<M>();
    let slots = games.map_values(|g: GameRecord<M>| game_slot(g));
    let section = games_section(games);
    let b = games_file::<M>(date, year, board, depth, games);
    lemma_header_round_trip(
        (date.0, date.1, date.2, date.3, games.len() as u32, 0, year, board, 0, depth),
        section,
    );
    assert forall|i: int| 0 <= i < slots.len() implies (#[trigger] slots[i]).len() == w by {
        lemma_game_slot_holds(games[i]);
    }
    lemma_concat_windows(slots, w);
    assert forall|i: int| 0 <= i < games.len() implies holds_game(
        #[trigger] window(section, w, i),
        games[i],
    ) by {
        lemma_game_slot_holds(games[i]);
        assert(window(section, w, i) == slots[i]);
    }
    assert(b.skip(16) == section);
    assert forall|d: Date, y: u16, c: u8, gs: Seq<GameRecord<M>>|
        games_file_holds::<M>(b, d, y, c, gs) implies d == date && y == year && c == depth
        && games_view(gs) == games_view(games) by {
        assert forall|i: int| 0 <= i < gs.len() implies game_view(gs[i]) == game_view(games[i]) by {
            assert(holds_game(window(section, w, i), gs[i]));
            lemma_game_slot_holds(games[i]);
            assert(window(section, w, i) == slots[i]);
        }
        assert(games_view(gs) =~= games_view(games));
    }
}

/// Writing a player file and reading the bytes back gives the same file:
/// the bytes are valid, and whatever is read from them has the date and
/// names written. Each name is at most 19 bytes, as its type ensures; it
/// must be free of the sentinel.
pub proof fn lemma_jou_round_trip(v: Jou)
    requires
        v.players@.len() <= u16::MAX,
        forall|i: int|
            0 <= i < v.players@.len() ==> (#[trigger] v.names()[i]).len() <= 19 && no_sentinel(
                v.names()[i],
            ),
    ensures
        names_file_ok::<heapless::Vec<u8, 19>>(v.file_bytes()),
        v.read_from(v.file_bytes()),
        forall|w: Jou| w.read_from(v.file_bytes()) ==> w.date() == v.date() && w.names() == v.names(),
{
    lemma_names_file_round_trip::<heapless::Vec<u8, 19>>(v.date(), v.names());
}

/// Writing a tournament file and reading the bytes back gives the same
/// file: the bytes are valid, and whatever is read from them has the date
/// and names written. Each name is at most 25 bytes, as its type ensures;
/// it must be free of the sentinel.
pub proof fn lemma_trn_round_trip(v: Trn)
    requires
        v.tournaments@.len() <= u16::MAX,
        forall|i: int|
            0 <= i < v.tournaments@.len() ==> (#[trigger] v.names()[i]).len() <= 25 && no_sentinel(
                v.names()[i],
            ),
    ensures
        names_file_ok::<heapless::Vec<u8, 25>>(v.file_bytes()),
        v.read_from(v.file_bytes()),
        forall|w: Trn| w.read_from(v.file_bytes()) ==> w.date() == v.date() && w.names() == v.names(),
{
    lemma_names_file_round_trip::<heapless::Vec<u8, 25>>(v.date(), v.names());
}

/// Writing an `8x8` game file and reading the bytes back gives the same
/// file: the bytes are valid, with an accepted size of the board, and
/// whatever is read from them has the fields and games written. The moves
/// of each game are at most 60 bytes, as their type ensures; they must be
/// free of zeros.
pub proof fn lemma_wtb_round_trip(v: Wtb)
    requires
        v.games@.len() <= u32::MAX,
        forall|i: int|
            0 <= i < v.games@.len() ==> (#[trigger] v.games@[i]).moves.bytes().len() <= 60
                && no_zero(v.games@[i].moves.bytes()),
    ensures
        games_file_ok::<heapless::Vec<u8, 60>>(v.file_bytes()),
        Wtb::accepts_board(header_of(v.file_bytes()).7),
        v.read_from(v.file_bytes()),
        forall|w: Wtb|
            w.read_from(v.file_bytes()) ==> w.date() == v.date() && w.year == v.year
                && w.calculation_depth == v.calculation_depth && games_view(w.games@) == games_view(
                v.games@,
            ),
{
    lemma_games_file_round_trip::<heapless::Vec<u8, 60>>(
        v.date(),
        v.year,
        8,
        v.calculation_depth,
        v.games@,
    );
}

/// Writing a `10x10` game file and reading the bytes back gives the same
/// file: the bytes are valid, with an accepted size of the board, and
/// whatever is read from them has the fields and games written. The moves
/// of each game are at most 96 bytes, as their type ensures; they must be
/// free of zeros.
pub proof fn lemma_wtb10_round_trip(v: Wtb10)
    requires
        v.games@.len() <= u32::MAX,
        forall|i: int|
            0 <= i < v.games@.len() ==> (#[trigger] v.games@[i]).moves.bytes().len() <= 96
                && no_zero(v.games@[i].moves.bytes()),
    ensures
        games_file_ok::<heapless::Vec<u8, 96>>(v.file_bytes()),
        Wtb10::accepts_board(header_of(v.file_bytes()).7),
        v.read_from(v.file_bytes()),
        forall|w: Wtb10|
            w.read_from(v.file_bytes()) ==> w.date() == v.date() && w.year == v.year
                && w.calculation_depth == v.calculation_depth && games_view(w.games@) == games_view(
                v.games@,
            ),
{
    lemma_games_file_round_trip::<heapless::Vec<u8, 96>>(
        v.date(),
        v.year,
        10,
        v.calculation_depth,
        v.games@,
    );
}

/// A file of names whose header has a nonzero byte where a file of names
/// keeps zeros (the 32-bit count, the year, and the two bytes after it) is
/// not valid.
pub proof fn lemma_names_reserved_byte<S: BoundedBytes>(b: Seq<u8>, p: int)
    requires
        b.len() >= HEADER_SIZE,
        4 <= p < 8 || 10 <= p < 14,
        b[p] != 0,
    ensures
        !names_file_ok::<S>(b),
{
}

/// A file of games whose header has a nonzero byte where a file of games
/// keeps zeros (the 16-bit count and the game type) is not valid.
pub proof fn lemma_games_reserved_byte<M: BoundedBytes>(b: Seq<u8>, p: int)
    requires
        b.len() >= HEADER_SIZE,
        p == 8 || p == 9 || p == 13,
        b[p] != 0,
    ensures
        !games_file_ok::<M>(b),
{
}

/// A file of names whose records are not a whole number of slots is not
/// valid.
pub proof fn lemma_names_records_misfit<S: BoundedBytes>(b: Seq<u8>)
    requires
        b.len() >= HEADER_SIZE,
        (b.len() - HEADER_SIZE) % (name_width::<S>() as int) != 0,
    ensures
        !names_file_ok::<S>(b),
{
    let w = name_width::<S>() as int;
    let n = header_of(b).5 as int;
    if b.skip(16).len() == w * n {
        assert((w * n) % w == 0) by (nonlinear_arith)
            requires
                w > 0,
                n >= 0,
        ;
    }
}

/// A file of games whose records are not a whole number of records is not
/// valid.
pub proof fn lemma_games_records_misfit<M: BoundedBytes>(b: Seq<u8>)
    requires
        b.len() >= HEADER_SIZE,
        (b.len() - HEADER_SIZE) % (game_width::<M>() as int) != 0,
    ensures
        !games_file_ok::<M>(b),
{
    let w = game_width::<M>() as int;
    let n = header_of(b).4 as int;
    if b.skip(16).len() == w * n {
        assert((w * n) % w == 0) by (nonlinear_arith)
            requires
                w > 0,
                n >= 0,
        ;
    }
}

/// A file of names with a counted slot that holds no sentinel is not valid.
pub proof fn lemma_slot_without_sentinel<S: BoundedBytes>(b: Seq<u8>, i: int)
    requires
        b.len() >= HEADER_SIZE,
        0 <= i < header_of(b).5,
        !has_sentinel(window(b.skip(16), name_width::<S>(), i)),
    ensures
        !names_file_ok::<S>(b),
{
}

} // verus!
