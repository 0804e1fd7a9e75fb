//! The four kinds of files: names of players (`.JOU`), names of tournaments
//! (`.TRN`), and games on boards of `8x8` and of `10x10` (`.wtb`).
use crate::bounded::BoundedBytes;
use crate::error::{ReadError, WriteError};
use crate::games::{
    game_width, games_section, games_section_holds, read_games, write_games, GameInfo, GameInfo10,
    GameRecord,
};
use crate::header::{
    header_bytes, header_of, is_games_header, is_names_header, read, read_games_header,
    read_names_header, write_games_header, write_names_header, HEADER_SIZE,
};
use crate::records::{
    name_width, names_of, names_section, names_section_holds, names_section_ok, read_names,
    write_names,
};
use vstd::prelude::*;

verus! {

/// The date of creation of a file: century, year, month and day.
pub type Date = (u8, u8, u8, u8);

/// The date of creation that the header at the start of `b` holds.
pub open spec fn date_of(b: Seq<u8>) -> Date {
    let h = header_of(b);
    (h.0, h.1, h.2, h.3)
}

// ------------------------------------------------------------- names files

/// Whether `b` is a valid file of names of type `S`: a header of a file of
/// names, then exactly as many valid slots as it counts.
pub open spec fn names_file_ok<S: BoundedBytes>(b: Seq<u8>) -> bool {
    &&& b.len() >= HEADER_SIZE
    &&& is_names_header(header_of(b))
    &&& names_section_ok::<S>(b.skip(16), header_of(b).5 as nat)
}

/// Whether `date` and `names` are what the file of names `b` holds.
pub open spec fn names_file_holds<S: BoundedBytes>(
    b: Seq<u8>,
    date: Date,
    names: Seq<Seq<u8>>,
) -> bool {
    &&& date == date_of(b)
    &&& names.len() == header_of(b).5
    &&& names_section_holds(b.skip(16), name_width::<S>(), names)
}

/// The bytes of a file of names of type `S`.
pub open spec fn names_file<S: BoundedBytes>(date: Date, names: Seq<Seq<u8>>) -> Seq<u8> {
    header_bytes((date.0, date.1, date.2, date.3, 0, names.len() as u16, 0, 0, 0, 0))
        + names_section(names, name_width::<S>())
}

fn read_names_file<S: BoundedBytes>(bytes: &[u8]) -> (r: Result<(Date, Vec<S>), ReadError>)
    ensures
        r is Ok <==> names_file_ok::<S>(bytes@),
        r matches Ok((date, names)) ==> names_file_holds::<S>(bytes@, date, names_of(names@)),
{
    let (created_centry, created_year, created_month, created_day, number_of_names) =
        read_names_header(bytes)?;
    let (_, rest) = read(bytes, HEADER_SIZE)?;
    let names = read_names::<S>(rest, number_of_names)?;
    Ok(((created_centry, created_year, created_month, created_day), names))
}

fn write_names_file<S: BoundedBytes>(buf: &mut [u8], date: Date, names: &[S]) -> (r: Result<
    (),
    WriteError,
>)
    ensures
        names@.len() > u16::MAX ==> r == Err::<(), WriteError>(WriteError::TooManyElements),
        names@.len() <= u16::MAX && old(buf)@.len() != HEADER_SIZE + name_width::<S>()
            * names@.len() ==> r == Err::<(), WriteError>(WriteError::InvalidLength),
        r is Ok <==> names@.len() <= u16::MAX && old(buf)@.len() == HEADER_SIZE + name_width::<
            S,
        >() * names@.len(),
        r is Ok ==> final(buf)@ == names_file::<S>(date, names_of(names@)),
        r is Err ==> final(buf)@ == old(buf)@,
{
    if names.len() > 65535 {
        return Err(WriteError::TooManyElements);
    }
    let count = names.len() as u16;
    let width = S::max_len() + 1;
    assert(width * count <= 97 * 65535) by (nonlinear_arith)
        requires
            width <= 97,
            count <= 65535,
    ;
    if buf.len() != HEADER_SIZE + width * names.len() {
        return Err(WriteError::InvalidLength);
    }
    let _ = write_names_header(buf, date.0, date.1, date.2, date.3, count);
    let ghost mid = buf@;
    let _ = write_names(buf, names, count);
    proof {
        assert(mid.take(16) =~= header_bytes(
            (date.0, date.1, date.2, date.3, 0, count, 0, 0, 0, 0),
        ));
    }
    Ok(())
}

// ------------------------------------------------------------- games files

/// Whether `b` is a valid file of games whose moves are held in `M`: a
/// header of a file of games, then exactly as many records as it counts.
/// The size of the board is checked by each kind.
pub open spec fn games_file_ok<M: BoundedBytes>(b: Seq<u8>) -> bool {
    &&& b.len() >= HEADER_SIZE
    &&& is_games_header(header_of(b))
    &&& b.skip(16).len() == game_width::<M>() * header_of(b).4
}

/// Whether `date`, `year`, `depth` and `games` are what the file of games
/// `b` holds.
pub open spec fn games_file_holds<M: BoundedBytes>(
    b: Seq<u8>,
    date: Date,
    year: u16,
    depth: u8,
    games: Seq<GameRecord<M>>,
) -> bool {
    &&& date == date_of(b)
    &&& year == header_of(b).6
    &&& depth == header_of(b).9
    &&& games.len() == header_of(b).4
    &&& games_section_holds(b.skip(16), games)
}

/// The bytes of a file of games on a board of `board` squares a side.
pub open spec fn games_file<M: BoundedBytes>(
    date: Date,
    year: u16,
    board: u8,
    depth: u8,
    games: Seq<GameRecord<M>>,
) -> Seq<u8> {
    header_bytes((date.0, date.1, date.2, date.3, games.len() as u32, 0, year, board, 0, depth))
        + games_section(games)
}

fn read_games_file<M: BoundedBytes>(bytes: &[u8]) -> (r: Result<
    (Date, u16, u8, u8, Vec<GameRecord<M>>),
    ReadError,
>)
    ensures
        r is Ok <==> games_file_ok::<M>(bytes@),
        r matches Ok((date, year, board, depth, games)) ==> board == header_of(bytes@).7
            && games_file_holds::<M>(bytes@, date, year, depth, games@),
{
    let (
        created_centry,
        created_year,
        created_month,
        created_day,
        number_of_games,
        year,
        size_of_board,
        calculation_depth,
    ) = read_games_header(bytes)?;
    let (_, rest) = read(bytes, HEADER_SIZE)?;
    let games = read_games::<M>(rest, number_of_games)?;
    Ok((
        (created_centry, created_year, created_month, created_day),
        year,
        size_of_board,
        calculation_depth,
        games,
    ))
}

fn write_games_file<M: BoundedBytes>(
    buf: &mut [u8],
    date: Date,
    year: u16,
    board: u8,
    depth: u8,
    games: &[GameRecord<M>],
) -> (r: Result<(), WriteError>)
    ensures
        games@.len() > u32::MAX ==> r == Err::<(), WriteError>(WriteError::TooManyElements),
        games@.len() <= u32::MAX && old(buf)@.len() != HEADER_SIZE + game_width::<M>()
            * games@.len() ==> r == Err::<(), WriteError>(WriteError::InvalidLength),
        r is Ok <==> games@.len() <= u32::MAX && old(buf)@.len() == HEADER_SIZE + game_width::<
            M,
        >() * games@.len(),
        r is Ok ==> final(buf)@ == games_file::<M>(date, year, board, depth, games@),
        r is Err ==> final(buf)@ == old(buf)@,
{
    if games.len() > 4294967295 {
        return Err(WriteError::TooManyElements);
    }
    let count = games.len() as u32;
    let width = M::max_len() + 8;
    let len = buf.len();
    if len < HEADER_SIZE {
        return Err(WriteError::InvalidLength);
    }
    let rest = len - HEADER_SIZE;
    if rest % width != 0 || rest / width != games.len() {
        proof {
            if rest == width * count {
                assert(rest % width == 0 && rest / width == count) by (nonlinear_arith)
                    requires
                        rest == width * count,
                        width > 0,
                ;
            }
        }
        return Err(WriteError::InvalidLength);
    }
    proof {
        assert(rest == width * count) by (nonlinear_arith)
            requires
                rest % width == 0,
                rest / width == count,
                width > 0,
        ;
    }
    let _ = write_games_header(buf, date.0, date.1, date.2, date.3, count, year, board, depth);
    let ghost mid = buf@;
    let _ = write_games(buf, games, count);
    proof {
        assert(mid.take(16) =~= header_bytes(
            (date.0, date.1, date.2, date.3, count, 0, year, board, 0, depth),
        ));
    }
    Ok(())
}

/// A jou file, which contains names of players.
#[derive(Clone, Hash, Debug)]
pub struct Jou {
    /// The century when the file was created.
    pub created_centry: u8,
    /// The year in the century when the file was created.
    pub created_year: u8,
    /// The month when the file was created.
    pub created_month: u8,
    /// The day when the file was created.
    pub created_day: u8,
    /// Names of players, each at most 19 bytes.
    pub players: Vec<heapless::Vec<u8, 19>>,
}

impl Jou {
    /// The date of creation.
    pub open spec fn date(&self) -> Date {
        (self.created_centry, self.created_year, self.created_month, self.created_day)
    }

    /// The bytes of the names.
    pub open spec fn names(&self) -> Seq<Seq<u8>> {
        names_of(self.players@)
    }

    /// The length of the file in bytes.
    pub open spec fn spec_size(&self) -> int {
        HEADER_SIZE + name_width::<heapless::Vec<u8, 19>>() * self.players@.len()
    }

    /// The bytes of the file.
    pub open spec fn file_bytes(&self) -> Seq<u8> {
        names_file::<heapless::Vec<u8, 19>>(self.date(), self.names())
    }

    /// Whether `self` is what `bytes` holds.
    pub open spec fn read_from(&self, bytes: Seq<u8>) -> bool {
        names_file_holds::<heapless::Vec<u8, 19>>(bytes, self.date(), self.names())
    }

    /// Reads a file. It fails where the header is short or has a reserved
    /// field that is not zero, or the names do not fill exactly as many slots
    /// of 20 bytes as the header counts, or a slot has no sentinel.
    pub fn read(bytes: &[u8]) -> (r: Result<Self, ReadError>)
        ensures
            r is Ok <==> names_file_ok::<heapless::Vec<u8, 19>>(bytes@),
            r matches Ok(v) ==> v.read_from(bytes@),
            r is Err ==> r == Err::<Self, ReadError>(ReadError::InvalidFormat),
    {
        let (date, players) = read_names_file(bytes)?;
        Ok(Jou {
            created_centry: date.0,
            created_year: date.1,
            created_month: date.2,
            created_day: date.3,
            players,
        })
    }

    /// Writes the file into `buf`, whose length must be [`Self::size`]. It
    /// fails where there are more names than the header can count, or else
    /// where `buf` has another length, leaving `buf` as it was.
    pub fn write(&self, buf: &mut [u8]) -> (r: Result<(), WriteError>)
        ensures
            self.players@.len() > u16::MAX ==> r == Err::<(), WriteError>(
                WriteError::TooManyElements,
            ),
            self.players@.len() <= u16::MAX && old(buf)@.len() != self.spec_size() ==> r == Err::<
                (),
                WriteError,
            >(WriteError::InvalidLength),
            r is Ok <==> self.players@.len() <= u16::MAX && old(buf)@.len() == self.spec_size(),
            r is Ok ==> final(buf)@ == self.file_bytes(),
            r is Err ==> final(buf)@ == old(buf)@,
    {
        write_names_file(
            buf,
            (self.created_centry, self.created_year, self.created_month, self.created_day),
            self.players.as_slice(),
        )
    }

    /// The length of the file in bytes: the header and a slot of 20 bytes
    /// for each name.
    pub fn size(&self) -> (r: usize)
        requires
            self.spec_size() <= usize::MAX,
        ensures
            r == self.spec_size(),
    {
        HEADER_SIZE + 20 * self.players.len()
    }
}

/// A trn file, which contains names of tournaments.
#[derive(Clone, Hash, Debug)]
pub struct Trn {
    /// The century when the file was created.
    pub created_centry: u8,
    /// The year in the century when the file was created.
    pub created_year: u8,
    /// The month when the file was created.
    pub created_month: u8,
    /// The day when the file was created.
    pub created_day: u8,
    /// Names of tournaments, each at most 25 bytes.
    pub tournaments: Vec<heapless::Vec<u8, 25>>,
}

impl Trn {
    /// The date of creation.
    pub open spec fn date(&self) -> Date {
        (self.created_centry, self.created_year, self.created_month, self.created_day)
    }

    /// The bytes of the names.
    pub open spec fn names(&self) -> Seq<Seq<u8>> {
        names_of(self.tournaments@)
    }

    /// The length of the file in bytes.
    pub open spec fn spec_size(&self) -> int {
        HEADER_SIZE + name_width::<heapless::Vec<u8, 25>>() * self.tournaments@.len()
    }

    /// The bytes of the file.
    pub open spec fn file_bytes(&self) -> Seq<u8> {
        names_file::<heapless::Vec<u8, 25>>(self.date(), self.names())
    }

    /// Whether `self` is what `bytes` holds.
    pub open spec fn read_from(&self, bytes: Seq<u8>) -> bool {
        names_file_holds::<heapless::Vec<u8, 25>>(bytes, self.date(), self.names())
    }

    /// Reads a file. It fails where the header is short or has a reserved
    /// field that is not zero, or the names do not fill exactly as many slots
    /// of 26 bytes as the header counts, or a slot has no sentinel.
    pub fn read(bytes: &[u8]) -> (r: Result<Self, ReadError>)
        ensures
            r is Ok <==> names_file_ok::<heapless::Vec<u8, 25>>(bytes@),
            r matches Ok(v) ==> v.read_from(bytes@),
            r is Err ==> r == Err::<Self, ReadError>(ReadError::InvalidFormat),
    {
        let (date, tournaments) = read_names_file(bytes)?;
        Ok(Trn {
            created_centry: date.0,
            created_year: date.1,
            created_month: date.2,
            created_day: date.3,
            tournaments,
        })
    }

    /// Writes the file into `buf`, whose length must be [`Self::size`]. It
    /// fails where there are more names than the header can count, or else
    /// where `buf` has another length, leaving `buf` as it was.
    pub fn write(&self, buf: &mut [u8]) -> (r: Result<(), WriteError>)
        ensures
            self.tournaments@.len() > u16::MAX ==> r == Err::<(), WriteError>(
                WriteError::TooManyElements,
            ),
            self.tournaments@.len() <= u16::MAX && old(buf)@.len() != self.spec_size() ==> r == Err::<
                (),
                WriteError,
            >(WriteError::InvalidLength),
            r is Ok <==> self.tournaments@.len() <= u16::MAX && old(buf)@.len() == self.spec_size(),
            r is Ok ==> final(buf)@ == self.file_bytes(),
            r is Err ==> final(buf)@ == old(buf)@,
    {
        write_names_file(
            buf,
            (self.created_centry, self.created_year, self.created_month, self.created_day),
            self.tournaments.as_slice(),
        )
    }

    /// The length of the file in bytes: the header and a slot of 26 bytes
    /// for each name.
    pub fn size(&self) -> (r: usize)
        requires
            self.spec_size() <= usize::MAX,
        ensures
            r == self.spec_size(),
    {
        HEADER_SIZE + 26 * self.tournaments.len()
    }
}

/// A wtb file, which contains Othello games on a board of 8x8 squares.
#[derive(Clone, Hash, Debug)]
pub struct Wtb {
    /// The century when the file was created.
    pub created_centry: u8,
    /// The year in the century when the file was created.
    pub created_year: u8,
    /// The month when the file was created.
    pub created_month: u8,
    /// The day when the file was created.
    pub created_day: u8,
    /// The year when the games were played.
    pub year: u16,
    /// The number of empty squares from which [`GameRecord::theoretical_score`]
    /// was calculated. The value `0` stands for `22` in files after 01/01/2001.
    pub calculation_depth: u8,
    /// Othello games.
    pub games: Vec<GameInfo>,
}

impl Wtb {
    /// The date of creation.
    pub open spec fn date(&self) -> Date {
        (self.created_centry, self.created_year, self.created_month, self.created_day)
    }

    /// Whether `board` is a size of the board that this kind accepts.
    pub open spec fn accepts_board(board: u8) -> bool {
        board == 0 || board == 8
    }

    /// The length of the file in bytes.
    pub open spec fn spec_size(&self) -> int {
        HEADER_SIZE + game_width::<heapless::Vec<u8, 60>>() * self.games@.len()
    }

    /// The bytes of the file.
    pub open spec fn file_bytes(&self) -> Seq<u8> {
        games_file::<heapless::Vec<u8, 60>>(
            self.date(),
            self.year,
            8,
            self.calculation_depth,
            self.games@,
        )
    }

    /// Whether `self` is what `bytes` holds.
    pub open spec fn read_from(&self, bytes: Seq<u8>) -> bool {
        games_file_holds::<heapless::Vec<u8, 60>>(
            bytes,
            self.date(),
            self.year,
            self.calculation_depth,
            self.games@,
        )
    }

    /// Reads a file. It fails where the header is short, has a reserved field
    /// that is not zero or a size of the board that is not `0` or `8`, or the
    /// games do not fill exactly as many records of 68 bytes as the header
    /// counts.
    pub fn read(bytes: &[u8]) -> (r: Result<Self, ReadError>)
        ensures
            r is Ok <==> games_file_ok::<heapless::Vec<u8, 60>>(bytes@) && Self::accepts_board(
                header_of(bytes@).7,
            ),
            r matches Ok(v) ==> v.read_from(bytes@),
            r is Err ==> r == Err::<Self, ReadError>(ReadError::InvalidFormat),
    {
        let (date, year, size_of_board, calculation_depth, games) = read_games_file(bytes)?;
        if size_of_board != 0 && size_of_board != 8 {
            return Err(ReadError::InvalidFormat);
        }
        Ok(Wtb {
            created_centry: date.0,
            created_year: date.1,
            created_month: date.2,
            created_day: date.3,
            year,
            calculation_depth,
            games,
        })
    }

    /// Writes the file into `buf`, whose length must be [`Self::size`], with
    /// 8 as the size of the board. It fails where there are more games
    /// than the header can count, or else where `buf` has another length,
    /// leaving `buf` as it was.
    pub fn write(&self, buf: &mut [u8]) -> (r: Result<(), WriteError>)
        ensures
            self.games@.len() > u32::MAX ==> r == Err::<(), WriteError>(
                WriteError::TooManyElements,
            ),
            self.games@.len() <= u32::MAX && old(buf)@.len() != self.spec_size() ==> r == Err::<
                (),
                WriteError,
            >(WriteError::InvalidLength),
            r is Ok <==> self.games@.len() <= u32::MAX && old(buf)@.len() == self.spec_size(),
            r is Ok ==> final(buf)@ == self.file_bytes(),
            r is Err ==> final(buf)@ == old(buf)@,
    {
        write_games_file(
            buf,
            (self.created_centry, self.created_year, self.created_month, self.created_day),
            self.year,
            8,
            self.calculation_depth,
            self.games.as_slice(),
        )
    }

    /// The length of the file in bytes: the header and a record of 68
    /// bytes for each game.
    pub fn size(&self) -> (r: usize)
        requires
            self.spec_size() <= usize::MAX,
        ensures
            r == self.spec_size(),
    {
        HEADER_SIZE + 68 * self.games.len()
    }
}

/// A wtb file, which contains Othello games on a board of 10x10 squares.
#[derive(Clone, Hash, Debug)]
pub struct Wtb10 {
    /// The century when the file was created.
    pub created_centry: u8,
    /// The year in the century when the file was created.
    pub created_year: u8,
    /// The month when the file was created.
    pub created_month: u8,
    /// The day when the file was created.
    pub created_day: u8,
    /// The year when the games were played.
    pub year: u16,
    /// The number of empty squares from which [`GameRecord::theoretical_score`]
    /// was calculated. The value `0` stands for `22` in files after 01/01/2001.
    pub calculation_depth: u8,
    /// Othello games.
    pub games: Vec<GameInfo10>,
}

impl Wtb10 {
    /// The date of creation.
    pub open spec fn date(&self) -> Date {
        (self.created_centry, self.created_year, self.created_month, self.created_day)
    }

    /// Whether `board` is a size of the board that this kind accepts.
    pub open spec fn accepts_board(board: u8) -> bool {
        board == 10
    }

    /// The length of the file in bytes.
    pub open spec fn spec_size(&self) -> int {
        HEADER_SIZE + game_width::<heapless::Vec<u8, 96>>() * self.games@.len()
    }

    /// The bytes of the file.
    pub open spec fn file_bytes(&self) -> Seq<u8> {
        games_file::<heapless::Vec<u8, 96>>(
            self.date(),
            self.year,
            10,
            self.calculation_depth,
            self.games@,
        )
    }

    /// Whether `self` is what `bytes` holds.
    pub open spec fn read_from(&self, bytes: Seq<u8>) -> bool {
        games_file_holds::<heapless::Vec<u8, 96>>(
            bytes,
            self.date(),
            self.year,
            self.calculation_depth,
            self.games@,
        )
    }

    /// Reads a file. It fails where the header is short, has a reserved field
    /// that is not zero or a size of the board that is not `10`, or the
    /// games do not fill exactly as many records of 104 bytes as the header
    /// counts.
    pub fn read(bytes: &[u8]) -> (r: Result<Self, ReadError>)
        ensures
            r is Ok <==> games_file_ok::<heapless::Vec<u8, 96>>(bytes@) && Self::accepts_board(
                header_of(bytes@).7,
            ),
            r matches Ok(v) ==> v.read_from(bytes@),
            r is Err ==> r == Err::<Self, ReadError>(ReadError::InvalidFormat),
    {
        let (date, year, size_of_board, calculation_depth, games) = read_games_file(bytes)?;
        if size_of_board != 10 {
            return Err(ReadError::InvalidFormat);
        }
        Ok(Wtb10 {
            created_centry: date.0,
            created_year: date.1,
            created_month: date.2,
            created_day: date.3,
            year,
            calculation_depth,
            games,
        })
    }

    /// Writes the file into `buf`, whose length must be [`Self::size`], with
    /// 10 as the size of the board. It fails where there are more games
    /// than the header can count, or else where `buf` has another length,
    /// leaving `buf` as it was.
    pub fn write(&self, buf: &mut [u8]) -> (r: Result<(), WriteError>)
        ensures
            self.games@.len() > u32::MAX ==> r == Err::<(), WriteError>(
                WriteError::TooManyElements,
            ),
            self.games@.len() <= u32::MAX && old(buf)@.len() != self.spec_size() ==> r == Err::<
                (),
                WriteError,
            >(WriteError::InvalidLength),
            r is Ok <==> self.games@.len() <= u32::MAX && old(buf)@.len() == self.spec_size(),
            r is Ok ==> final(buf)@ == self.file_bytes(),
            r is Err ==> final(buf)@ == old(buf)@,
    {
        write_games_file(
            buf,
            (self.created_centry, self.created_year, self.created_month, self.created_day),
            self.year,
            10,
            self.calculation_depth,
            self.games.as_slice(),
        )
    }

    /// The length of the file in bytes: the header and a record of 104
    /// bytes for each game.
    pub fn size(&self) -> (r: usize)
        requires
            self.spec_size() <= usize::MAX,
        ensures
            r == self.spec_size(),
    {
        HEADER_SIZE + 104 * self.games.len()
    }
}

} // verus!
