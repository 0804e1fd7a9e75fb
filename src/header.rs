//! The 16-byte header that every file starts with.
//!
//! Its fields, in order: the century, year, month and day of creation (one
//! byte each), a 32-bit count, a 16-bit count, a 16-bit year and three single
//! bytes, then one byte of padding. Multi-byte fields are little-endian.
use crate::error::{ReadError, WriteError};
use crate::slice::split;
use vstd::prelude::*;

verus! {

/// The length of the header in bytes.
pub const HEADER_SIZE: usize = 16;

/// The fields of a header, in the order in which they are stored.
pub type Header = (u8, u8, u8, u8, u32, u16, u16, u8, u8, u8);

/// The little-endian bytes of `x`.
pub open spec fn le16(x: u16) -> Seq<u8> {
    seq![(x % 256) as u8, (x / 256) as u8]
}

/// The little-endian bytes of `x`.
pub open spec fn le32(x: u32) -> Seq<u8> {
    seq![(x % 256) as u8, (x / 256 % 256) as u8, (x / 65536 % 256) as u8, (x / 16777216) as u8]
}

/// The number whose little-endian bytes are the first two of `b`.
pub open spec fn from_le16(b: Seq<u8>) -> u16 {
    (b[0] + 256 * b[1]) as u16
}

/// The number whose little-endian bytes are the first four of `b`.
pub open spec fn from_le32(b: Seq<u8>) -> u32 {
    (b[0] + 256 * b[1] + 65536 * b[2] + 16777216 * b[3]) as u32
}

/// The fields stored in the first 16 bytes of `b`; the padding byte is not
/// among them.
pub open spec fn header_of(b: Seq<u8>) -> Header {
    (
        b[0],
        b[1],
        b[2],
        b[3],
        from_le32(b.subrange(4, 8)),
        from_le16(b.subrange(8, 10)),
        from_le16(b.subrange(10, 12)),
        b[12],
        b[13],
        b[14],
    )
}

/// The 16 bytes that store `h`, with a zero padding byte.
pub open spec fn header_bytes(h: Header) -> Seq<u8> {
    seq![h.0, h.1, h.2, h.3] + le32(h.4) + le16(h.5) + le16(h.6) + seq![h.7, h.8, h.9, 0u8]
}

/// Whether `h` is the header of a file of names: its 32-bit count, year and
/// the two bytes that follow the year are zero. Its 16-bit count is the
/// number of names.
pub open spec fn is_names_header(h: Header) -> bool {
    h.4 == 0 && h.6 == 0 && h.7 == 0 && h.8 == 0
}

/// Whether `h` is the header of a file of games: its 16-bit count and its
/// game type (the second single byte) are zero. Its 32-bit count is the
/// number of games, its first single byte the size of the board and its
/// third the calculation depth.
pub open spec fn is_games_header(h: Header) -> bool {
    h.5 == 0 && h.8 == 0
}

/// Takes the first `n` bytes of `bytes`, with the rest, or fails where there
/// are fewer.
pub fn read(bytes: &[u8], n: usize) -> (r: Result<(&[u8], &[u8]), ReadError>)
    ensures
        r is Ok <==> n <= bytes@.len(),
        r matches Ok((head, tail)) ==> head@ == bytes@.take(n as int) && tail@ == bytes@.skip(
            n as int,
        ),
{
    match split(bytes, n) {
        Some(parts) => Ok(parts),
        None => Err(ReadError::InvalidFormat),
    }
}

pub(crate) fn get_u16(b: &[u8], at: usize) -> (r: u16)
    requires
        at + 2 <= b@.len(),
    ensures
        r == from_le16(b@.subrange(at as int, at + 2)),
{
    b[at] as u16 + (b[at + 1] as u16) * 256
}

pub(crate) fn get_u32(b: &[u8], at: usize) -> (r: u32)
    requires
        at + 4 <= b@.len(),
    ensures
        r == from_le32(b@.subrange(at as int, at + 4)),
{
    b[at] as u32 + (b[at + 1] as u32) * 256 + (b[at + 2] as u32) * 65536 + (b[at + 3] as u32)
        * 16777216
}

/// Reads the fields of the header at the start of `bytes`, which fails only
/// where `bytes` is shorter than a header.
pub fn read_header(bytes: &[u8]) -> (r: Result<Header, ReadError>)
    ensures
        r is Ok <==> bytes@.len() >= HEADER_SIZE,
        r matches Ok(h) ==> h == header_of(bytes@),
{
    let (b, _) = read(bytes, HEADER_SIZE)?;
    Ok((b[0], b[1], b[2], b[3], get_u32(b, 4), get_u16(b, 8), get_u16(b, 10), b[12], b[13], b[14]))
}

/// Writes a header with the given fields at the start of `buf`, which fails,
/// leaving `buf` as it was, only where `buf` is shorter than a header.
#[verifier::rlimit(20)]
pub fn write_header(
    buf: &mut [u8],
    created_centry: u8,
    created_year: u8,
    created_month: u8,
    created_day: u8,
    n1: u32,
    n2: u16,
    game_year: u16,
    p1: u8,
    p2: u8,
    p3: u8,
) -> (r: Result<(), WriteError>)
    ensures
        r is Ok <==> old(buf)@.len() >= HEADER_SIZE,
        r is Ok ==> final(buf)@ == header_bytes(
            (
                created_centry,
                created_year,
                created_month,
                created_day,
                n1,
                n2,
                game_year,
                p1,
                p2,
                p3,
            ),
        ) + old(buf)@.skip(16),
        r is Err ==> r == Err::<(), WriteError>(WriteError::InvalidLength) && final(buf)@ == old(
            buf,
        )@,
{
    if buf.len() < HEADER_SIZE {
        return Err(WriteError::InvalidLength);
    }
    buf[0] = created_centry;
    buf[1] = created_year;
    buf[2] = created_month;
    buf[3] = created_day;
    buf[4] = (n1 % 256) as u8;
    buf[5] = (n1 / 256 % 256) as u8;
    buf[6] = (n1 / 65536 % 256) as u8;
    buf[7] = (n1 / 16777216) as u8;
    buf[8] = (n2 % 256) as u8;
    buf[9] = (n2 / 256) as u8;
    buf[10] = (game_year % 256) as u8;
    buf[11] = (game_year / 256) as u8;
    buf[12] = p1;
    buf[13] = p2;
    buf[14] = p3;
    buf[15] = 0;
    assert(buf@ =~= header_bytes(
        (
            created_centry,
            created_year,
            created_month,
            created_day,
            n1,
            n2,
            game_year,
            p1,
            p2,
            p3,
        ),
    ) + old(buf)@.skip(16));
    Ok(())
}

/// Reads the header of a file of names: the date of creation and the number
/// of names. It fails where `bytes` is shorter than a header or a field that
/// such a header keeps at zero is not zero.
pub fn read_names_header(bytes: &[u8]) -> (r: Result<(u8, u8, u8, u8, u16), ReadError>)
    ensures
        r is Ok <==> bytes@.len() >= HEADER_SIZE && is_names_header(header_of(bytes@)),
        r matches Ok(v) ==> {
            let h = header_of(bytes@);
            v == (h.0, h.1, h.2, h.3, h.5)
        },
{
    let (
        created_centry,
        created_year,
        created_month,
        created_day,
        n1,
        number_of_names,
        game_year,
        p1,
        p2,
        _,
    ) = read_header(bytes)?;
    if n1 != 0 || game_year != 0 || p1 != 0 || p2 != 0 {
        return Err(ReadError::InvalidFormat);
    }
    Ok((created_centry, created_year, created_month, created_day, number_of_names))
}

/// Writes the header of a file of names at the start of `buf`; see
/// [`write_header`].
pub fn write_names_header(
    buf: &mut [u8],
    created_centry: u8,
    created_year: u8,
    created_month: u8,
    created_day: u8,
    number_of_names: u16,
) -> (r: Result<(), WriteError>)
    ensures
        r is Ok <==> old(buf)@.len() >= HEADER_SIZE,
        r is Ok ==> final(buf)@ == header_bytes(
            (created_centry, created_year, created_month, created_day, 0, number_of_names, 0, 0, 0, 0),
        ) + old(buf)@.skip(16),
        r is Err ==> r == Err::<(), WriteError>(WriteError::InvalidLength) && final(buf)@ == old(
            buf,
        )@,
{
    write_header(
        buf,
        created_centry,
        created_year,
        created_month,
        created_day,
        0,
        number_of_names,
        0,
        0,
        0,
        0,
    )
}

/// Reads the header of a file of games: the date of creation, the number of
/// games, the year of play, the size of the board and the calculation depth.
/// It fails where `bytes` is shorter than a header or a field that such a
/// header keeps at zero is not zero.
pub fn read_games_header(bytes: &[u8]) -> (r: Result<(u8, u8, u8, u8, u32, u16, u8, u8), ReadError>)
    ensures
        r is Ok <==> bytes@.len() >= HEADER_SIZE && is_games_header(header_of(bytes@)),
        r matches Ok(v) ==> {
            let h = header_of(bytes@);
            v == (h.0, h.1, h.2, h.3, h.4, h.6, h.7, h.9)
        },
{
    let (
        created_centry,
        created_year,
        created_month,
        created_day,
        number_of_games,
        n2,
        year,
        size_of_board,
        game_type,
        calculation_depth,
    ) = read_header(bytes)?;
    if n2 != 0 || game_type != 0 {
        return Err(ReadError::InvalidFormat);
    }
    Ok((
        created_centry,
        created_year,
        created_month,
        created_day,
        number_of_games,
        year,
        size_of_board,
        calculation_depth,
    ))
}

/// Writes the header of a file of games at the start of `buf`; see
/// [`write_header`].
pub fn write_games_header(
    buf: &mut [u8],
    created_centry: u8,
    created_year: u8,
    created_month: u8,
    created_day: u8,
    number_of_games: u32,
    year: u16,
    size_of_board: u8,
    calculation_depth: u8,
) -> (r: Result<(), WriteError>)
    ensures
        r is Ok <==> old(buf)@.len() >= HEADER_SIZE,
        r is Ok ==> final(buf)@ == header_bytes(
            (
                created_centry,
                created_year,
                created_month,
                created_day,
                number_of_games,
                0,
                year,
                size_of_board,
                0,
                calculation_depth,
            ),
        ) + old(buf)@.skip(16),
        r is Err ==> r == Err::<(), WriteError>(WriteError::InvalidLength) && final(buf)@ == old(
            buf,
        )@,
{
    write_header(
        buf,
        created_centry,
        created_year,
        created_month,
        created_day,
        number_of_games,
        0,
        year,
        size_of_board,
        0,
        calculation_depth,
    )
}

/// The fields of a header are read back from the bytes that store them.
pub proof fn lemma_header_round_trip(h: Header, rest: Seq<u8>)
    ensures
        (header_bytes(h) + rest).len() == 16 + rest.len(),
        header_of(header_bytes(h) + rest) == h,
        (header_bytes(h) + rest).skip(16) == rest,
{
    let b = header_bytes(h) + rest;
    assert(b.skip(16) =~= rest);
    let x = h.4;
    assert(x == (x % 256) + 256 * (x / 256 % 256) + 65536 * (x / 65536 % 256) + 16777216 * (x
        / 16777216)) by (nonlinear_arith);
    let y = h.5;
    assert(y == (y % 256) + 256 * (y / 256)) by (nonlinear_arith);
    let z = h.6;
    assert(z == (z % 256) + 256 * (z / 256)) by (nonlinear_arith);
}

} // verus!
