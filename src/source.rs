//! The names under which the files of the database are published.
use vstd::prelude::*;

verus! {

/// The name of the file of players.
pub const JOU_FILE_NAME: &'static str = "WTHOR.JOU";

/// The name of the file of tournaments.
pub const TRN_FILE_NAME: &'static str = "WTHOR.TRN";

/// The ASCII digits of `n` in base ten, without leading zeros.
pub open spec fn decimal(n: nat) -> Seq<u8>
    decreases n,
{
    if n < 10 {
        seq![(48 + n) as u8]
    } else {
        decimal(n / 10) + seq![(48 + n % 10) as u8]
    }
}

/// The name of the file of the games of `year`, in ASCII: `WTH_`, the year
/// in base ten, and `.wtb`, whose extension is in lower case.
pub open spec fn wtb_name(year: u16) -> Seq<u8> {
    seq![87u8, 84, 72, 95] + decimal(year as nat) + seq![46u8, 119, 116, 98]
}

fn push_decimal(out: &mut Vec<u8>, n: u16)
    ensures
        final(out)@ == old(out)@ + decimal(n as nat),
    decreases n,
{
    if n >= 10 {
        push_decimal(out, n / 10);
    }
    out.push(48 + (n % 10) as u8);
    assert(final(out)@ =~= old(out)@ + decimal(n as nat));
}

/// The name of the file of the games of `year`, in ASCII.
pub fn wtb_file_name(year: u16) -> (r: Vec<u8>)
    ensures
        r@ == wtb_name(year),
{
    let mut out: Vec<u8> = Vec::new();
    out.push(87); // 'W'
    out.push(84); // 'T'
    out.push(72); // 'H'
    out.push(95); // '_'
    push_decimal(&mut out, year);
    out.push(46); // '.'
    out.push(119); // 'w'
    out.push(116); // 't'
    out.push(98); // 'b'
    assert(out@ =~= wtb_name(year));
    out
}

} // verus!
