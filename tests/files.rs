use heapless::Vec as HeaplessVec;
use wthor::{
    GameInfo, GameInfo10, GameRecord, Jou, ReadError, Trn, WriteError, Wtb, Wtb10,
};

fn name19(s: &[u8]) -> HeaplessVec<u8, 19> {
    HeaplessVec::from_slice(s).unwrap()
}

fn name25(s: &[u8]) -> HeaplessVec<u8, 25> {
    HeaplessVec::from_slice(s).unwrap()
}

fn game(tournament: u16, black: u16, white: u16, moves: &[u8]) -> GameInfo {
    GameRecord {
        tournament,
        black_player: black,
        white_player: white,
        score: 40,
        theoretical_score: 36,
        moves: HeaplessVec::from_slice(moves).unwrap(),
    }
}

fn game10(moves: &[u8]) -> GameInfo10 {
    GameRecord {
        tournament: 513,
        black_player: 2,
        white_player: 65535,
        score: 60,
        theoretical_score: 50,
        moves: HeaplessVec::from_slice(moves).unwrap(),
    }
}

fn alice_bob_bytes() -> Vec<u8> {
    let mut bytes = vec![0x14, 0x05, 0x06, 0x15, 0, 0, 0, 0, 2, 0, 0, 0, 0, 0, 0, 0];
    bytes.extend_from_slice(b"ALICE");
    bytes.push(0x30);
    bytes.extend_from_slice(&[0; 14]);
    bytes.extend_from_slice(b"BOB");
    bytes.push(0x30);
    bytes.extend_from_slice(&[0; 16]);
    bytes
}

fn sample_wtb() -> Wtb {
    Wtb {
        created_centry: 20,
        created_year: 23,
        created_month: 12,
        created_day: 31,
        year: 2023,
        calculation_depth: 22,
        games: vec![game(1, 2, 3, &[56, 66, 65]), game(300, 1000, 70, &[])],
    }
}

#[test]
fn players_file_decodes_and_reencodes() {
    let bytes = alice_bob_bytes();
    assert_eq!(bytes.len(), 56);
    let jou = Jou::read(&bytes).unwrap();
    assert_eq!(jou.created_centry, 0x14);
    assert_eq!(jou.created_year, 0x05);
    assert_eq!(jou.created_month, 0x06);
    assert_eq!(jou.created_day, 0x15);
    assert_eq!(jou.players.len(), 2);
    assert_eq!(jou.players[0].as_slice(), b"ALICE");
    assert_eq!(jou.players[1].as_slice(), b"BOB");
    assert_eq!(jou.size(), 56);
    let mut out = vec![0xAA; jou.size()];
    jou.write(&mut out).unwrap();
    assert_eq!(out, bytes);
}

#[test]
fn legacy_board_size_is_accepted_like_eight() {
    let wtb = sample_wtb();
    let mut bytes = vec![0; wtb.size()];
    wtb.write(&mut bytes).unwrap();
    assert_eq!(bytes[12], 8);
    let mut legacy = bytes.clone();
    legacy[12] = 0;
    let a = Wtb::read(&bytes).unwrap();
    let b = Wtb::read(&legacy).unwrap();
    assert_eq!(a.year, b.year);
    assert_eq!(a.calculation_depth, b.calculation_depth);
    assert_eq!(a.games.len(), b.games.len());
    for (x, y) in a.games.iter().zip(b.games.iter()) {
        assert_eq!(x.tournament, y.tournament);
        assert_eq!(x.moves.as_slice(), y.moves.as_slice());
    }
    let mut other = bytes.clone();
    other[12] = 10;
    assert_eq!(Wtb::read(&other).unwrap_err(), ReadError::InvalidFormat);
}

#[test]
fn wtb_round_trip() {
    let wtb = sample_wtb();
    assert_eq!(wtb.size(), 16 + 2 * 68);
    let mut bytes = vec![0xFF; wtb.size()];
    wtb.write(&mut bytes).unwrap();
    assert_eq!(&bytes[0..16], &[20, 23, 12, 31, 2, 0, 0, 0, 0, 0, 0xE7, 0x07, 8, 0, 22, 0]);
    assert_eq!(&bytes[16..24], &[1, 0, 2, 0, 3, 0, 40, 36]);
    assert_eq!(&bytes[24..28], &[56, 66, 65, 0]);
    assert!(bytes[27..84].iter().all(|b| *b == 0));
    assert_eq!(&bytes[84..90], &[0x2C, 0x01, 0xE8, 0x03, 70, 0]);
    let back = Wtb::read(&bytes).unwrap();
    assert_eq!(back.created_centry, 20);
    assert_eq!(back.created_year, 23);
    assert_eq!(back.created_month, 12);
    assert_eq!(back.created_day, 31);
    assert_eq!(back.year, 2023);
    assert_eq!(back.calculation_depth, 22);
    assert_eq!(back.games.len(), 2);
    assert_eq!(back.games[0].tournament, 1);
    assert_eq!(back.games[0].black_player, 2);
    assert_eq!(back.games[0].white_player, 3);
    assert_eq!(back.games[0].score, 40);
    assert_eq!(back.games[0].theoretical_score, 36);
    assert_eq!(back.games[0].moves.as_slice(), &[56, 66, 65]);
    assert_eq!(back.games[1].tournament, 300);
    assert_eq!(back.games[1].black_player, 1000);
    assert!(back.games[1].moves.is_empty());
}

#[test]
fn wtb10_round_trip() {
    let moves: Vec<u8> = (1..=96).collect();
    let wtb = Wtb10 {
        created_centry: 19,
        created_year: 99,
        created_month: 1,
        created_day: 2,
        year: 1999,
        calculation_depth: 0,
        games: vec![game10(&moves), game10(&[45, 54])],
    };
    assert_eq!(wtb.size(), 16 + 2 * 104);
    let mut bytes = vec![0; wtb.size()];
    wtb.write(&mut bytes).unwrap();
    assert_eq!(bytes[12], 10);
    let back = Wtb10::read(&bytes).unwrap();
    assert_eq!(back.year, 1999);
    assert_eq!(back.games.len(), 2);
    assert_eq!(back.games[0].moves.as_slice(), moves.as_slice());
    assert_eq!(back.games[0].tournament, 513);
    assert_eq!(back.games[0].white_player, 65535);
    assert_eq!(back.games[1].moves.as_slice(), &[45, 54]);
    let mut eight = bytes.clone();
    eight[12] = 8;
    assert_eq!(Wtb10::read(&eight).unwrap_err(), ReadError::InvalidFormat);
    let mut zero = bytes.clone();
    zero[12] = 0;
    assert_eq!(Wtb10::read(&zero).unwrap_err(), ReadError::InvalidFormat);
}

#[test]
fn trn_round_trip_at_capacity() {
    let long = [b'Z'; 25];
    let trn = Trn {
        created_centry: 20,
        created_year: 1,
        created_month: 2,
        created_day: 3,
        tournaments: vec![name25(&long), name25(b""), name25(b"Paris Open")],
    };
    assert_eq!(trn.size(), 16 + 3 * 26);
    let mut bytes = vec![0; trn.size()];
    trn.write(&mut bytes).unwrap();
    assert_eq!(bytes[16 + 25], 0x30);
    assert_eq!(bytes[16 + 26], 0x30);
    let back = Trn::read(&bytes).unwrap();
    assert_eq!(back.tournaments.len(), 3);
    assert_eq!(back.tournaments[0].as_slice(), &long);
    assert!(back.tournaments[1].is_empty());
    assert_eq!(back.tournaments[2].as_slice(), b"Paris Open");
}

#[test]
fn jou_name_at_capacity_round_trips() {
    let long = [b'A'; 19];
    let jou = Jou {
        created_centry: 20,
        created_year: 24,
        created_month: 5,
        created_day: 6,
        players: vec![name19(&long)],
    };
    let mut bytes = vec![0; jou.size()];
    jou.write(&mut bytes).unwrap();
    assert_eq!(bytes.len(), 36);
    assert_eq!(bytes[35], 0x30);
    let back = Jou::read(&bytes).unwrap();
    assert_eq!(back.players[0].as_slice(), &long);
}

#[test]
fn slot_without_sentinel_fails() {
    let mut bytes = alice_bob_bytes();
    for b in bytes[36..56].iter_mut() {
        *b = b'X';
    }
    assert_eq!(Jou::read(&bytes).unwrap_err(), ReadError::InvalidFormat);
}

#[test]
fn bytes_after_sentinel_are_ignored() {
    let mut bytes = alice_bob_bytes();
    bytes[16 + 10] = b'Q';
    let jou = Jou::read(&bytes).unwrap();
    assert_eq!(jou.players[0].as_slice(), b"ALICE");
}

#[test]
fn write_into_wrong_length_fails() {
    let jou = Jou::read(&alice_bob_bytes()).unwrap();
    let mut longer = vec![7; jou.size() + 1];
    assert_eq!(jou.write(&mut longer), Err(WriteError::InvalidLength));
    assert!(longer.iter().all(|b| *b == 7));
    let mut shorter = vec![7; jou.size() - 1];
    assert_eq!(jou.write(&mut shorter), Err(WriteError::InvalidLength));
    assert!(shorter.iter().all(|b| *b == 7));
    let wtb = sample_wtb();
    let mut longer = vec![0; wtb.size() + 1];
    assert_eq!(wtb.write(&mut longer), Err(WriteError::InvalidLength));
    let mut shorter = vec![0; wtb.size() - 1];
    assert_eq!(wtb.write(&mut shorter), Err(WriteError::InvalidLength));
    let mut empty: Vec<u8> = Vec::new();
    assert_eq!(wtb.write(&mut empty), Err(WriteError::InvalidLength));
}

#[test]
fn reserved_name_header_bytes_are_rejected() {
    let bytes = alice_bob_bytes();
    for p in [4, 5, 6, 7, 10, 11, 12, 13] {
        let mut bad = bytes.clone();
        bad[p] = 1;
        assert_eq!(Jou::read(&bad).unwrap_err(), ReadError::InvalidFormat, "byte {}", p);
    }
    let mut ignored = bytes.clone();
    ignored[14] = 9;
    ignored[15] = 9;
    assert!(Jou::read(&ignored).is_ok());
}

#[test]
fn reserved_game_header_bytes_are_rejected() {
    let wtb = sample_wtb();
    let mut bytes = vec![0; wtb.size()];
    wtb.write(&mut bytes).unwrap();
    for p in [8, 9, 13] {
        let mut bad = bytes.clone();
        bad[p] = 0x80;
        assert_eq!(Wtb::read(&bad).unwrap_err(), ReadError::InvalidFormat, "byte {}", p);
    }
    let mut padding = bytes.clone();
    padding[15] = 3;
    assert!(Wtb::read(&padding).is_ok());
}

#[test]
fn records_that_misfit_are_rejected() {
    let bytes = alice_bob_bytes();
    assert_eq!(Jou::read(&bytes[..55]).unwrap_err(), ReadError::InvalidFormat);
    let mut longer = bytes.clone();
    longer.push(0);
    assert_eq!(Jou::read(&longer).unwrap_err(), ReadError::InvalidFormat);
    assert_eq!(Jou::read(&bytes[..15]).unwrap_err(), ReadError::InvalidFormat);
    assert_eq!(Trn::read(&bytes).unwrap_err(), ReadError::InvalidFormat);
    let wtb = sample_wtb();
    let mut games = vec![0; wtb.size()];
    wtb.write(&mut games).unwrap();
    assert_eq!(Wtb::read(&games[..games.len() - 1]).unwrap_err(), ReadError::InvalidFormat);
}

#[test]
fn empty_files() {
    let jou = Jou {
        created_centry: 0,
        created_year: 0,
        created_month: 0,
        created_day: 0,
        players: Vec::new(),
    };
    assert_eq!(jou.size(), 16);
    let mut bytes = vec![5; 16];
    jou.write(&mut bytes).unwrap();
    assert_eq!(bytes, vec![0; 16]);
    assert!(Jou::read(&bytes).unwrap().players.is_empty());
    let wtb = Wtb10 {
        created_centry: 0,
        created_year: 0,
        created_month: 0,
        created_day: 0,
        year: 0,
        calculation_depth: 0,
        games: Vec::new(),
    };
    let mut bytes = vec![0; wtb.size()];
    wtb.write(&mut bytes).unwrap();
    assert!(Wtb10::read(&bytes).unwrap().games.is_empty());
}

#[test]
fn error_messages() {
    assert_eq!(ReadError::InvalidFormat.message(), "the input is invalid");
    assert_eq!(WriteError::TooManyElements.message(), "the elements is too many");
    assert!(!WriteError::InvalidLength.message().is_empty());
}
