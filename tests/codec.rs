use heapless::Vec as HeaplessVec;
use wthor::games::{read_games, write_games};
use wthor::records::{read_names, write_names};
use wthor::slice::{as_chunks, split, split_mut};
use wthor::{
    read, read_games_header, read_header, read_names_header, write_games_header, write_header,
    write_names_header, GameInfo, GameRecord, ReadError, WriteError,
};

#[test]
fn header_fields_are_little_endian() {
    let bytes = [1, 2, 3, 4, 0x78, 0x56, 0x34, 0x12, 0xCD, 0xAB, 0x34, 0x12, 7, 8, 9, 10, 99];
    assert_eq!(
        read_header(&bytes),
        Ok((1, 2, 3, 4, 0x12345678, 0xABCD, 0x1234, 7, 8, 9))
    );
    assert_eq!(read_header(&bytes[..15]), Err(ReadError::InvalidFormat));
}

#[test]
fn header_is_written_with_zero_padding() {
    let mut buf = [0xEE; 18];
    write_header(&mut buf, 1, 2, 3, 4, 0x12345678, 0xABCD, 0x1234, 7, 8, 9).unwrap();
    assert_eq!(
        buf,
        [1, 2, 3, 4, 0x78, 0x56, 0x34, 0x12, 0xCD, 0xAB, 0x34, 0x12, 7, 8, 9, 0, 0xEE, 0xEE]
    );
    let mut short = [0xEE; 15];
    assert_eq!(
        write_header(&mut short, 1, 2, 3, 4, 5, 6, 7, 8, 9, 10),
        Err(WriteError::InvalidLength)
    );
    assert_eq!(short, [0xEE; 15]);
}

#[test]
fn kind_headers() {
    let mut buf = [0xEE; 16];
    write_names_header(&mut buf, 20, 5, 6, 21, 300).unwrap();
    assert_eq!(buf, [20, 5, 6, 21, 0, 0, 0, 0, 0x2C, 0x01, 0, 0, 0, 0, 0, 0]);
    assert_eq!(read_names_header(&buf), Ok((20, 5, 6, 21, 300)));
    assert_eq!(read_games_header(&buf), Err(ReadError::InvalidFormat));
    write_games_header(&mut buf, 20, 5, 6, 21, 70000, 1977, 8, 22).unwrap();
    assert_eq!(buf, [20, 5, 6, 21, 0x70, 0x11, 0x01, 0, 0, 0, 0xB9, 0x07, 8, 0, 22, 0]);
    assert_eq!(read_games_header(&buf), Ok((20, 5, 6, 21, 70000, 1977, 8, 22)));
    assert_eq!(read_names_header(&buf), Err(ReadError::InvalidFormat));
}

#[test]
fn read_takes_a_prefix() {
    let bytes = [1, 2, 3];
    let (head, tail) = read(&bytes, 2).unwrap();
    assert_eq!(head, &[1, 2]);
    assert_eq!(tail, &[3]);
    assert_eq!(read(&bytes, 4), Err(ReadError::InvalidFormat));
}

#[test]
fn slicing() {
    let bytes = [1u8, 2, 3, 4, 5, 6];
    assert_eq!(split(&bytes, 6), Some((&bytes[..], &bytes[6..])));
    assert_eq!(split(&bytes, 7), None);
    let chunks = as_chunks(&bytes, 2, 3).unwrap();
    assert_eq!(chunks, vec![&[1u8, 2][..], &[3, 4][..], &[5, 6][..]]);
    assert_eq!(as_chunks(&bytes, 4, 1), None);
    assert_eq!(as_chunks(&bytes, 5, 1), None);
    assert_eq!(as_chunks(&bytes, 0, 3), None);
    assert_eq!(as_chunks(&bytes[..0], 0, 3).unwrap().len(), 3);
    assert_eq!(as_chunks(&bytes, usize::MAX, 2), None);
}

#[test]
fn names_count_mismatch() {
    let names: Vec<HeaplessVec<u8, 19>> = vec![HeaplessVec::from_slice(b"AB").unwrap()];
    let mut buf = vec![0; 36];
    assert_eq!(write_names(&mut buf, &names, 2), Err(WriteError::TooManyElements));
    assert_eq!(write_names(&mut buf, &names, 0), Err(WriteError::TooManyElements));
    assert_eq!(buf, vec![0; 36]);
    let mut wrong = vec![0; 37];
    assert_eq!(write_names(&mut wrong, &names, 1), Err(WriteError::InvalidLength));
    write_names(&mut buf, &names, 1).unwrap();
    assert_eq!(&buf[16..20], &[b'A', b'B', 0x30, 0]);
    let back: Vec<HeaplessVec<u8, 19>> = read_names(&buf[16..], 1).unwrap();
    assert_eq!(back[0].as_slice(), b"AB");
    assert_eq!(read_names::<HeaplessVec<u8, 19>>(&buf[16..], 2), Err(ReadError::InvalidFormat));
}

#[test]
fn games_count_mismatch() {
    let games: Vec<GameInfo> = vec![GameRecord {
        tournament: 1,
        black_player: 2,
        white_player: 3,
        score: 4,
        theoretical_score: 5,
        moves: HeaplessVec::from_slice(&[56, 0, 77]).unwrap(),
    }];
    let mut buf = vec![0xAB; 16 + 68];
    assert_eq!(write_games(&mut buf, &games, 2), Err(WriteError::TooManyElements));
    write_games(&mut buf, &games, 1).unwrap();
    assert_eq!(&buf[0..16], &[0xAB; 16]);
    assert_eq!(&buf[16..27], &[1, 0, 2, 0, 3, 0, 4, 5, 56, 0, 77]);
    let back: Vec<GameInfo> = read_games(&buf[16..], 1).unwrap();
    assert_eq!(back[0].moves.as_slice(), &[56]);
    assert_eq!(read_games::<HeaplessVec<u8, 60>>(&buf[16..], 2).err(), Some(ReadError::InvalidFormat));
}

#[test]
fn mutable_split() {
    let mut bytes = [1u8, 2, 3, 4];
    {
        let (head, tail) = split_mut(&mut bytes, 1).unwrap();
        assert_eq!(head, &[1]);
        assert_eq!(tail, &[2, 3, 4]);
        head[0] = 9;
        tail[2] = 8;
    }
    assert_eq!(bytes, [9, 2, 3, 8]);
    assert!(split_mut(&mut bytes, 5).is_none());
    assert_eq!(bytes, [9, 2, 3, 8]);
}

#[test]
fn published_file_names() {
    assert_eq!(wthor::JOU_FILE_NAME, "WTHOR.JOU");
    assert_eq!(wthor::TRN_FILE_NAME, "WTHOR.TRN");
    assert_eq!(wthor::wtb_file_name(1977), b"WTH_1977.wtb".to_vec());
    assert_eq!(wthor::wtb_file_name(2023), b"WTH_2023.wtb".to_vec());
    assert_eq!(wthor::wtb_file_name(0), b"WTH_0.wtb".to_vec());
    assert_eq!(wthor::wtb_file_name(65535), b"WTH_65535.wtb".to_vec());
}
