//! Reading and writing the files of the WTHOR database of Othello games.
//!
//! Every file is a 16-byte header ([`header`]) followed by fixed-width
//! records: names closed by a sentinel byte ([`records`]) or games
//! ([`games`]). The four kinds of files ([`file`]) read a complete buffer
//! and write into a buffer of exactly their size. [`laws`] states what holds
//! of them together, such as that a file written is read back unchanged.
mod bounded;
mod error;
pub mod file;
pub mod games;
pub mod header;
pub mod laws;
pub mod records;
pub mod slice;
pub mod source;

pub use crate::bounded::BoundedBytes;
pub use crate::error::{ReadError, WriteError};
pub use crate::file::{Jou, Trn, Wtb, Wtb10};
pub use crate::games::{GameInfo, GameInfo10, GameRecord};
pub use crate::header::{
    read, read_games_header, read_header, read_names_header, write_games_header, write_header,
    write_names_header,
};
pub use crate::source::{wtb_file_name, JOU_FILE_NAME, TRN_FILE_NAME};
