//! What holds of the library as a whole, proved from the contracts of its
//! parts.
//!
//! * [`round_trip::law_round_trip`]: a document of comments, key values
//!   and empty lines is read from its text as it was.
//! * [`idempotence::law_idempotence`]: what was read from a text, written
//!   and read again, is what was read.
//! * [`lexing::law_scan_text`]: the texts of the tokens of a line, joined,
//!   are the line and a line feed.

pub mod arrays;
pub mod clean;
pub mod idempotence;
pub mod lexing;
pub mod lines;
pub mod printable;
pub mod round_trip;
pub mod scalars;
pub mod sound;
pub mod stream;
pub mod tables;
