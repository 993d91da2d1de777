//! Cut a run of trailing bytes of one value off the end of a file.
//!
//! The library computes, by reading the file backwards one block at a time,
//! where its real content ends, and decides how the file's length changes.
//! Opening, reading and truncating the file is left to the caller.
pub mod boundary;
pub mod hex;
pub mod report;
pub mod scanner;
pub mod truncation;
