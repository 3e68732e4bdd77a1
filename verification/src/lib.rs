//! Verified cores of a small collection of text utilities.
//!
//! Each tool has a module of its own that holds its settings and what it
//! computes, from plain values to plain values; reading inputs and writing
//! outputs is left to the caller.
//!
//! * [`tail`] resolves an offset against the size of a resource and takes
//!   the trailing window out of it; [`head`] takes the leading one.
//! * [`cut`] selects bytes, characters or delimited fields by position.
//! * [`uniq`] collapses runs of equal lines; [`comm`] merges two sorted
//!   inputs into three columns; [`cat`] numbers lines.
//! * [`grep`] selects lines by pattern; [`find`] selects directory entries
//!   by kind and name.
//!
//! [`lines`], [`text`] and [`pattern`] hold what the tools share.

pub mod cat;
pub mod comm;
pub mod cut;
pub mod find;
pub mod grep;
pub mod head;
pub mod lines;
pub mod pattern;
pub mod tail;
pub mod text;
pub mod uniq;
