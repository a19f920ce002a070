//! Bounding-box annotations in the YOLO text format.
//!
//! The library owns everything about the annotation files that is not
//! arithmetic on pixel coordinates: where the annotation file of an image
//! lives, how annotation lines are laid out and joined into a file, how a file
//! is split back into lines and fields and when a line is malformed, and how
//! the outcome of one export or of a batch of exports is reported.
//!
//! Numbers cross the library's boundary as text: a field of an annotation line
//! is the decimal rendering of a number, and the library decides whether a
//! field read from a file is a well-formed number without ever computing its
//! value.
//!
//! The module `roundtrip` proves that reading undoes writing: the content laid
//! out for an export reads back as the fields that went into it.

pub mod text;
pub mod path;
pub mod line;
pub mod export;
pub mod batch;
pub mod import;
pub mod roundtrip;
