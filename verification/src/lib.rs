//! A canonical hex dump renderer.
//!
//! Byte streams are rendered as fixed-width lines: an 8-digit hexadecimal
//! offset, sixteen bytes as two-digit lowercase hex pairs in two groups of
//! eight, and a printable-ASCII rendition of the same bytes. Runs of rows
//! identical to their predecessor can be collapsed ("squeezed") into a single
//! marker line.

pub mod ascii;
pub mod cli;
pub mod driver;
pub mod encode;
pub mod row;
pub mod squeeze;
