//! A fixed-size container of per-grid-point matrices over a radial grid.
//!
//! For each radial grid point the container holds either a dense
//! `ns1 x ns2` matrix (`Storage::Full`) or the triangular half of a
//! symmetric `n x n` matrix (`Storage::Packed`), all in one contiguous,
//! zero-initialised buffer addressed by flat offsets.

pub mod array;
pub mod layout;

pub use array::{ArrayError, RadialArray};
pub use layout::Storage;
