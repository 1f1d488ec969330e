//! Minimum and maximum of a sequence in a single pass.
//!
//! `extrema_of` searches anything that can be traversed once; the `Extrema`
//! trait offers the same search as a method on vectors and slices, by value
//! or through a borrow:
//!
//! ```text
//! vec![0, 1, 2, 3].extrema()        == Some((0, 3))
//! (&vec![0, 1, 2, 3]).extrema()     == Some((&0, &3))
//! extrema_of(set.iter())            == Some((&least, &greatest))
//! ```
//!
//! A sequence of fewer than two elements has no extrema.

pub mod bounds;
pub mod collections;
pub mod laws;
pub mod order;
pub mod scan;

pub use collections::Extrema;
pub use scan::extrema_of;
