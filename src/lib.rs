//! Typed leaf records of a copy-on-write B-tree filesystem, decoded from and
//! encoded to their exact on-disk bytes, and the classification of block
//! groups by their flag words.
pub mod bytes;
pub mod item;
pub mod leaf;
pub mod types;
