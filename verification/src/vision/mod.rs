//! The camera link: the text protocol that carries the target's pixel
//! position, and the smoothed position that the controller reads.

pub mod filter;
pub mod parse;
