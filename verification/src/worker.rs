//! What works on the blocks of a file.

pub mod rsa;
