//! Encrypts and decrypts files block by block with RSA-OAEP.
//!
//! A file is cut into numbered blocks, each block goes through the block
//! primitive on its own, and the results are put back in the order of their
//! numbers. The library holds the rules of that pipeline; reading, writing and
//! threads are the caller's part.

pub mod args;
pub mod file;
pub mod path;
pub mod stats;
pub mod text;
pub mod transformer;
pub mod worker;
pub mod xor;
