//! RSA-OAEP on single blocks, with the sizes that a 4096-bit key gives.

use vstd::prelude::*;

pub mod handler;
pub mod holder;
pub mod keys;
pub mod material;
pub mod transformer;

verus! {

/// The size of the keys that this library makes, in bits.
pub const KEY_BITS: usize = 4096;

/// How many bytes of a file go into one block when it is encrypted.
pub const ENCRYPTION_MESSAGE_SIZE: usize = 256;

/// How many bytes of a file go into one block when it is decrypted: the size
/// of one ciphertext under a key of `KEY_BITS` bits.
pub const DECRYPTION_MESSAGE_SIZE: usize = 512;

/// By how many bytes a ciphertext is longer than its message, at the least:
/// two SHA-256 digests and two bytes.
pub const OAEP_OVERHEAD: usize = 66;

} // verus!
