use vstd::prelude::*;
use crate::worker::rsa::material::{
    PrivateKey, PrivateKeyView, PublicKey, PublicKeyView, block_view, significant_len,
};
use crate::worker::rsa::{DECRYPTION_MESSAGE_SIZE, ENCRYPTION_MESSAGE_SIZE, OAEP_OVERHEAD};

verus! {

/// What a key does to a file.
#[derive(Clone, Copy, Debug, PartialEq, Eq, Structural)]
pub enum Direction {
    Encrypt,
    Decrypt,
}

/// The key of a job: a public key to encrypt, or a private key to decrypt.
pub enum RsaKey {
    PublicKey(PublicKey),
    PrivateKey(PrivateKey),
}

/// The key of a job as contracts see it.
pub enum RsaKeyView {
    PublicKey(PublicKeyView),
    PrivateKey(PrivateKeyView),
}

impl View for RsaKey {
    type V = RsaKeyView;

    open spec fn view(&self) -> RsaKeyView {
        match self {
            RsaKey::PublicKey(key) => RsaKeyView::PublicKey(key@),
            RsaKey::PrivateKey(key) => RsaKeyView::PrivateKey(key@),
        }
    }
}

impl RsaKeyView {
    /// What a key of this kind does.
    pub open spec fn direction(self) -> Direction {
        match self {
            RsaKeyView::PublicKey(_) => Direction::Encrypt,
            RsaKeyView::PrivateKey(_) => Direction::Decrypt,
        }
    }

    /// Whether the key, applied to the block `input`, may return `outcome`.
    ///
    /// A private key returns what decryption makes of the block, and fails
    /// just where decryption refuses it; a block that it accepts has the size
    /// of the modulus, and its message is shorter by `OAEP_OVERHEAD` bytes or
    /// more. A public key may fail; what it returns is a ciphertext of the
    /// size of its modulus, longer than the block by as much.
    pub open spec fn may_yield(
        self,
        input: Seq<u8>,
        outcome: Result<Seq<u8>, ::rsa::errors::Error>,
    ) -> bool {
        match self {
            RsaKeyView::PublicKey(key) => key.may_encrypt(input, outcome),
            RsaKeyView::PrivateKey(key) => match key.decrypted(input) {
                Some(message) => {
                    &&& outcome == Ok::<Seq<u8>, ::rsa::errors::Error>(message)
                    &&& input.len() == significant_len(key.n)
                    &&& message.len() + OAEP_OVERHEAD <= input.len()
                },
                None => outcome is Err,
            },
        }
    }
}

impl RsaKey {
    /// A public key encrypts, a private key decrypts.
    pub fn direction(&self) -> (direction: Direction)
        ensures
            direction == self@.direction(),
    {
        match self {
            RsaKey::PublicKey(_) => Direction::Encrypt,
            RsaKey::PrivateKey(_) => Direction::Decrypt,
        }
    }

    /// How many bytes of the file go into one block under this key: 256 to
    /// encrypt, 512 to decrypt.
    pub fn message_len(&self) -> (len: usize)
        ensures
            len == message_size(self@.direction()),
    {
        match self {
            RsaKey::PublicKey(_) => ENCRYPTION_MESSAGE_SIZE,
            RsaKey::PrivateKey(_) => DECRYPTION_MESSAGE_SIZE,
        }
    }
}

/// The block size of each direction.
pub open spec fn message_size(direction: Direction) -> usize {
    match direction {
        Direction::Encrypt => ENCRYPTION_MESSAGE_SIZE,
        Direction::Decrypt => DECRYPTION_MESSAGE_SIZE,
    }
}

/// Applies a key to single blocks.
pub struct RsaHolder<'a> {
    key: &'a RsaKey,
}

impl<'a> RsaHolder<'a> {
    /// The key that is applied.
    pub closed spec fn key(&self) -> &'a RsaKey {
        self.key
    }

    /// A holder that applies `key`.
    pub fn new(key: &'a RsaKey) -> (holder: Self)
        ensures
            holder.key() == key,
    {
        Self { key }
    }
}

impl RsaHolder<'_> {
    /// Encrypts one block with a public key, or decrypts one with a private
    /// key.
    pub fn work(&self, bytes: Vec<u8>) -> (outcome: Result<Vec<u8>, ::rsa::errors::Error>)
        ensures
            self.key()@.may_yield(bytes@, block_view(outcome)),
    {
        match self.key {
            RsaKey::PublicKey(key) => key.encrypt(bytes.as_slice()),
            RsaKey::PrivateKey(key) => key.decrypt(bytes.as_slice()),
        }
    }
}

} // verus!
