use vstd::prelude::*;
use crate::transformer::Transformer;
use crate::worker::rsa::holder::{RsaHolder, RsaKey};

verus! {

/// RSA-OAEP as a `Transformer`: encrypts with a public key, decrypts with a
/// private key, block by block.
pub struct RsaTransformer {
    key: RsaKey,
}

impl RsaTransformer {
    /// The key of this transformer.
    pub closed spec fn key(&self) -> RsaKey {
        self.key
    }

    /// A transformer that applies `key`.
    pub fn new(key: RsaKey) -> (transformer: Self)
        ensures
            transformer.key() == key,
    {
        Self { key }
    }
}

impl Transformer for RsaTransformer {
    type Error = ::rsa::errors::Error;

    open spec fn may_update(
        self,
        bytes: Seq<u8>,
        after: Self,
        outcome: Result<Seq<u8>, ::rsa::errors::Error>,
    ) -> bool {
        after == self && self.key()@.may_yield(bytes, outcome)
    }

    /// Puts one block through the key. The transformer does not change.
    fn update(&mut self, bytes: Vec<u8>) -> (outcome: Result<Vec<u8>, ::rsa::errors::Error>) {
        RsaHolder::new(&self.key).work(bytes)
    }
}

} // verus!
