//! A toy cipher for trying the pipeline: every byte xor one seed byte.

use vstd::prelude::*;
use vstd::string::StringExecFns;
use crate::file::blocks::{blocks, lemma_blocks_concat};
use crate::file::chunk::{datas, joined, lemma_joined_push};
use crate::text::{decimal, to_decimal};
use crate::transformer::{Transformer, may_fail, runs, transform_ends};

verus! {

/// Xors every byte of a file with one byte.
pub struct XorCipher {
    seed: u8,
}

/// Why a `XorCipher` could not be made.
#[derive(Debug)]
pub enum XorError {
    /// The seed has this many bytes, not one.
    InvalidSeedLength(usize),
}

/// `bytes`, each xor `seed`.
pub open spec fn xor_bytes(bytes: Seq<u8>, seed: u8) -> Seq<u8> {
    bytes.map_values(|b: u8| b ^ seed)
}

impl XorError {
    /// The text of the error.
    pub open spec fn spec_message(self) -> Seq<char> {
        match self {
            XorError::InvalidSeedLength(len) => "invalid seed length "@ + decimal(len as nat)
                + ", must be 1"@,
        }
    }

    /// The error in words.
    pub fn message(&self) -> (text: String)
        ensures
            text@ == self.spec_message(),
    {
        match self {
            XorError::InvalidSeedLength(len) => {
                let mut text = "invalid seed length ".to_owned();
                let digits = to_decimal(*len as u64);
                text.append(digits.as_str());
                text.append(", must be 1");
                text
            },
        }
    }
}

impl XorCipher {
    /// The byte that this cipher xors with.
    pub closed spec fn seed(&self) -> u8 {
        self.seed
    }

    /// A cipher with the one byte of `bytes` as its seed. A seed of any other
    /// length is refused.
    pub fn new(bytes: Vec<u8>) -> (cipher: Result<Self, XorError>)
        ensures
            match cipher {
                Ok(cipher) => bytes@.len() == 1 && cipher.seed() == bytes@[0],
                Err(error) => bytes@.len() != 1 && error == XorError::InvalidSeedLength(
                    bytes@.len() as usize,
                ),
            },
    {
        if bytes.len() != 1 {
            Err(XorError::InvalidSeedLength(bytes.len()))
        } else {
            Ok(Self { seed: bytes[0] })
        }
    }

    /// Ends the transform. Nothing is left to write.
    pub fn finish(self) -> (rest: Result<Vec<u8>, XorError>)
        ensures
            rest matches Ok(bytes) && bytes@.len() == 0,
    {
        Ok(Vec::new())
    }
}

impl Transformer for XorCipher {
    type Error = XorError;

    open spec fn may_update(
        self,
        bytes: Seq<u8>,
        after: Self,
        outcome: Result<Seq<u8>, XorError>,
    ) -> bool {
        after == self && outcome == Ok::<Seq<u8>, XorError>(xor_bytes(bytes, self.seed()))
    }

    /// Xors each byte of the block with the seed. Never fails.
    fn update(&mut self, bytes: Vec<u8>) -> (outcome: Result<Vec<u8>, XorError>) {
        let mut bytes = bytes;
        let ghost given = bytes@;
        let mut i: usize = 0;
        while i < bytes.len()
            invariant
                i <= bytes.len(),
                bytes.len() == given.len(),
                *self == *old(self),
                forall|j: int| 0 <= j < i ==> bytes[j] == given[j] ^ self.seed(),
                forall|j: int| i <= j < bytes.len() ==> bytes[j] == given[j],
            decreases bytes.len() - i,
        {
            let b = bytes[i] ^ self.seed;
            bytes.set(i, b);
            i += 1;
        }
        assert(bytes@ =~= xor_bytes(given, self.seed()));
        Ok(bytes)
    }
}

/// To xor twice with one seed changes nothing.
pub proof fn lemma_xor_twice(bytes: Seq<u8>, seed: u8)
    ensures
        xor_bytes(xor_bytes(bytes, seed), seed) == bytes,
{
    assert forall|i: int| 0 <= i < bytes.len() implies xor_bytes(xor_bytes(bytes, seed), seed)[i]
        == bytes[i] by {
        let b = bytes[i];
        assert((b ^ seed) ^ seed == b) by (bit_vector);
    }
    assert(xor_bytes(xor_bytes(bytes, seed), seed) =~= bytes);
}

/// What a `XorCipher` returns for the blocks of a file, one after the other,
/// is the file xor the seed, however the file was cut.
pub proof fn lemma_xor_runs(
    cipher: XorCipher,
    inputs: Seq<Seq<u8>>,
    states: Seq<XorCipher>,
    outputs: Seq<Seq<u8>>,
)
    requires
        runs(cipher, inputs, states, outputs),
    ensures
        states.last() == cipher,
        joined(outputs) == xor_bytes(joined(inputs.take(outputs.len() as int)), cipher.seed()),
    decreases outputs.len(),
{
    let n = outputs.len() as int;
    if n == 0 {
        assert(inputs.take(0) =~= Seq::<Seq<u8>>::empty());
        assert(joined(outputs) =~= xor_bytes(Seq::<u8>::empty(), cipher.seed()));
    } else {
        let front = outputs.drop_last();
        let early = states.drop_last();
        assert forall|i: int| 0 <= i < front.len() implies (#[trigger] early[i]).may_update(
            inputs[i],
            early[i + 1],
            Ok(front[i]),
        ) by {
            assert(states[i].may_update(inputs[i], states[i + 1], Ok(outputs[i])));
        }
        lemma_xor_runs(cipher, inputs, early, front);
        assert(states[n - 1].may_update(inputs[n - 1], states[n], Ok(outputs[n - 1])));
        assert(inputs.take(n) =~= inputs.take(n - 1).push(inputs[n - 1]));
        lemma_joined_push(inputs.take(n - 1), inputs[n - 1]);
        assert(joined(outputs) =~= xor_bytes(joined(inputs.take(n)), cipher.seed()));
    }
}

/// `transform` with a `XorCipher` always succeeds, and appends the source
/// xor the seed, whatever the size of the blocks.
pub proof fn lemma_xor_transform(
    cipher: XorCipher,
    source: Seq<u8>,
    message_len: nat,
    held: Seq<u8>,
    target: Seq<u8>,
    outcome: Result<usize, XorError>,
)
    requires
        message_len > 0,
        transform_ends(cipher, datas(blocks(source, message_len)), held, target, outcome),
    ensures
        outcome == Ok::<usize, XorError>(source.len() as usize),
        target == held + xor_bytes(source, cipher.seed()),
{
    let inputs = datas(blocks(source, message_len));
    let (states, outputs) = choose|states: Seq<XorCipher>, outputs: Seq<Seq<u8>>|
        {
            &&& #[trigger] runs(cipher, inputs, states, outputs)
            &&& target == held + joined(outputs)
            &&& match outcome {
                Ok(written) => outputs.len() == inputs.len() && written == joined(outputs).len(),
                Err(error) => outputs.len() < inputs.len() && may_fail(
                    states.last(),
                    inputs[outputs.len() as int],
                    error,
                ),
            }
        };
    lemma_xor_runs(cipher, inputs, states, outputs);
    lemma_blocks_concat(source, message_len);
    match outcome {
        Ok(_) => {
            assert(inputs.take(inputs.len() as int) =~= inputs);
        },
        Err(_) => {},
    }
}

} // verus!
