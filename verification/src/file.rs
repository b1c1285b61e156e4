//! The transform of one file: its blocks, the buffer that puts them back in
//! order, and the transform of a file that is held in memory.

use vstd::prelude::*;
use crate::file::assemble::{
    assemble, assembled, first_failure_from, lemma_first_failure_from, outcome_views,
    outputs_before_failure,
};
use crate::file::blocks::{
    blocks, chunks_of, lemma_block_sizes, lemma_blocks_concat, lemma_blocks_of_joined,
    lemma_joined_even,
};
use crate::file::chunk::{Chunk, ChunkView, datas, joined, views};
use crate::worker::rsa::holder::{RsaHolder, RsaKeyView};
use crate::worker::rsa::material::{
    PrivateKeyView, PublicKeyView, block_view, exponent_fits, significant_len,
};
use crate::worker::rsa::{DECRYPTION_MESSAGE_SIZE, ENCRYPTION_MESSAGE_SIZE};

pub mod assemble;
pub mod blocks;
pub mod chunk;
pub mod error_cell;
pub mod order;
pub mod parallel_file;
pub mod pending;
pub mod reads;
pub mod tmp;

verus! {

/// `outcomes` is what the key may return for the first blocks of `inputs`,
/// where it is applied to one block after the other until one fails.
pub open spec fn outcomes_fit(
    key: RsaKeyView,
    inputs: Seq<ChunkView>,
    outcomes: Seq<Result<Seq<u8>, ::rsa::errors::Error>>,
) -> bool {
    &&& outcomes.len() <= inputs.len()
    &&& forall|i: int|
        0 <= i < outcomes.len() ==> key.may_yield(inputs[i].data, #[trigger] outcomes[i])
    &&& forall|i: int| 0 <= i < outcomes.len() - 1 ==> (#[trigger] outcomes[i]) is Ok
    &&& outcomes.len() < inputs.len() ==> outcomes.len() > 0 && outcomes.last() is Err
}

/// `target` and `outcome` are what the transform of the blocks `inputs` may
/// leave of a target that held `held`, where success is answered with
/// `bytes`.
pub open spec fn transformed(
    key: RsaKeyView,
    inputs: Seq<ChunkView>,
    bytes: nat,
    held: Seq<u8>,
    target: Seq<u8>,
    outcome: Result<u64, ::rsa::errors::Error>,
) -> bool {
    exists|outcomes: Seq<Result<Seq<u8>, ::rsa::errors::Error>>|
        {
            &&& #[trigger] outcomes_fit(key, inputs, outcomes)
            &&& target == assembled(held, outcomes).0
            &&& match assembled(held, outcomes).1 {
                Ok(_) => outcome == Ok::<u64, ::rsa::errors::Error>(bytes as u64),
                Err(failure) => outcome == Err::<u64, ::rsa::errors::Error>(failure),
            }
        }
}

/// What decryption makes of each block of `inputs`.
pub open spec fn decrypted_blocks(key: PrivateKeyView, inputs: Seq<ChunkView>) -> Seq<
    Option<Seq<u8>>,
> {
    inputs.map_values(|block: ChunkView| key.decrypted(block.data))
}

/// The file that decryption makes of the blocks `inputs`: the messages of
/// the blocks, one after the other; nothing where a block is refused.
pub open spec fn decrypted_file(key: PrivateKeyView, inputs: Seq<ChunkView>) -> Option<Seq<u8>> {
    let messages = decrypted_blocks(key, inputs);
    if forall|i: int| 0 <= i < messages.len() ==> (#[trigger] messages[i]) is Some {
        Some(joined(messages.map_values(|message: Option<Seq<u8>>| message->Some_0)))
    } else {
        None
    }
}

/// The key encrypts every block of `inputs`.
pub open spec fn encrypts(key: PublicKeyView, inputs: Seq<ChunkView>) -> bool {
    forall|i: int| 0 <= i < inputs.len() ==> key.accepts((#[trigger] inputs[i]).data)
}

/// Transforms the blocks of a file: puts each through the key, in their
/// order, until one fails, and leaves the outputs in `target`, in the order
/// of the blocks.
///
/// Returns how many blocks there were. When a block fails, its failure is
/// returned and `target` is as it was: it never holds a part of the output.
/// Without blocks nothing can fail.
///
/// With a private key, the transform succeeds just where decryption accepts
/// every block, and the output is the messages of the blocks. With a public
/// key, it succeeds just where the key accepts every block, and the output of
/// each block has the size of the modulus.
pub fn transform_chunks(chunks: Vec<Chunk>, rsa: RsaHolder, target: &mut Vec<u8>) -> (outcome: Result<
    u64,
    ::rsa::errors::Error,
>)
    ensures
        transformed(
            rsa.key()@,
            views(chunks@),
            chunks@.len(),
            old(target)@,
            final(target)@,
            outcome,
        ),
        outcome is Err ==> final(target)@ == old(target)@,
        outcome matches Ok(count) ==> count == chunks@.len(),
        chunks@.len() == 0 ==> outcome is Ok,
        rsa.key()@ matches RsaKeyView::PrivateKey(key) ==> (match decrypted_file(
            key,
            views(chunks@),
        ) {
            Some(file) => outcome is Ok && final(target)@ == file,
            None => outcome is Err,
        }),
        rsa.key()@ matches RsaKeyView::PublicKey(key) ==> (outcome is Ok <==> encrypts(
            key,
            views(chunks@),
        )) && (outcome is Ok ==> final(target)@.len() == chunks@.len() * significant_len(key.n)),
{
    let ghost all = chunks@;
    let ghost inputs = views(all);
    let ghost key = rsa.key()@;
    let count = chunks.len() as u64;
    let mut outcomes: Vec<Result<Vec<u8>, ::rsa::errors::Error>> = Vec::new();
    for chunk in iter: chunks
        invariant
            iter.seq() == all,
            target@ == old(target)@,
            inputs == views(all),
            count == all.len(),
            all.len() == inputs.len(),
            forall|i: int| 0 <= i < all.len() ==> (#[trigger] all[i])@ == inputs[i],
            outcomes.len() == iter.index(),
            key == rsa.key()@,
            forall|i: int|
                0 <= i < outcomes.len() ==> (#[trigger] outcomes[i]) is Ok && key.may_yield(
                    inputs[i].data,
                    block_view(outcomes[i]),
                ),
    {
        let ghost k = outcomes.len() as int;
        assert(chunk@ == inputs[k]);
        let outcome = rsa.work(chunk.data);
        let failed = outcome.is_err();
        outcomes.push(outcome);
        if failed {
            let ghost views = outcome_views(outcomes@);
            proof {
                lemma_first_failure_from(views, 0);
                assert(views[k] is Err);
                assert forall|i: int| 0 <= i < views.len() implies key.may_yield(
                    inputs[i].data,
                    #[trigger] views[i],
                ) by {
                    assert(views[i] == block_view(outcomes[i]));
                }
                assert forall|i: int| 0 <= i < views.len() - 1 implies (#[trigger] views[i]) is Ok by {
                    assert(outcomes[i] is Ok);
                }
                assert(outcomes_fit(key, inputs, views));
                match key {
                    RsaKeyView::PrivateKey(private) => {
                        assert(decrypted_blocks(private, inputs)[k] is None);
                    },
                    RsaKeyView::PublicKey(public) => {
                        assert(!public.accepts(inputs[k].data));
                    },
                }
            }
            return match assemble(outcomes, target) {
                Ok(_) => Ok(count),
                Err(error) => Err(error),
            };
        }
    }
    let ghost views = outcome_views(outcomes@);
    proof {
        lemma_first_failure_from(views, 0);
        let at = first_failure_from(views, 0);
        if at < views.len() {
            assert(outcomes[at] is Ok);
        }
        assert forall|i: int| 0 <= i < views.len() implies key.may_yield(
            inputs[i].data,
            #[trigger] views[i],
        ) by {
            assert(views[i] == block_view(outcomes[i]));
        }
        assert forall|i: int| 0 <= i < views.len() - 1 implies (#[trigger] views[i]) is Ok by {
            assert(outcomes[i] is Ok);
        }
        assert(outcomes_fit(key, inputs, views));
        let outputs = outputs_before_failure(views);
        match key {
            RsaKeyView::PrivateKey(private) => {
                let messages = decrypted_blocks(private, inputs);
                assert forall|i: int| 0 <= i < messages.len() implies (#[trigger] messages[i])
                    == Some(outputs[i]) by {
                    assert(outcomes[i] is Ok);
                    assert(key.may_yield(inputs[i].data, views[i]));
                }
                assert(messages.map_values(|message: Option<Seq<u8>>| message->Some_0)
                    =~= outputs);
            },
            RsaKeyView::PublicKey(public) => {
                assert forall|i: int| 0 <= i < outputs.len() implies (#[trigger] outputs[i]).len()
                    == significant_len(public.n) by {
                    assert(outcomes[i] is Ok);
                    assert(key.may_yield(inputs[i].data, views[i]));
                }
                assert forall|i: int| 0 <= i < inputs.len() implies public.accepts(
                    (#[trigger] inputs[i]).data,
                ) by {
                    assert(outcomes[i] is Ok);
                    assert(key.may_yield(inputs[i].data, views[i]));
                }
                lemma_joined_even(outputs, significant_len(public.n));
            },
        }
    }
    match assemble(outcomes, target) {
        Ok(_) => Ok(count),
        Err(error) => Err(error),
    }
}

/// Transforms a file that is held in memory: cuts `source` into blocks of
/// `message_len` bytes, puts each through the key until one fails, and
/// leaves the outputs in `target`, in the order of the blocks.
///
/// Returns how many bytes were read. When a block fails, its failure is
/// returned and `target` is as it was: it never holds a part of the output.
/// A source without blocks cannot fail.
///
/// With a private key, the transform succeeds just where decryption accepts
/// every block, and the output is the messages of the blocks. With a public
/// key, it succeeds just where the key accepts every block, and the output of
/// each block has the size of the modulus.
pub fn file_transform(
    source: &[u8],
    rsa: RsaHolder,
    target: &mut Vec<u8>,
    message_len: usize,
) -> (outcome: Result<u64, ::rsa::errors::Error>)
    ensures
        transformed(
            rsa.key()@,
            blocks(source@, message_len as nat),
            source@.len(),
            old(target)@,
            final(target)@,
            outcome,
        ),
        outcome is Err ==> final(target)@ == old(target)@,
        outcome matches Ok(bytes) ==> bytes == source@.len(),
        blocks(source@, message_len as nat).len() == 0 ==> outcome is Ok,
        rsa.key()@ matches RsaKeyView::PrivateKey(key) ==> (match decrypted_file(
            key,
            blocks(source@, message_len as nat),
        ) {
            Some(file) => outcome is Ok && final(target)@ == file,
            None => outcome is Err,
        }),
        rsa.key()@ matches RsaKeyView::PublicKey(key) ==> (outcome is Ok <==> encrypts(
            key,
            blocks(source@, message_len as nat),
        )) && (outcome is Ok ==> final(target)@.len() == blocks(
            source@,
            message_len as nat,
        ).len() * significant_len(key.n)),
{
    let chunks = chunks_of(source, message_len);
    let ghost inputs = views(chunks@);
    let ghost held = target@;
    let worked = transform_chunks(chunks, rsa, target);
    proof {
        let outcomes = choose|outcomes: Seq<Result<Seq<u8>, ::rsa::errors::Error>>|
            {
                &&& #[trigger] outcomes_fit(rsa.key()@, inputs, outcomes)
                &&& target@ == assembled(held, outcomes).0
                &&& match assembled(held, outcomes).1 {
                    Ok(_) => worked == Ok::<u64, ::rsa::errors::Error>(inputs.len() as u64),
                    Err(failure) => worked == Err::<u64, ::rsa::errors::Error>(failure),
                }
            };
        assert(outcomes_fit(rsa.key()@, inputs, outcomes));
    }
    match worked {
        Ok(_) => Ok(source.len() as u64),
        Err(error) => Err(error),
    }
}

/// A public key of `KEY_BITS` bits, with an exponent that the RSA library
/// works with, encrypts every file.
pub proof fn lemma_every_file_is_encrypted(key: PublicKeyView, file: Seq<u8>)
    requires
        significant_len(key.n) == DECRYPTION_MESSAGE_SIZE,
        exponent_fits(key.e),
    ensures
        encrypts(key, blocks(file, ENCRYPTION_MESSAGE_SIZE as nat)),
{
    lemma_block_sizes(file, ENCRYPTION_MESSAGE_SIZE as nat);
}

/// Decrypting an encrypted file gives the file back, where the keys match.
///
/// `ciphertexts` are what a public key of `KEY_BITS` bits returned for the
/// blocks of `file`. That the keys match means that decryption under
/// `private` takes each of these ciphertexts back to its block. Then the
/// encrypted file is cut where the ciphertexts meet, and what decryption makes
/// of it is `file`.
pub proof fn lemma_decrypt_inverts_encrypt(
    public: PublicKeyView,
    private: PrivateKeyView,
    file: Seq<u8>,
    ciphertexts: Seq<Seq<u8>>,
)
    requires
        significant_len(public.n) == DECRYPTION_MESSAGE_SIZE,
        ciphertexts.len() == blocks(file, ENCRYPTION_MESSAGE_SIZE as nat).len(),
        forall|i: int|
            0 <= i < ciphertexts.len() ==> public.may_encrypt(
                blocks(file, ENCRYPTION_MESSAGE_SIZE as nat)[i].data,
                Ok(#[trigger] ciphertexts[i]),
            ),
        forall|i: int|
            0 <= i < ciphertexts.len() ==> private.decrypted(#[trigger] ciphertexts[i]) == Some(
                blocks(file, ENCRYPTION_MESSAGE_SIZE as nat)[i].data,
            ),
    ensures
        datas(blocks(joined(ciphertexts), DECRYPTION_MESSAGE_SIZE as nat)) == ciphertexts,
        decrypted_file(private, blocks(joined(ciphertexts), DECRYPTION_MESSAGE_SIZE as nat))
            == Some(file),
{
    let encrypted = blocks(joined(ciphertexts), DECRYPTION_MESSAGE_SIZE as nat);
    let plain = blocks(file, ENCRYPTION_MESSAGE_SIZE as nat);
    assert forall|i: int| 0 <= i < ciphertexts.len() implies (#[trigger] ciphertexts[i]).len()
        == DECRYPTION_MESSAGE_SIZE by {
        assert(public.may_encrypt(plain[i].data, Ok(ciphertexts[i])));
    }
    lemma_blocks_of_joined(ciphertexts, DECRYPTION_MESSAGE_SIZE as nat);
    lemma_blocks_concat(file, ENCRYPTION_MESSAGE_SIZE as nat);
    let messages = decrypted_blocks(private, encrypted);
    assert forall|i: int| 0 <= i < messages.len() implies (#[trigger] messages[i]) == Some(
        plain[i].data,
    ) by {
        assert(encrypted[i].data == datas(encrypted)[i]);
        assert(encrypted[i].data == ciphertexts[i]);
    }
    assert(messages.map_values(|message: Option<Seq<u8>>| message->Some_0) =~= datas(plain));
}

} // verus!
