//! Transforms that take a file block by block, and the loop that feeds them.

use vstd::prelude::*;
use crate::file::blocks::{blocks, chunks_of};
use crate::file::chunk::{datas, joined, lemma_joined_push};

verus! {

/// What `update` returned, as contracts see it.
pub open spec fn outcome_view<E>(outcome: Result<Vec<u8>, E>) -> Result<Seq<u8>, E> {
    match outcome {
        Ok(bytes) => Ok(bytes@),
        Err(error) => Err(error),
    }
}

/// An algorithm that encrypts or decrypts a file block by block. An
/// algorithm has one `Transformer` to encrypt and one to decrypt.
pub trait Transformer: Sized {
    type Error;

    /// Whether `update`, called with `bytes` on `self`, may return `outcome`
    /// and leave `after`. Each algorithm says this of itself.
    spec fn may_update(
        self,
        bytes: Seq<u8>,
        after: Self,
        outcome: Result<Seq<u8>, Self::Error>,
    ) -> bool;

    /// Called with one block of the source file after the other. Returns the
    /// bytes to write to the target file, or the failure.
    fn update(&mut self, bytes: Vec<u8>) -> (outcome: Result<Vec<u8>, Self::Error>)
        ensures
            (*old(self)).may_update(bytes@, *final(self), outcome_view(outcome)),
    ;
}

/// `start` took the first blocks of `inputs`, as many as there are `outputs`,
/// one after the other without a failure: it went through `states` and
/// returned `outputs`.
pub open spec fn runs<T: Transformer>(
    start: T,
    inputs: Seq<Seq<u8>>,
    states: Seq<T>,
    outputs: Seq<Seq<u8>>,
) -> bool {
    &&& outputs.len() <= inputs.len()
    &&& states.len() == outputs.len() + 1
    &&& states[0] == start
    &&& forall|i: int|
        0 <= i < outputs.len() ==> (#[trigger] states[i]).may_update(
            inputs[i],
            states[i + 1],
            Ok(outputs[i]),
        )
}

/// `update`, called with `bytes` on `state`, may fail with `error`.
pub open spec fn may_fail<T: Transformer>(state: T, bytes: Seq<u8>, error: T::Error) -> bool {
    exists|after: T| #[trigger] state.may_update(bytes, after, Err(error))
}

/// `target` and `outcome` are what `transform` leaves of `held` where
/// `start` is handed the blocks `inputs`: the outputs of the blocks follow
/// `held`; with `Ok` all blocks were taken, and the count is that of the
/// bytes that follow `held`; with `Err` the block after the last output
/// failed, and the failure is what the transformer returned for it.
pub open spec fn transform_ends<T: Transformer>(
    start: T,
    inputs: Seq<Seq<u8>>,
    held: Seq<u8>,
    target: Seq<u8>,
    outcome: Result<usize, T::Error>,
) -> bool {
    exists|states: Seq<T>, outputs: Seq<Seq<u8>>|
        {
            &&& #[trigger] runs(start, inputs, states, outputs)
            &&& target == held + joined(outputs)
            &&& match outcome {
                Ok(written) => outputs.len() == inputs.len() && written == joined(outputs).len(),
                Err(error) => outputs.len() < inputs.len() && may_fail(
                    states.last(),
                    inputs[outputs.len() as int],
                    error,
                ),
            }
        }
}

/// Cuts `source` into blocks of `message_len` bytes, hands them to
/// `transformer` in their order, and appends what it returns to `target`.
///
/// Returns how many bytes were appended. A failure of the transformer ends
/// the loop: `target` then holds the outputs of the blocks before it.
pub fn transform<T: Transformer>(
    source: &[u8],
    transformer: T,
    message_len: usize,
    target: &mut Vec<u8>,
) -> (outcome: Result<usize, T::Error>)
    ensures
        transform_ends(
            transformer,
            datas(blocks(source@, message_len as nat)),
            old(target)@,
            final(target)@,
            outcome,
        ),
{
    let chunks = chunks_of(source, message_len);
    let mut worker = transformer;
    let ghost inputs = datas(blocks(source@, message_len as nat));
    let ghost mut states: Seq<T> = seq![transformer];
    let ghost mut outputs: Seq<Seq<u8>> = Seq::empty();
    let ghost all = chunks@;
    let held = target.len();
    let mut written: usize = 0;
    assert(target@ =~= old(target)@ + joined(outputs));
    for chunk in iter: chunks
        invariant
            iter.seq() == all,
            inputs == datas(blocks(source@, message_len as nat)),
            all.len() == inputs.len(),
            forall|i: int| 0 <= i < all.len() ==> (#[trigger] all[i])@.data == inputs[i],
            outputs.len() == iter.index(),
            runs(transformer, inputs, states, outputs),
            states.last() == worker,
            target@ == old(target)@ + joined(outputs),
            written == joined(outputs).len(),
            held == old(target)@.len(),
    {
                let ghost k = outputs.len() as int;
        assert(chunk@.data == inputs[k]);
        match worker.update(chunk.data) {
            Ok(mut bytes) => {
                proof {
                    lemma_joined_push(outputs, bytes@);
                    let more = outputs.push(bytes@);
                    let later = states.push(worker);
                    assert forall|i: int| 0 <= i < more.len() implies (
                    #[trigger] later[i]).may_update(inputs[i], later[i + 1], Ok(more[i])) by {
                        if i < k {
                            assert(states[i].may_update(inputs[i], states[i + 1], Ok(outputs[i])));
                        }
                    }
                    outputs = more;
                    states = later;
                }
                if !bytes.is_empty() {
                    target.append(&mut bytes);
                    assert(target@ =~= old(target)@ + joined(outputs));
                    assert(target@.len() == old(target)@.len() + joined(outputs).len());
                    written = target.len() - held;
                } else {
                    assert(target@ =~= old(target)@ + joined(outputs));
                }
            },
            Err(error) => {
                assert(states.last().may_update(inputs[k], worker, Err(error)));
                assert(runs(transformer, inputs, states, outputs));
                assert(may_fail(states.last(), inputs[k], error));
                return Err(error);
            },
        }
    }
    assert(runs(transformer, inputs, states, outputs));
    Ok(written)
}

} // verus!
