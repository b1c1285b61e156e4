use vstd::prelude::*;
use crate::file::chunk::{joined, lemma_joined_push};

verus! {

/// What the primitive returned for one block, as contracts see it.
pub open spec fn outcome_views<E>(outcomes: Seq<Result<Vec<u8>, E>>) -> Seq<Result<Seq<u8>, E>> {
    outcomes.map_values(
        |outcome: Result<Vec<u8>, E>|
            match outcome {
                Ok(bytes) => Ok(bytes@),
                Err(error) => Err(error),
            },
    )
}

/// The place of the first failure among `outcomes`, counted from `from`; the
/// length of `outcomes` where none failed.
pub open spec fn first_failure_from<E>(outcomes: Seq<Result<Seq<u8>, E>>, from: int) -> int
    decreases outcomes.len() - from,
{
    if from < 0 || from >= outcomes.len() {
        outcomes.len() as int
    } else if outcomes[from] is Err {
        from
    } else {
        first_failure_from(outcomes, from + 1)
    }
}

/// The outputs of the blocks before the first failure.
pub open spec fn outputs_before_failure<E>(outcomes: Seq<Result<Seq<u8>, E>>) -> Seq<Seq<u8>> {
    Seq::new(first_failure_from(outcomes, 0) as nat, |i: int| outcomes[i]->Ok_0)
}

/// What becomes of a target that held `held`, where the blocks of the source
/// came out as `outcomes`: with a failure among them the target stays as it
/// was and the first failure is the answer; without one the target holds the
/// outputs, in the order of the blocks.
pub open spec fn assembled<E>(held: Seq<u8>, outcomes: Seq<Result<Seq<u8>, E>>) -> (
    Seq<u8>,
    Result<(), E>,
) {
    let at = first_failure_from(outcomes, 0);
    if 0 <= at < outcomes.len() {
        (held, Err(outcomes[at]->Err_0))
    } else {
        (joined(outputs_before_failure(outcomes)), Ok(()))
    }
}

/// `first_failure_from` gives the first failure at or after `from`.
pub proof fn lemma_first_failure_from<E>(outcomes: Seq<Result<Seq<u8>, E>>, from: int)
    requires
        0 <= from <= outcomes.len(),
    ensures
        from <= first_failure_from(outcomes, from) <= outcomes.len(),
        first_failure_from(outcomes, from) < outcomes.len() ==> outcomes[first_failure_from(
            outcomes,
            from,
        )] is Err,
        forall|i: int|
            from <= i < first_failure_from(outcomes, from) ==> (#[trigger] outcomes[i]) is Ok,
    decreases outcomes.len() - from,
{
    if from < outcomes.len() && !(outcomes[from] is Err) {
        lemma_first_failure_from(outcomes, from + 1);
    }
}

/// Puts the outputs of the blocks of a file into `target`, all or none.
///
/// `outcomes` is what the primitive returned for the blocks, in their order.
/// Where a block failed, the first failure is returned and `target` is as it
/// was. Else `target` holds the outputs, one after the other, in place of
/// what it held.
pub fn assemble<E>(outcomes: Vec<Result<Vec<u8>, E>>, target: &mut Vec<u8>) -> (end: Result<(), E>)
    ensures
        final(target)@ == assembled(old(target)@, outcome_views(outcomes@)).0,
        match assembled(old(target)@, outcome_views(outcomes@)).1 {
            Ok(_) => end is Ok,
            Err(failure) => end == Err::<(), E>(failure),
        },
{
    let ghost views = outcome_views(outcomes@);
    let ghost all = outcomes@;
    let ghost mut outputs: Seq<Seq<u8>> = Seq::empty();
    let mut written: Vec<u8> = Vec::new();
    for outcome in iter: outcomes
        invariant
            iter.seq() == all,
            views == outcome_views(all),
            outputs.len() == iter.index(),
            joined(outputs) == written@,
            first_failure_from(views, 0) == first_failure_from(views, iter.index() as int),
            forall|i: int| 0 <= i < outputs.len() ==> #[trigger] views[i] == Ok::<Seq<u8>, E>(
                outputs[i],
            ),
    {
        let ghost k = outputs.len() as int;
        match outcome {
            Ok(mut bytes) => {
                proof {
                    lemma_joined_push(outputs, bytes@);
                    outputs = outputs.push(bytes@);
                }
                written.append(&mut bytes);
            },
            Err(error) => {
                return Err(error);
            },
        }
    }
    proof {
        assert(outputs =~= outputs_before_failure(views));
    }
    *target = written;
    Ok(())
}

} // verus!
