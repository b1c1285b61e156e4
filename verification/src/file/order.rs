//! Why the output of a file is in the order of its blocks, whatever the order
//! in which the workers finish.

use vstd::prelude::*;
use crate::file::chunk::{ChunkView, concat};
use crate::file::pending::{
    PendingView, distinct_numbers, drain, lemma_position, position,
};

verus! {

/// The buffer after the blocks of `arrivals` have come in, one by one, and
/// all that was written meanwhile.
pub open spec fn deliver_all(start: PendingView, arrivals: Seq<ChunkView>) -> (
    PendingView,
    Seq<ChunkView>,
)
    decreases arrivals.len(),
{
    if arrivals.len() == 0 {
        (start, Seq::empty())
    } else {
        let (before, written) = deliver_all(start, arrivals.drop_last());
        let (after, more) = before.deliver(arrivals.last());
        (after, written + more)
    }
}

/// The blocks of `blocks` are numbered 0, 1, 2, ... as they stand.
pub open spec fn numbered(blocks: Seq<ChunkView>) -> bool {
    forall|i: int| 0 <= i < blocks.len() ==> (#[trigger] blocks[i]).id == i
}

/// What `drain` takes is numbered from `next` on without a gap; what it
/// leaves has no number among those, nor the one after; nothing is lost and
/// nothing made up.
pub proof fn lemma_drain(chunks: Seq<ChunkView>, next: nat)
    requires
        distinct_numbers(chunks),
    ensures
        ({
            let (rest, taken) = drain(chunks, next);
            &&& rest.next == next + taken.len()
            &&& rest.chunks.len() + taken.len() == chunks.len()
            &&& distinct_numbers(rest.chunks)
            &&& forall|i: int|
                0 <= i < taken.len() ==> (#[trigger] taken[i]).id == next + i && chunks.contains(
                    taken[i],
                )
            &&& forall|i: int|
                0 <= i < rest.chunks.len() ==> chunks.contains(#[trigger] rest.chunks[i]) && !(next
                    <= rest.chunks[i].id <= rest.next)
            &&& forall|i: int|
                0 <= i < chunks.len() ==> rest.chunks.contains(#[trigger] chunks[i]) || next
                    <= chunks[i].id < rest.next
        }),
    decreases chunks.len(),
{
    lemma_position(chunks, next);
    match position(chunks, next) {
        Some(at) => {
            let removed = chunks.remove(at);
            assert forall|k: int| 0 <= k < removed.len() implies #[trigger] removed[k] == chunks[if k
                < at {
                k
            } else {
                k + 1
            }] by {}
            assert(distinct_numbers(removed)) by {
                assert forall|i: int, j: int| 0 <= i < j < removed.len() implies (
                #[trigger] removed[i]).id != (#[trigger] removed[j]).id by {
                    let a = if i < at { i } else { i + 1 };
                    let b = if j < at { j } else { j + 1 };
                    assert(chunks[a].id != chunks[b].id);
                }
            }
            lemma_drain(removed, next + 1);
            let (rest, tail) = drain(removed, next + 1);
            let taken = seq![chunks[at]] + tail;
            assert(drain(chunks, next) == (rest, taken));
            assert forall|i: int| 0 <= i < taken.len() implies (#[trigger] taken[i]).id == next + i
                && chunks.contains(taken[i]) by {
                if i == 0 {
                    assert(taken[0] == chunks[at]);
                } else {
                    assert(taken[i] == tail[i - 1]);
                    assert(removed.contains(tail[i - 1]));
                    let k = choose|k: int| 0 <= k < removed.len() && removed[k] == tail[i - 1];
                    assert(chunks[if k < at { k } else { k + 1 }] == taken[i]);
                }
            }
            assert forall|i: int| 0 <= i < rest.chunks.len() implies chunks.contains(
                #[trigger] rest.chunks[i],
            ) && !(next <= rest.chunks[i].id <= rest.next) by {
                assert(removed.contains(rest.chunks[i]));
                let k = choose|k: int| 0 <= k < removed.len() && removed[k] == rest.chunks[i];
                let a = if k < at { k } else { k + 1 };
                assert(chunks[a] == rest.chunks[i]);
                if a < at {
                    assert(chunks[a].id != chunks[at].id);
                } else {
                    assert(chunks[at].id != chunks[a].id);
                }
            }
            assert forall|i: int| 0 <= i < chunks.len() implies rest.chunks.contains(
                #[trigger] chunks[i],
            ) || next <= chunks[i].id < rest.next by {
                if i != at {
                    let k = if i < at { i } else { i - 1 };
                    assert(removed[k] == chunks[i]);
                }
            }
        },
        None => {
            let (rest, taken) = drain(chunks, next);
            assert forall|i: int| 0 <= i < rest.chunks.len() implies chunks.contains(
                #[trigger] rest.chunks[i],
            ) && !(next <= rest.chunks[i].id <= rest.next) by {
                assert(chunks[i] == rest.chunks[i]);
            }
        },
    }
}

/// A block that is not yet in the buffer and not yet written keeps the
/// buffer in order: what is written on its arrival continues the numbers
/// written so far, and comes from the block and those that waited.
pub proof fn lemma_deliver(buffer: PendingView, chunk: ChunkView)
    requires
        buffer.inv(),
        chunk.id >= buffer.next,
        !buffer.holds(chunk.id),
    ensures
        ({
            let (after, written) = buffer.deliver(chunk);
            &&& after.inv()
            &&& after.next == buffer.next + written.len()
            &&& after.chunks.len() + written.len() == buffer.chunks.len() + 1
            &&& forall|i: int|
                0 <= i < written.len() ==> (#[trigger] written[i]).id == buffer.next + i && (
                written[i] == chunk || buffer.chunks.contains(written[i]))
            &&& forall|i: int|
                0 <= i < after.chunks.len() ==> (#[trigger] after.chunks[i]) == chunk
                    || buffer.chunks.contains(after.chunks[i])
            &&& forall|i: int|
                0 <= i < buffer.chunks.len() ==> after.chunks.contains(#[trigger] buffer.chunks[i])
                    || buffer.chunks[i].id < after.next
            &&& after.chunks.contains(chunk) || chunk.id < after.next
        }),
{
    let (after, written) = buffer.deliver(chunk);
    if chunk.id == buffer.next {
        lemma_drain(buffer.chunks, buffer.next + 1);
        let (rest, taken) = drain(buffer.chunks, buffer.next + 1);
        assert(written == seq![chunk] + taken);
        assert forall|i: int| 0 <= i < written.len() implies (#[trigger] written[i]).id
            == buffer.next + i && (written[i] == chunk || buffer.chunks.contains(written[i])) by {
            if i > 0 {
                assert(written[i] == taken[i - 1]);
            }
        }
        assert forall|i: int| 0 <= i < after.chunks.len() implies (#[trigger] after.chunks[i]).id
            > after.next by {
            assert(buffer.chunks.contains(rest.chunks[i]));
            let k = choose|k: int| 0 <= k < buffer.chunks.len() && buffer.chunks[k] == rest.chunks[i];
            assert(buffer.chunks[k].id > buffer.next);
        }
    } else {
        assert(after.chunks == buffer.chunks.push(chunk));
        assert(after.chunks[buffer.chunks.len() as int] == chunk);
        assert forall|i: int, j: int| 0 <= i < j < after.chunks.len() implies (
        #[trigger] after.chunks[i]).id != (#[trigger] after.chunks[j]).id by {
            if j == buffer.chunks.len() {
                assert(buffer.chunks[i].id != chunk.id);
            } else {
                assert(buffer.chunks[i].id != buffer.chunks[j].id);
            }
        }
        assert forall|i: int| 0 <= i < buffer.chunks.len() implies after.chunks.contains(
            #[trigger] buffer.chunks[i],
        ) || buffer.chunks[i].id < after.next by {
            assert(after.chunks[i] == buffer.chunks[i]);
        }
        assert forall|i: int| 0 <= i < after.chunks.len() implies (#[trigger] after.chunks[i])
            == chunk || buffer.chunks.contains(after.chunks[i]) by {
            if i < buffer.chunks.len() {
                assert(buffer.chunks[i] == after.chunks[i]);
            }
        }
    }
}

/// `arrivals` holds the blocks of `blocks`, each as often as `blocks` does,
/// in any order.
pub open spec fn same_blocks(arrivals: Seq<ChunkView>, blocks: Seq<ChunkView>) -> bool {
    arrivals.to_multiset() == blocks.to_multiset()
}

/// What `same_blocks` means for numbered blocks, place by place.
proof fn lemma_same_blocks(arrivals: Seq<ChunkView>, blocks: Seq<ChunkView>)
    requires
        numbered(blocks),
        same_blocks(arrivals, blocks),
    ensures
        arrivals.len() == blocks.len(),
        forall|j: int|
            0 <= j < arrivals.len() ==> (#[trigger] arrivals[j]).id < blocks.len() && arrivals[j]
                == blocks[arrivals[j].id as int],
        forall|i: int| 0 <= i < blocks.len() ==> arrivals.contains(#[trigger] blocks[i]),
        distinct_numbers(arrivals),
{
    broadcast use vstd::seq_lib::group_to_multiset_ensures;

    assert(arrivals.len() == blocks.len()) by {
        assert(arrivals.len() == arrivals.to_multiset().len());
        assert(blocks.len() == blocks.to_multiset().len());
    }
    assert forall|j: int| 0 <= j < arrivals.len() implies (#[trigger] arrivals[j]).id
        < blocks.len() && arrivals[j] == blocks[arrivals[j].id as int] by {
        assert(arrivals.contains(arrivals[j]));
        assert(blocks.to_multiset().count(arrivals[j]) > 0);
        assert(blocks.contains(arrivals[j]));
        let i = choose|i: int| 0 <= i < blocks.len() && blocks[i] == arrivals[j];
        assert(blocks[i].id == i);
    }
    assert forall|i: int| 0 <= i < blocks.len() implies arrivals.contains(#[trigger] blocks[i]) by {
        assert(blocks.contains(blocks[i]));
        assert(arrivals.to_multiset().count(blocks[i]) > 0);
    }
    assert(blocks.no_duplicates()) by {
        assert forall|i: int, j: int| 0 <= i < blocks.len() && 0 <= j < blocks.len() && i
            != j implies blocks[i] != blocks[j] by {
            assert(blocks[i].id == i && blocks[j].id == j);
        }
    }
    blocks.lemma_multiset_has_no_duplicates();
    arrivals.lemma_multiset_has_no_duplicates_conv();
    assert forall|i: int, j: int| 0 <= i < j < arrivals.len() implies (#[trigger] arrivals[i]).id
        != (#[trigger] arrivals[j]).id by {
        assert(arrivals[i] != arrivals[j]);
        assert(arrivals[i] == blocks[arrivals[i].id as int]);
        assert(arrivals[j] == blocks[arrivals[j].id as int]);
    }
}

/// A block numbered `id` is among the first `k` of `arrivals`.
spec fn arrived(arrivals: Seq<ChunkView>, k: int, id: int) -> bool {
    exists|j: int| 0 <= j < k && (#[trigger] arrivals[j]).id == id
}

/// What holds of the buffer and of what was written once the first `k`
/// blocks of `arrivals` have come in.
spec fn in_order_so_far(
    blocks: Seq<ChunkView>,
    arrivals: Seq<ChunkView>,
    k: int,
    buffer: PendingView,
    written: Seq<ChunkView>,
) -> bool {
    &&& buffer.inv()
    &&& written.len() == buffer.next
    &&& buffer.next <= blocks.len()
    &&& forall|i: int| 0 <= i < written.len() ==> #[trigger] written[i] == blocks[i]
    &&& buffer.chunks.len() + buffer.next == k
    &&& forall|i: int|
        0 <= i < buffer.chunks.len() ==> exists|j: int|
            0 <= j < k && #[trigger] arrivals[j] == #[trigger] buffer.chunks[i]
    &&& forall|j: int|
        0 <= j < k ==> (#[trigger] arrivals[j]).id < buffer.next || buffer.chunks.contains(
            arrivals[j],
        )
    &&& forall|i: int| 0 <= i < buffer.next ==> #[trigger] arrived(arrivals, k, i)
}

proof fn lemma_in_order_so_far(blocks: Seq<ChunkView>, arrivals: Seq<ChunkView>, k: int)
    requires
        numbered(blocks),
        same_blocks(arrivals, blocks),
        0 <= k <= arrivals.len(),
    ensures
        ({
            let (buffer, written) = deliver_all(PendingView::empty(), arrivals.take(k));
            in_order_so_far(blocks, arrivals, k, buffer, written)
        }),
    decreases k,
{
    lemma_same_blocks(arrivals, blocks);
    if k == 0 {
        assert(arrivals.take(0).len() == 0);
    } else {
        lemma_in_order_so_far(blocks, arrivals, k - 1);
        let chunk = arrivals[k - 1];
        assert(arrivals.take(k).drop_last() =~= arrivals.take(k - 1));
        assert(arrivals.take(k).last() == chunk);
        let (before, written) = deliver_all(PendingView::empty(), arrivals.take(k - 1));
        let (after, more) = before.deliver(chunk);
        assert(deliver_all(PendingView::empty(), arrivals.take(k)) == (after, written + more));
        // the block has not come in before
        assert(chunk.id >= before.next) by {
            if chunk.id < before.next {
                assert(arrived(arrivals, k - 1, chunk.id as int));
                let j = choose|j: int| 0 <= j < k - 1 && (#[trigger] arrivals[j]).id == chunk.id;
                assert(arrivals[j].id != arrivals[k - 1].id);
            }
        }
        assert(!before.holds(chunk.id)) by {
            if before.holds(chunk.id) {
                let i = choose|i: int|
                    0 <= i < before.chunks.len() && (#[trigger] before.chunks[i]).id == chunk.id;
                let j = choose|j: int|
                    0 <= j < k - 1 && #[trigger] arrivals[j] == #[trigger] before.chunks[i];
                assert(arrivals[j].id != arrivals[k - 1].id);
            }
        }
        lemma_deliver(before, chunk);
        let all = written + more;
        // each block written now came in, so it is the block of its number
        assert forall|i: int| 0 <= i < more.len() implies exists|j: int|
            0 <= j < k && #[trigger] arrivals[j] == #[trigger] more[i] by {
            if more[i] == chunk {
                assert(arrivals[k - 1] == more[i]);
            } else {
                assert(before.chunks.contains(more[i]));
                let p = choose|p: int| 0 <= p < before.chunks.len() && before.chunks[p] == more[i];
                let j = choose|j: int|
                    0 <= j < k - 1 && #[trigger] arrivals[j] == #[trigger] before.chunks[p];
                assert(arrivals[j] == more[i]);
            }
        }
        assert forall|i: int| 0 <= i < all.len() implies #[trigger] all[i] == blocks[i] && i
            < blocks.len() by {
            if i >= written.len() {
                let m = i - written.len();
                assert(all[i] == more[m]);
                let j = choose|j: int| 0 <= j < k && #[trigger] arrivals[j] == #[trigger] more[m];
                assert(arrivals[j].id == i);
            } else {
                assert(all[i] == written[i]);
            }
        }
        assert(after.next <= blocks.len()) by {
            if more.len() > 0 {
                assert(all[all.len() - 1] == blocks[all.len() - 1]);
            }
        }
        assert forall|i: int| 0 <= i < after.chunks.len() implies exists|j: int|
            0 <= j < k && #[trigger] arrivals[j] == #[trigger] after.chunks[i] by {
            if after.chunks[i] == chunk {
                assert(arrivals[k - 1] == after.chunks[i]);
            } else {
                assert(before.chunks.contains(after.chunks[i]));
                let p = choose|p: int|
                    0 <= p < before.chunks.len() && before.chunks[p] == after.chunks[i];
                let j = choose|j: int|
                    0 <= j < k - 1 && #[trigger] arrivals[j] == #[trigger] before.chunks[p];
                assert(arrivals[j] == after.chunks[i]);
            }
        }
        assert forall|j: int| 0 <= j < k implies (#[trigger] arrivals[j]).id < after.next
            || after.chunks.contains(arrivals[j]) by {
            if j < k - 1 {
                if arrivals[j].id >= before.next {
                    assert(before.chunks.contains(arrivals[j]));
                    let p = choose|p: int|
                        0 <= p < before.chunks.len() && before.chunks[p] == arrivals[j];
                    assert(after.chunks.contains(before.chunks[p]) || before.chunks[p].id
                        < after.next);
                }
            }
        }
        assert forall|i: int| 0 <= i < after.next implies #[trigger] arrived(arrivals, k, i) by {
            if i < before.next {
                assert(arrived(arrivals, k - 1, i));
                let j = choose|j: int| 0 <= j < k - 1 && (#[trigger] arrivals[j]).id == i;
                assert(arrivals[j].id == i);
            } else {
                let m = i - before.next;
                let j = choose|j: int| 0 <= j < k && #[trigger] arrivals[j] == #[trigger] more[m];
                assert(arrivals[j].id == i);
            }
        }
    }
}

/// Whatever the order in which the blocks of a file come out of the workers,
/// each of them once, what the buffer hands to the writer is the blocks in the
/// order of their numbers; and when the last has come, none waits.
pub proof fn lemma_written_in_order(blocks: Seq<ChunkView>, arrivals: Seq<ChunkView>)
    requires
        numbered(blocks),
        same_blocks(arrivals, blocks),
    ensures
        deliver_all(PendingView::empty(), arrivals) == (
            PendingView { chunks: Seq::empty(), next: blocks.len() },
            blocks,
        ),
        concat(deliver_all(PendingView::empty(), arrivals).1) == concat(blocks),
{
    lemma_same_blocks(arrivals, blocks);
    let n = arrivals.len() as int;
    lemma_in_order_so_far(blocks, arrivals, n);
    assert(arrivals.take(n) =~= arrivals);
    let (buffer, written) = deliver_all(PendingView::empty(), arrivals);
    if buffer.next < blocks.len() {
        let due = blocks[buffer.next as int];
        assert(arrivals.contains(due));
        let j = choose|j: int| 0 <= j < arrivals.len() && arrivals[j] == due;
        assert(arrivals[j].id < buffer.next || buffer.chunks.contains(arrivals[j]));
        let p = choose|p: int| 0 <= p < buffer.chunks.len() && buffer.chunks[p] == due;
        assert(buffer.chunks[p].id > buffer.next);
    }
    assert(buffer.chunks =~= Seq::<ChunkView>::empty());
    assert(written =~= blocks);
}

} // verus!
