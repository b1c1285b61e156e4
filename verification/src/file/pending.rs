use vstd::prelude::*;
use crate::file::chunk::{Chunk, ChunkView, views};
use crate::file::order::lemma_deliver;

verus! {

/// The blocks that arrived before their turn, and the number of the block
/// that is written next.
pub struct InnerPendingChunks {
    chunks: Vec<Chunk>,
    next: u64,
}

/// The reorder buffer of one file.
pub struct PendingChunks {
    pub inner: InnerPendingChunks,
}

/// The buffer as contracts see it: the waiting blocks in the order in which
/// they arrived, and the number that is due.
pub struct PendingView {
    pub chunks: Seq<ChunkView>,
    pub next: nat,
}

/// The first place at or after `from` where `chunks` holds a block numbered
/// `id`; the length of `chunks` where there is none.
pub open spec fn position_from(chunks: Seq<ChunkView>, id: nat, from: int) -> int
    decreases chunks.len() - from,
{
    if from < 0 || from >= chunks.len() {
        chunks.len() as int
    } else if chunks[from].id == id {
        from
    } else {
        position_from(chunks, id, from + 1)
    }
}

/// The first place where `chunks` holds a block numbered `id`, if any.
pub open spec fn position(chunks: Seq<ChunkView>, id: nat) -> Option<int> {
    let at = position_from(chunks, id, 0);
    if 0 <= at < chunks.len() {
        Some(at)
    } else {
        None
    }
}

/// `position_from` finds the first block numbered `id` at or after `from`.
pub proof fn lemma_position_from(chunks: Seq<ChunkView>, id: nat, from: int)
    requires
        0 <= from,
    ensures
        from <= position_from(chunks, id, from) || position_from(chunks, id, from) == chunks.len(),
        position_from(chunks, id, from) <= chunks.len(),
        position_from(chunks, id, from) < chunks.len() ==> chunks[position_from(
            chunks,
            id,
            from,
        )].id == id,
        forall|j: int| from <= j < position_from(chunks, id, from) ==> (#[trigger] chunks[j]).id != id,
    decreases chunks.len() - from,
{
    if from < chunks.len() && chunks[from].id != id {
        lemma_position_from(chunks, id, from + 1);
    }
}

/// `position` gives the first place of a block numbered `id`, and none only
/// where no block has that number.
pub proof fn lemma_position(chunks: Seq<ChunkView>, id: nat)
    ensures
        match position(chunks, id) {
            Some(at) => 0 <= at < chunks.len() && chunks[at].id == id && forall|j: int|
                0 <= j < at ==> (#[trigger] chunks[j]).id != id,
            None => forall|j: int| 0 <= j < chunks.len() ==> (#[trigger] chunks[j]).id != id,
        },
{
    lemma_position_from(chunks, id, 0);
}

/// Every block of `chunks` has a number below the largest `u64`, so that the
/// number after it can be held.
pub open spec fn numbers_fit(chunks: Seq<ChunkView>) -> bool {
    forall|i: int| 0 <= i < chunks.len() ==> (#[trigger] chunks[i]).id < u64::MAX
}

/// No two blocks of `chunks` share a number.
pub open spec fn distinct_numbers(chunks: Seq<ChunkView>) -> bool {
    forall|i: int, j: int|
        0 <= i < j < chunks.len() ==> (#[trigger] chunks[i]).id != (#[trigger] chunks[j]).id
}

/// Takes from `chunks` the blocks numbered `next`, `next + 1`, ... as far as
/// they are there without a gap. Gives what is left, with the first number
/// that was not found, and the blocks taken, in the order of their numbers.
pub open spec fn drain(chunks: Seq<ChunkView>, next: nat) -> (PendingView, Seq<ChunkView>)
    decreases chunks.len(),
{
    match position(chunks, next) {
        Some(at) => {
            let (rest, taken) = drain(chunks.remove(at), next + 1);
            (rest, seq![chunks[at]] + taken)
        },
        None => (PendingView { chunks, next }, Seq::empty()),
    }
}

impl PendingView {
    /// The buffer of a file of which nothing has arrived.
    pub open spec fn empty() -> PendingView {
        PendingView { chunks: Seq::empty(), next: 0 }
    }

    /// The buffer after `chunk` has arrived, and the blocks that are written
    /// on its arrival, in the order in which they are written.
    ///
    /// A block that is due is written together with those that waited for it.
    /// Any other block waits.
    pub open spec fn deliver(self, chunk: ChunkView) -> (PendingView, Seq<ChunkView>) {
        if chunk.id == self.next {
            let (rest, taken) = drain(self.chunks, self.next + 1);
            (rest, seq![chunk] + taken)
        } else {
            (PendingView { chunks: self.chunks.push(chunk), next: self.next }, Seq::empty())
        }
    }

    /// No two waiting blocks share a number, and each is numbered above the
    /// block that is due.
    pub open spec fn inv(self) -> bool {
        &&& forall|i: int| 0 <= i < self.chunks.len() ==> (#[trigger] self.chunks[i]).id > self.next
        &&& distinct_numbers(self.chunks)
    }

    /// A block numbered `id` waits.
    pub open spec fn holds(self, id: nat) -> bool {
        exists|i: int| 0 <= i < self.chunks.len() && (#[trigger] self.chunks[i]).id == id
    }
}

impl View for InnerPendingChunks {
    type V = PendingView;

    closed spec fn view(&self) -> PendingView {
        PendingView { chunks: views(self.chunks@), next: self.next as nat }
    }
}

impl InnerPendingChunks {
    /// Takes out the block numbered `id` that arrived first, if one waits.
    pub fn find(&mut self, id: u64) -> (found: Option<Chunk>)
        ensures
            final(self)@.next == old(self)@.next,
            match position(old(self)@.chunks, id as nat) {
                Some(at) => found matches Some(chunk) && chunk@ == old(self)@.chunks[at]
                    && final(self)@.chunks == old(self)@.chunks.remove(at),
                None => found is None && final(self)@ == old(self)@,
            },
    {
        let mut i: usize = 0;
        while i < self.chunks.len()
            invariant
                0 <= i <= self.chunks.len(),
                *self == *old(self),
                position_from(self@.chunks, id as nat, 0) == position_from(
                    self@.chunks,
                    id as nat,
                    i as int,
                ),
            decreases self.chunks.len() - i,
        {
            if self.chunks[i].id == id {
                let chunk = self.chunks.remove(i);
                return Some(chunk);
            }
            i += 1;
        }
        None
    }

    /// Puts `chunk` behind the blocks that already wait.
    pub fn push(&mut self, chunk: Chunk)
        ensures
            final(self)@.chunks == old(self)@.chunks.push(chunk@),
            final(self)@.next == old(self)@.next,
    {
        self.chunks.push(chunk);
    }

    /// The number of the block that is written next.
    pub fn next(&self) -> (next: u64)
        ensures
            next == self@.next,
    {
        self.next
    }

    /// How many blocks wait.
    pub fn waiting(&self) -> (count: usize)
        ensures
            count == self@.chunks.len(),
    {
        self.chunks.len()
    }

    /// Takes in a transformed block and hands back what can be written now:
    /// nothing while an earlier block is missing, else the block and those
    /// that waited for it, in the order of their numbers.
    ///
    /// A block that has not come before, and is not yet written, leaves the
    /// buffer in order.
    pub fn deliver(&mut self, chunk: Chunk) -> (ready: Vec<Chunk>)
        requires
            chunk.id < u64::MAX,
            numbers_fit(old(self)@.chunks),
        ensures
            (final(self)@, views(ready@)) == old(self)@.deliver(chunk@),
            numbers_fit(final(self)@.chunks),
            old(self)@.inv() && chunk@.id >= old(self)@.next && !old(self)@.holds(chunk@.id)
                ==> final(self)@.inv(),
    {
        let ghost goal = self@.deliver(chunk@);
        proof {
            if self@.inv() && chunk@.id >= self@.next && !self@.holds(chunk@.id) {
                lemma_deliver(self@, chunk@);
            }
        }
        let mut ready: Vec<Chunk> = Vec::new();
        if self.next == chunk.id {
            ready.push(chunk);
            self.next += 1;
            loop
                invariant
                    numbers_fit(self@.chunks),
                    goal.0 == drain(self@.chunks, self@.next).0,
                    goal.1 == views(ready@) + drain(self@.chunks, self@.next).1,
                ensures
                    goal == (self@, views(ready@)),
                    numbers_fit(self@.chunks),
                decreases self@.chunks.len(),
            {
                let ghost before = self@;
                let ghost written = views(ready@);
                match self.find(self.next) {
                    Some(found) => {
                        proof {
                            lemma_position(before.chunks, before.next);
                        }
                        ready.push(found);
                        self.next += 1;
                        assert(written + (seq![found@] + drain(self@.chunks, self@.next).1)
                            =~= views(ready@) + drain(self@.chunks, self@.next).1);
                    },
                    None => {
                        break ;
                    },
                }
            }
        } else {
            self.push(chunk);
        }
        ready
    }
}

impl PendingChunks {
    /// The buffer of a file of which nothing has arrived: no block waits, and
    /// block 0 is due.
    pub fn new() -> (pending: Self)
        ensures
            pending.inner@ == PendingView::empty(),
    {
        let pending = Self { inner: InnerPendingChunks { chunks: Vec::with_capacity(32), next: 0 } };
        assert(pending.inner@.chunks =~= Seq::<ChunkView>::empty());
        pending
    }
}

} // verus!
