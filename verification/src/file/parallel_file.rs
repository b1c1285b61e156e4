use vstd::prelude::*;
use crate::file::chunk::{Chunk, ChunkView, item_view};

verus! {

/// Cuts what is read from a file into numbered blocks.
///
/// The reading itself is the caller's: it asks for a `buffer`, reads into it,
/// and hands the buffer back to `next` with what the read returned. Where
/// several workers share one `ParallelFile`, the caller holds one lock over
/// all three steps, so that the numbers follow the bytes.
pub struct ParallelFile {
    chunk_size: usize,
    next_id: u64,
    was_error: bool,
}

/// A `ParallelFile` as contracts see it.
pub struct ParallelFileView {
    pub chunk_size: nat,
    pub next_id: nat,
    pub was_error: bool,
}

impl ParallelFileView {
    /// A file of which nothing has been read.
    pub open spec fn start(chunk_size: nat) -> ParallelFileView {
        ParallelFileView { chunk_size, next_id: 0, was_error: false }
    }

    /// The bytes that a read of `len` bytes left at the front of `buffer`.
    pub open spec fn filled(buffer: Seq<u8>, len: usize) -> Seq<u8> {
        if len <= buffer.len() {
            buffer.take(len as int)
        } else {
            buffer
        }
    }

    /// The state after one read, and what the read gives the workers.
    ///
    /// After a failed read nothing is handed out any more. Before that, every
    /// read uses up one number: a read of no bytes is the end of the file, a
    /// read of some bytes is a block of just those bytes, however few, and a
    /// failure is handed on once.
    pub open spec fn step<E>(self, buffer: Seq<u8>, read: Result<usize, E>) -> (
        ParallelFileView,
        Option<Result<ChunkView, E>>,
    ) {
        if self.was_error {
            (self, None)
        } else {
            let after = ParallelFileView {
                chunk_size: self.chunk_size,
                next_id: self.next_id + 1,
                was_error: read is Err,
            };
            match read {
                Ok(len) => if len == 0 {
                    (after, None)
                } else {
                    (after, Some(Ok(ChunkView { id: self.next_id, data: Self::filled(buffer, len) })))
                },
                Err(e) => (after, Some(Err(e))),
            }
        }
    }
}

impl View for ParallelFile {
    type V = ParallelFileView;

    closed spec fn view(&self) -> ParallelFileView {
        ParallelFileView {
            chunk_size: self.chunk_size as nat,
            next_id: self.next_id as nat,
            was_error: self.was_error,
        }
    }
}

impl ParallelFile {
    /// A file of which nothing has been read, to be cut into blocks of
    /// `chunk_size` bytes.
    pub fn new(chunk_size: usize) -> (file: Self)
        ensures
            file@ == ParallelFileView::start(chunk_size as nat),
    {
        Self { chunk_size, next_id: 0, was_error: false }
    }

    /// The number that the next read gets.
    pub fn next_id(&self) -> (id: u64)
        ensures
            id == self@.next_id,
    {
        self.next_id
    }

    /// The buffer for the next read, `chunk_size` zero bytes; none once a read
    /// has failed.
    pub fn buffer(&self) -> (buffer: Option<Vec<u8>>)
        ensures
            buffer is None <==> self@.was_error,
            buffer matches Some(bytes) ==> bytes@ == Seq::new(self@.chunk_size, |i: int| 0u8),
    {
        if self.was_error {
            None
        } else {
            let bytes = vec![0u8; self.chunk_size];
            assert(bytes@ =~= Seq::new(self@.chunk_size, |i: int| 0u8));
            Some(bytes)
        }
    }

    /// Takes the buffer back with what the read returned, and gives what the
    /// workers get: a block, the failure, or the end.
    pub fn next<E>(&mut self, buffer: Vec<u8>, read: Result<usize, E>) -> (item: Option<
        Result<Chunk, E>,
    >)
        requires
            !old(self)@.was_error ==> old(self)@.next_id < u64::MAX,
        ensures
            (final(self)@, item_view(item)) == old(self)@.step(buffer@, read),
    {
        if self.was_error {
            return None;
        }
        let id = self.next_id;
        self.next_id += 1;
        match read {
            Ok(len) => {
                if len == 0 {
                    None
                } else {
                    let mut data = buffer;
                    data.truncate(len);
                    Some(Ok(Chunk { data, id }))
                }
            },
            Err(e) => {
                self.was_error = true;
                Some(Err(e))
            },
        }
    }
}

/// One read as contracts see it: the buffer as the read left it, and what the
/// read returned.
pub struct ReadView<E> {
    pub buffer: Seq<u8>,
    pub outcome: Result<usize, E>,
}

/// The state after the reads of `reads`, and what each of them gave the
/// workers.
pub open spec fn read_all<E>(start: ParallelFileView, reads: Seq<ReadView<E>>) -> (
    ParallelFileView,
    Seq<Option<Result<ChunkView, E>>>,
)
    decreases reads.len(),
{
    if reads.len() == 0 {
        (start, Seq::empty())
    } else {
        let (before, items) = read_all(start, reads.drop_last());
        let (after, item) = before.step(reads.last().buffer, reads.last().outcome);
        (after, items.push(item))
    }
}

/// None of the first `k` reads of `reads` failed.
pub open spec fn no_failure_before<E>(reads: Seq<ReadView<E>>, k: int) -> bool {
    forall|j: int| 0 <= j < k && j < reads.len() ==> (#[trigger] reads[j]).outcome is Ok
}

/// The blocks of a file are numbered in the order in which they are read:
/// up to the first failure, read `i` gives block `i` with the bytes that it
/// read, the end of the file where it read none, or its failure. After a
/// failure every read gives the end.
pub proof fn lemma_blocks_follow_reads<E>(chunk_size: nat, reads: Seq<ReadView<E>>)
    ensures
        ({
            let (end, items) = read_all(ParallelFileView::start(chunk_size), reads);
            &&& items.len() == reads.len()
            &&& end.chunk_size == chunk_size
            &&& end.was_error == !no_failure_before(reads, reads.len() as int)
            &&& !end.was_error ==> end.next_id == reads.len()
            &&& forall|i: int|
                0 <= i < reads.len() ==> #[trigger] items[i] == if no_failure_before(reads, i) {
                    ParallelFileView { chunk_size, next_id: i as nat, was_error: false }.step(
                        reads[i].buffer,
                        reads[i].outcome,
                    ).1
                } else {
                    None
                }
        }),
    decreases reads.len(),
{
    if reads.len() > 0 {
        let front = reads.drop_last();
        let k = front.len() as int;
        lemma_blocks_follow_reads(chunk_size, front);
        let (before, items) = read_all(ParallelFileView::start(chunk_size), front);
        let (end, all) = read_all(ParallelFileView::start(chunk_size), reads);
        assert forall|i: int| 0 <= i <= k implies no_failure_before(front, i) == no_failure_before(
            reads,
            i,
        ) by {
            if no_failure_before(front, i) {
                assert forall|j: int| 0 <= j < i && j < reads.len() implies (
                #[trigger] reads[j]).outcome is Ok by {
                    assert(front[j] == reads[j]);
                }
            } else {
                let j = choose|j: int|
                    0 <= j < i && j < front.len() && !((#[trigger] front[j]).outcome is Ok);
                assert(front[j] == reads[j]);
            }
        }
        assert(no_failure_before(reads, k + 1) == (no_failure_before(reads, k)
            && reads[k].outcome is Ok)) by {
            if no_failure_before(reads, k) && reads[k].outcome is Ok {
                assert forall|j: int| 0 <= j < k + 1 && j < reads.len() implies (
                #[trigger] reads[j]).outcome is Ok by {
                    if j < k {
                        assert(reads[j].outcome is Ok);
                    }
                }
            }
            if no_failure_before(reads, k + 1) {
                assert(reads[k].outcome is Ok);
            }
        }
        assert forall|i: int| 0 <= i < reads.len() implies #[trigger] all[i] == if no_failure_before(
            reads,
            i,
        ) {
            ParallelFileView { chunk_size, next_id: i as nat, was_error: false }.step(
                reads[i].buffer,
                reads[i].outcome,
            ).1
        } else {
            None
        } by {
            if i < k {
                assert(all[i] == items[i]);
                assert(front[i] == reads[i]);
            }
        }
    }
}

} // verus!
