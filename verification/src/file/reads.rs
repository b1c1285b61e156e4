//! The transform of a file as its reads gave it: bytes that came in parts,
//! a read that failed, the end.

use vstd::prelude::*;
use crate::file::chunk::{Chunk, ChunkView, views};
use crate::file::parallel_file::{ParallelFile, ParallelFileView, ReadView};
use crate::file::{decrypted_file, encrypts, transform_chunks, transformed};
use crate::worker::rsa::holder::{RsaHolder, RsaKeyView};

verus! {

/// One read of the source: the buffer as the read left it, and what the read
/// returned.
#[derive(Debug)]
pub struct Read<E> {
    pub buffer: Vec<u8>,
    pub outcome: Result<usize, E>,
}

impl<E> View for Read<E> {
    type V = ReadView<E>;

    open spec fn view(&self) -> ReadView<E> {
        ReadView { buffer: self.buffer@, outcome: self.outcome }
    }
}

/// Why a file was not transformed.
#[derive(Debug)]
pub enum FileError<E> {
    /// A read of the source failed.
    Read(E),
    /// The key refused a block.
    Block(::rsa::errors::Error),
}

/// The reads of `reads` as contracts see them.
pub open spec fn read_views<E>(reads: Seq<Read<E>>) -> Seq<ReadView<E>> {
    reads.map_values(|read: Read<E>| read@)
}

/// The read gave a block: it returned some bytes.
pub open spec fn gave_block<E>(read: ReadView<E>) -> bool {
    read.outcome matches Ok(len) && len > 0
}

/// The place of the first read at or after `from` that gave no block, because
/// it failed or read nothing; the number of reads where all gave one.
pub open spec fn first_stop_from<E>(reads: Seq<ReadView<E>>, from: int) -> int
    decreases reads.len() - from,
{
    if from < 0 || from >= reads.len() {
        reads.len() as int
    } else if gave_block(reads[from]) {
        first_stop_from(reads, from + 1)
    } else {
        from
    }
}

/// The blocks that the reads gave before the first that gave none, numbered
/// in the order of the reads.
pub open spec fn blocks_read<E>(reads: Seq<ReadView<E>>) -> Seq<ChunkView> {
    Seq::new(
        first_stop_from(reads, 0) as nat,
        |i: int|
            ChunkView {
                id: i as nat,
                data: ParallelFileView::filled(reads[i].buffer, reads[i].outcome->Ok_0),
            },
    )
}

/// The failure of the first read that gave no block, where it failed.
pub open spec fn read_failure<E>(reads: Seq<ReadView<E>>) -> Option<E> {
    let at = first_stop_from(reads, 0);
    if 0 <= at < reads.len() && reads[at].outcome is Err {
        Some(reads[at].outcome->Err_0)
    } else {
        None
    }
}

/// `first_stop_from` gives the first read at or after `from` that gave no
/// block.
pub proof fn lemma_first_stop_from<E>(reads: Seq<ReadView<E>>, from: int)
    requires
        0 <= from <= reads.len(),
    ensures
        from <= first_stop_from(reads, from) <= reads.len(),
        first_stop_from(reads, from) < reads.len() ==> !gave_block(
            reads[first_stop_from(reads, from)],
        ),
        forall|i: int| from <= i < first_stop_from(reads, from) ==> gave_block(#[trigger] reads[i]),
    decreases reads.len() - from,
{
    if from < reads.len() && gave_block(reads[from]) {
        lemma_first_stop_from(reads, from + 1);
    }
}

/// Cuts what the reads gave into numbered blocks, up to the first read that
/// gave none, and says whether that read failed.
pub fn cut_reads<E>(reads: Vec<Read<E>>, chunk_size: usize) -> (cut: (Vec<Chunk>, Option<E>))
    ensures
        views(cut.0@) == blocks_read(read_views(reads@)),
        cut.1 == read_failure(read_views(reads@)),
{
    let ghost all = reads@;
    let ghost given = read_views(all);
    let count = reads.len();
    let mut file = ParallelFile::new(chunk_size);
    let mut chunks: Vec<Chunk> = Vec::new();
    for read in iter: reads
        invariant
            iter.seq() == all,
            given == read_views(all),
            all.len() == count,
            chunks.len() == iter.index(),
            file@ == (ParallelFileView {
                chunk_size: chunk_size as nat,
                next_id: chunks.len() as nat,
                was_error: false,
            }),
            first_stop_from(given, 0) == first_stop_from(given, iter.index() as int),
            forall|i: int|
                0 <= i < chunks.len() ==> (#[trigger] chunks[i])@ == (ChunkView {
                    id: i as nat,
                    data: ParallelFileView::filled(given[i].buffer, given[i].outcome->Ok_0),
                }),
    {
        let ghost k = chunks.len() as int;
        assert(given[k] == read@);
        match file.next(read.buffer, read.outcome) {
            Some(Ok(chunk)) => {
                chunks.push(chunk);
            },
            Some(Err(error)) => {
                proof {
                    assert(views(chunks@) =~= blocks_read(given));
                }
                return (chunks, Some(error));
            },
            None => {
                proof {
                    assert(views(chunks@) =~= blocks_read(given));
                }
                return (chunks, None);
            },
        }
    }
    proof {
        assert(views(chunks@) =~= blocks_read(given));
    }
    (chunks, None)
}

/// What `transform_reads` may leave of a target that held `held`: `worked`
/// and `output` are what the transform of the blocks made. The failure of a
/// block is returned before that of a read, which came after it, and with
/// either the target is as it was. Without a failure the target is the
/// output, and the answer is the number of blocks.
pub open spec fn reads_transformed<E>(
    key: RsaKeyView,
    inputs: Seq<ChunkView>,
    stopped: Option<E>,
    held: Seq<u8>,
    target: Seq<u8>,
    outcome: Result<u64, FileError<E>>,
) -> bool {
    exists|output: Seq<u8>, worked: Result<u64, ::rsa::errors::Error>|
        {
            &&& #[trigger] transformed(key, inputs, inputs.len(), Seq::empty(), output, worked)
            &&& match worked {
                Err(refused) => outcome == Err::<u64, FileError<E>>(FileError::Block(refused))
                    && target == held,
                Ok(count) => match stopped {
                    Some(failure) => outcome == Err::<u64, FileError<E>>(FileError::Read(failure))
                        && target == held,
                    None => outcome == Ok::<u64, FileError<E>>(count) && target == output,
                },
            }
        }
}

/// Transforms a file as its reads gave it.
///
/// `reads` is what reading the source gave, read by read: the buffer and
/// what the read returned. Every read of some bytes is a block of just those
/// bytes, up to the first read that failed or read nothing. The blocks go
/// through the key in their order, and the outputs are left in `target`.
///
/// The first failure, of a read or of the key, is returned, and `target` is
/// then as it was: a file of which a read failed leaves nothing, wherever
/// the read failed. Without a failure the number of blocks is returned.
pub fn transform_reads<E>(
    reads: Vec<Read<E>>,
    rsa: RsaHolder,
    target: &mut Vec<u8>,
    message_len: usize,
) -> (outcome: Result<u64, FileError<E>>)
    ensures
        reads_transformed(
            rsa.key()@,
            blocks_read(read_views(reads@)),
            read_failure(read_views(reads@)),
            old(target)@,
            final(target)@,
            outcome,
        ),
        outcome is Err ==> final(target)@ == old(target)@,
        read_failure(read_views(reads@)) is Some ==> outcome is Err,
        outcome matches Ok(count) ==> count == blocks_read(read_views(reads@)).len(),
        rsa.key()@ matches RsaKeyView::PrivateKey(key) ==> (match decrypted_file(
            key,
            blocks_read(read_views(reads@)),
        ) {
            None => outcome is Err && outcome->Err_0 is Block,
            Some(file) => match read_failure(read_views(reads@)) {
                Some(failure) => outcome == Err::<u64, FileError<E>>(FileError::Read(failure)),
                None => outcome is Ok && final(target)@ == file,
            },
        }),
        rsa.key()@ matches RsaKeyView::PublicKey(key) ==> (outcome is Err && outcome->Err_0 is Block
            <==> !encrypts(key, blocks_read(read_views(reads@)))),
{
    let (chunks, stopped) = cut_reads(reads, message_len);
    let ghost inputs = views(chunks@);
    let mut output: Vec<u8> = Vec::new();
    let worked = transform_chunks(chunks, rsa, &mut output);
    proof {
        assert(output@.len() == 0 ==> output@ =~= Seq::<u8>::empty());
        assert(transformed(rsa.key()@, inputs, inputs.len(), Seq::empty(), output@, worked));
    }
    match worked {
        Err(refused) => Err(FileError::Block(refused)),
        Ok(count) => match stopped {
            Some(failure) => Err(FileError::Read(failure)),
            None => {
                *target = output;
                Ok(count)
            },
        },
    }
}

} // verus!
