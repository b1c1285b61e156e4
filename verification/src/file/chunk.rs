use vstd::prelude::*;

verus! {

/// One block of a file: its bytes and its place in the file, counted from 0.
#[derive(Debug)]
pub struct Chunk {
    pub data: Vec<u8>,
    pub id: u64,
}

/// A block as contracts see it.
pub struct ChunkView {
    pub id: nat,
    pub data: Seq<u8>,
}

impl View for Chunk {
    type V = ChunkView;

    open spec fn view(&self) -> ChunkView {
        ChunkView { id: self.id as nat, data: self.data@ }
    }
}

/// The blocks of `chunks` as contracts see them.
pub open spec fn views(chunks: Seq<Chunk>) -> Seq<ChunkView> {
    chunks.map_values(|c: Chunk| c@)
}

/// What a reader of blocks hands out, as contracts see it: a block, a
/// failure, or the end.
pub open spec fn item_view<E>(item: Option<Result<Chunk, E>>) -> Option<Result<ChunkView, E>> {
    match item {
        Some(Ok(chunk)) => Some(Ok(chunk@)),
        Some(Err(e)) => Some(Err(e)),
        None => None,
    }
}

/// The byte strings of `parts`, one after the other.
pub open spec fn joined(parts: Seq<Seq<u8>>) -> Seq<u8>
    decreases parts.len(),
{
    if parts.len() == 0 {
        Seq::empty()
    } else {
        joined(parts.drop_last()) + parts.last()
    }
}

/// The bytes of each block of `chunks`.
pub open spec fn datas(chunks: Seq<ChunkView>) -> Seq<Seq<u8>> {
    chunks.map_values(|c: ChunkView| c.data)
}

/// The bytes of `chunks`, one block after the other.
pub open spec fn concat(chunks: Seq<ChunkView>) -> Seq<u8> {
    joined(datas(chunks))
}

/// `joined` of one more part is `joined` of the others, and that part.
pub proof fn lemma_joined_push(parts: Seq<Seq<u8>>, part: Seq<u8>)
    ensures
        joined(parts.push(part)) == joined(parts) + part,
{
    assert(parts.push(part).drop_last() =~= parts);
}

} // verus!
