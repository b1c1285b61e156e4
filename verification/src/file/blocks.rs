use vstd::prelude::*;
use vstd::arithmetic::div_mod::{lemma_fundamental_div_mod, lemma_mod_bound};
use crate::file::chunk::{Chunk, ChunkView, concat, datas, joined, lemma_joined_push, views};
use crate::file::parallel_file::{ParallelFile, ParallelFileView};

verus! {

/// Into how many blocks of `size` bytes a file of `len` bytes is cut: as many
/// as are full, and one more for what is left over. Blocks of no bytes cut
/// nothing.
pub open spec fn block_count(len: nat, size: nat) -> nat {
    if size == 0 {
        0
    } else {
        ((len + size - 1) / (size as int)) as nat
    }
}

/// Where block `i` of a file of `len` bytes ends.
pub open spec fn block_end(len: nat, size: nat, i: int) -> int {
    if (i + 1) * size <= len {
        (i + 1) * size
    } else {
        len as int
    }
}

/// The blocks of `source`, `size` bytes each but for the last, numbered from 0.
pub open spec fn blocks(source: Seq<u8>, size: nat) -> Seq<ChunkView> {
    Seq::new(
        block_count(source.len(), size),
        |i: int|
            ChunkView {
                id: i as nat,
                data: source.subrange(i * size, block_end(source.len(), size, i)),
            },
    )
}

/// The last block begins inside the file and ends at its end: the count of
/// blocks is the one number `count` with
/// `(count - 1) * size < len <= count * size`.
pub proof fn lemma_block_count(len: nat, size: nat)
    requires
        size > 0,
    ensures
        block_count(len, size) * size >= len,
        len > 0 ==> (block_count(len, size) - 1) * size < len,
        len == 0 ==> block_count(len, size) == 0,
{
    let x = (len + size - 1) as int;
    let d = size as int;
    lemma_fundamental_div_mod(x, d);
    lemma_mod_bound(x, d);
    let q = x / d;
    let r = x % d;
    assert(q >= 0) by (nonlinear_arith)
        requires
            x == d * q + r,
            0 <= r < d,
            x >= 0,
    ;
    assert(q * d == x - r && (q - 1) * d == x - r - d) by (nonlinear_arith)
        requires
            x == d * q + r,
    ;
    if len == 0 {
        assert(q == 0) by (nonlinear_arith)
            requires
                x == d * q + r,
                0 <= r < d,
                0 <= x < d,
        ;
    }
}

/// No other number than `block_count` lies as `lemma_block_count` says.
pub proof fn lemma_block_count_unique(len: nat, size: nat, count: nat)
    requires
        size > 0,
        count * size >= len,
        count > 0 ==> (count - 1) * size < len,
    ensures
        count == block_count(len, size),
{
    lemma_block_count(len, size);
    let c = block_count(len, size) as int;
    let k = count as int;
    let s = size as int;
    let l = len as int;
    assert(k == c) by (nonlinear_arith)
        requires
            s > 0,
            k >= 0,
            c >= 0,
            k * s >= l,
            k > 0 ==> (k - 1) * s < l,
            c * s >= l,
            l > 0 ==> (c - 1) * s < l,
            l == 0 ==> c == 0,
            l >= 0,
    ;
}

/// No block is empty, and none is longer than `size` bytes.
pub proof fn lemma_block_sizes(source: Seq<u8>, size: nat)
    ensures
        forall|i: int|
            0 <= i < blocks(source, size).len() ==> 0 < (#[trigger] blocks(source, size)[i]).data.len()
                <= size,
{
    if size > 0 {
        let len = source.len() as int;
        let count = block_count(source.len(), size) as int;
        let s = size as int;
        lemma_block_count(source.len(), size);
        assert forall|i: int| 0 <= i < blocks(source, size).len() implies 0 < (#[trigger] blocks(
            source,
            size,
        )[i]).data.len() <= size by {
            assert(0 <= i * s < len && (i + 1) * s == i * s + s) by (nonlinear_arith)
                requires
                    s > 0,
                    0 <= i <= count - 1,
                    (count - 1) * s < len,
            ;
        }
    }
}

/// Cuts `source` into its blocks.
pub fn chunks_of(source: &[u8], chunk_size: usize) -> (chunks: Vec<Chunk>)
    ensures
        views(chunks@) == blocks(source@, chunk_size as nat),
{
    let mut chunks: Vec<Chunk> = Vec::new();
    if chunk_size == 0 {
        assert(views(chunks@) =~= blocks(source@, 0));
        return chunks;
    }
    let mut file = ParallelFile::new(chunk_size);
    let mut offset: usize = 0;
    while offset < source.len()
        invariant
            chunk_size > 0,
            offset <= source.len(),
            file@ == (ParallelFileView {
                chunk_size: chunk_size as nat,
                next_id: chunks.len() as nat,
                was_error: false,
            }),
            offset < source.len() ==> offset == chunks.len() * chunk_size,
            offset == source.len() ==> chunks.len() * chunk_size >= source.len(),
            chunks.len() > 0 ==> (chunks.len() - 1) * chunk_size < source.len(),
            chunks.len() <= offset,
            forall|i: int|
                0 <= i < chunks.len() ==> (#[trigger] chunks[i])@ == (ChunkView {
                    id: i as nat,
                    data: source@.subrange(
                        i * chunk_size,
                        block_end(source@.len(), chunk_size as nat, i),
                    ),
                }),
        decreases source.len() - offset,
    {
        let left = source.len() - offset;
        let len = if left < chunk_size { left } else { chunk_size };
        let ghost i = chunks.len() as int;
        assert((i + 1) * chunk_size == offset + chunk_size) by (nonlinear_arith)
            requires
                offset == i * chunk_size,
        ;
        let mut buffer = file.buffer().unwrap();
        let mut j: usize = 0;
        while j < len
            invariant
                j <= len,
                len <= chunk_size,
                offset + len <= source.len(),
                buffer.len() == chunk_size,
                forall|k: int| 0 <= k < j ==> buffer[k] == source[offset + k],
            decreases len - j,
        {
            buffer.set(j, source[offset + j]);
            j += 1;
        }
        let read: Result<usize, ()> = Ok(len);
        let chunk = file.next(buffer, read).unwrap().unwrap();
        assert(chunk@.data =~= source@.subrange(offset as int, offset + len));
        chunks.push(chunk);
        offset += len;
        assert(offset < source.len() ==> offset == chunks.len() * chunk_size);
        assert(offset == source.len() ==> chunks.len() * chunk_size >= source.len());
    }
    proof {
        lemma_block_count_unique(source@.len(), chunk_size as nat, chunks.len() as nat);
        assert(views(chunks@) =~= blocks(source@, chunk_size as nat));
    }
    chunks
}

/// Where the first `k` blocks of a file of `len` bytes end.
pub open spec fn blocks_end(len: nat, size: nat, k: int) -> int {
    if k <= 0 {
        0
    } else {
        block_end(len, size, k - 1)
    }
}

proof fn lemma_blocks_prefix(source: Seq<u8>, size: nat, k: int)
    requires
        size > 0,
        0 <= k <= block_count(source.len(), size),
    ensures
        joined(datas(blocks(source, size)).take(k)) == source.subrange(
            0,
            blocks_end(source.len(), size, k),
        ),
        0 <= blocks_end(source.len(), size, k) <= source.len(),
        k < block_count(source.len(), size) ==> blocks_end(source.len(), size, k) == k * size,
        k == block_count(source.len(), size) ==> blocks_end(source.len(), size, k) == source.len(),
    decreases k,
{
    let len = source.len();
    let count = block_count(len, size) as int;
    let all = datas(blocks(source, size));
    lemma_block_count(len, size);
    if k == 0 {
        assert(all.take(0) =~= Seq::<Seq<u8>>::empty());
        assert(joined(all.take(0)) =~= source.subrange(0, 0));
    } else {
        lemma_blocks_prefix(source, size, k - 1);
        let s = size as int;
        let l = len as int;
        assert((k - 1) * s < l && k * s == (k - 1) * s + s) by (nonlinear_arith)
            requires
                s > 0,
                1 <= k <= count,
                (count - 1) * s < l,
        ;
        if k < count {
            assert(k * s < l) by (nonlinear_arith)
                requires
                    s > 0,
                    0 <= k <= count - 1,
                    (count - 1) * s < l,
            ;
        }
        assert(all.take(k) =~= all.take(k - 1).push(all[k - 1]));
        lemma_joined_push(all.take(k - 1), all[k - 1]);
        assert(all[k - 1] == source.subrange((k - 1) * size, block_end(len, size, k - 1)));
        assert(blocks_end(len, size, k - 1) == (k - 1) * size);
        assert(joined(all.take(k)) =~= source.subrange(0, blocks_end(len, size, k)));
    }
}

/// The blocks of a file, one after the other, are the file.
pub proof fn lemma_blocks_concat(source: Seq<u8>, size: nat)
    requires
        size > 0,
    ensures
        concat(blocks(source, size)) == source,
{
    let all = datas(blocks(source, size));
    let count = block_count(source.len(), size) as int;
    lemma_blocks_prefix(source, size, count);
    assert(all.take(count) =~= all);
    assert(source.subrange(0, source.len() as int) =~= source);
}

/// Byte strings of `size` bytes each, one after the other, are `size` bytes
/// for each of them, and each stands at its place.
pub proof fn lemma_joined_even(parts: Seq<Seq<u8>>, size: nat)
    requires
        forall|i: int| 0 <= i < parts.len() ==> (#[trigger] parts[i]).len() == size,
    ensures
        joined(parts).len() == parts.len() * size,
        forall|i: int|
            0 <= i < parts.len() ==> joined(parts).subrange(i * size, (i + 1) * size)
                == #[trigger] parts[i],
    decreases parts.len(),
{
    if parts.len() == 0 {
        assert(parts.len() * size == 0) by (nonlinear_arith)
            requires
                parts.len() == 0,
        ;
    } else {
        let front = parts.drop_last();
        let n = parts.len() as int;
        let s = size as int;
        lemma_joined_even(front, size);
        assert(n * s == (n - 1) * s + s) by (nonlinear_arith);
        assert forall|i: int| 0 <= i < parts.len() implies joined(parts).subrange(
            i * size,
            (i + 1) * size,
        ) == #[trigger] parts[i] by {
            assert((i + 1) * s == i * s + s && 0 <= i * s && (i < n - 1 ==> (i + 1) * s <= (n - 1)
                * s)) by (nonlinear_arith)
                requires
                    0 <= i < n,
                    s >= 0,
            ;
            if i < n - 1 {
                assert(front[i] == parts[i]);
                assert(joined(parts).subrange(i * size, (i + 1) * size) =~= joined(front).subrange(
                    i * size,
                    (i + 1) * size,
                ));
            } else {
                assert(joined(parts).subrange(i * size, (i + 1) * size) =~= parts.last());
            }
        }
    }
}

/// A file made of byte strings of `size` bytes each is cut into just those.
pub proof fn lemma_blocks_of_joined(parts: Seq<Seq<u8>>, size: nat)
    requires
        size > 0,
        forall|i: int| 0 <= i < parts.len() ==> (#[trigger] parts[i]).len() == size,
    ensures
        datas(blocks(joined(parts), size)) == parts,
{
    lemma_joined_even(parts, size);
    let file = joined(parts);
    let n = parts.len() as int;
    let s = size as int;
    assert(n > 0 ==> (n - 1) * s < n * s) by (nonlinear_arith)
        requires
            s > 0,
    ;
    lemma_block_count_unique(file.len(), size, parts.len());
    assert forall|i: int| 0 <= i < n implies #[trigger] datas(blocks(file, size))[i]
        == parts[i] by {
        assert((i + 1) * s <= n * s) by (nonlinear_arith)
            requires
                0 <= i < n,
                s > 0,
        ;
        assert(parts[i] == file.subrange(i * size, (i + 1) * size));
    }
    assert(datas(blocks(file, size)) =~= parts);
}

} // verus!
