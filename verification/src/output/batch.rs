//! How a buffer is cut into chunks for upload.

use vstd::arithmetic::div_mod::lemma_fundamental_div_mod_converse;
use vstd::prelude::*;

verus! {

/// A run of positions of a buffer: from `start` up to, not including, `end`.
#[derive(Clone, Copy, Debug, PartialEq, Eq)]
pub struct ChunkRange {
    pub start: usize,
    pub end: usize,
}

/// The number of chunks that `n` documents make with at most `size` in each:
/// `n / size`, rounded up.
pub open spec fn chunk_count(n: nat, size: nat) -> nat {
    if size == 0 {
        0
    } else {
        ((n + size - 1) / (size as int)) as nat
    }
}

/// Where chunk `k` starts.
pub open spec fn chunk_start(k: int, size: nat) -> int {
    k * size
}

/// Where chunk `k` ends: a full chunk further, or at the end of the buffer.
pub open spec fn chunk_end(k: int, n: nat, size: nat) -> int {
    if (k + 1) * size <= n {
        (k + 1) * size
    } else {
        n as int
    }
}

/// The chunks of a buffer, in order.
pub open spec fn chunks_of<T>(buffer: Seq<T>, size: nat) -> Seq<Seq<T>> {
    Seq::new(
        chunk_count(buffer.len(), size),
        |k: int| buffer.subrange(chunk_start(k, size), chunk_end(k, buffer.len(), size)),
    )
}

/// The size of the chunks of one upload: the whole buffer where it fits in
/// one request, the configured size otherwise.
pub open spec fn chunk_size(len: nat, buffer_size: nat) -> nat {
    if len <= buffer_size {
        len
    } else {
        buffer_size
    }
}

/// The size of the chunks of one upload.
pub fn upload_chunk_size(len: usize, buffer_size: usize) -> (r: usize)
    ensures
        r == chunk_size(len as nat, buffer_size as nat),
{
    if len <= buffer_size {
        len
    } else {
        buffer_size
    }
}

/// `count` chunks are what `n` documents make exactly when the last of them
/// is the first to reach the end of the buffer.
pub proof fn lemma_chunk_count(n: nat, size: nat, count: nat)
    requires
        size > 0,
        n == 0 ==> count == 0,
        n > 0 ==> count > 0 && (count - 1) * size < n <= count * size,
    ensures
        chunk_count(n, size) == count,
{
    if n == 0 {
        lemma_fundamental_div_mod_converse(size - 1, size as int, 0, size - 1);
    } else {
        let r = n + size - 1 - count * size;
        assert((count - 1) * size == count * size - size) by (nonlinear_arith);
        lemma_fundamental_div_mod_converse(n + size - 1, size as int, count as int, r);
    }
}

/// The bounds of the chunks: every chunk lies inside the buffer, starts where
/// the one before it ended, and is full unless it is the last.
pub proof fn lemma_chunk_bounds(n: nat, size: nat)
    requires
        size > 0,
    ensures
        n == 0 <==> chunk_count(n, size) == 0,
        n > 0 ==> (chunk_count(n, size) - 1) * size < n <= chunk_count(n, size) * size,
        forall|k: int|
            #![trigger chunk_start(k, size)]
            #![trigger chunk_end(k, n, size)]
            0 <= k < chunk_count(n, size) ==> {
                &&& 0 <= chunk_start(k, size) < chunk_end(k, n, size) <= n
                &&& chunk_end(k, n, size) - chunk_start(k, size) <= size
                &&& chunk_start(k + 1, size) == chunk_start(k, size) + size
                &&& k + 1 < chunk_count(n, size) ==> chunk_end(k, n, size) == chunk_start(
                    k + 1,
                    size,
                ) && chunk_end(k, n, size) - chunk_start(k, size) == size
                &&& k + 1 == chunk_count(n, size) ==> chunk_end(k, n, size) == n
            },
{
    let count = chunk_count(n, size);
    let x = n + size - 1;
    vstd::arithmetic::div_mod::lemma_fundamental_div_mod(x, size as int);
    vstd::arithmetic::div_mod::lemma_mod_bound(x, size as int);
    vstd::arithmetic::div_mod::lemma_div_pos_is_pos(x, size as int);
    assert(x == size * (x / (size as int)) + x % (size as int));
    assert(size * (x / (size as int)) == count * size) by (nonlinear_arith)
        requires
            count == x / (size as int),
    ;
    assert((count - 1) * size == count * size - size) by (nonlinear_arith);
    assert(count >= 1 ==> count * size >= size) by (nonlinear_arith);
    assert(count == 0 ==> count * size == 0) by (nonlinear_arith);
    assert forall|k: int|
        #![trigger chunk_start(k, size)]
        #![trigger chunk_end(k, n, size)]
        0 <= k < count implies {
        &&& 0 <= chunk_start(k, size) < chunk_end(k, n, size) <= n
        &&& chunk_end(k, n, size) - chunk_start(k, size) <= size
        &&& chunk_start(k + 1, size) == chunk_start(k, size) + size
        &&& k + 1 < count ==> chunk_end(k, n, size) == chunk_start(k + 1, size) && chunk_end(
            k,
            n,
            size,
        ) - chunk_start(k, size) == size
        &&& k + 1 == count ==> chunk_end(k, n, size) == n
    } by {
        assert((k + 1) * size == k * size + size) by (nonlinear_arith);
        assert(0 <= k * size) by (nonlinear_arith)
            requires
                0 <= k,
                size > 0,
        ;
        assert(k * size <= (count - 1) * size) by (nonlinear_arith)
            requires
                k <= count - 1,
                size > 0,
        ;
        if k + 1 < count {
            assert((k + 1) * size <= (count - 1) * size) by (nonlinear_arith)
                requires
                    k + 1 <= count - 1,
                    size > 0,
            ;
        }
    }
}

/// Cutting a buffer that is not empty by the size of one upload gives the
/// same chunks as cutting it by the configured size.
pub proof fn lemma_chunk_size<T>(buffer: Seq<T>, size: nat)
    requires
        size > 0,
        buffer.len() > 0,
    ensures
        chunks_of(buffer, chunk_size(buffer.len(), size)) == chunks_of(buffer, size),
{
    let n = buffer.len();
    if n <= size {
        lemma_chunk_count(n, n, 1);
        lemma_chunk_count(n, size, 1);
        assert(chunk_start(0, n) == chunk_start(0, size));
        assert(chunk_end(0, n, n) == chunk_end(0, n, size));
        assert(chunks_of(buffer, n) =~= chunks_of(buffer, size));
    }
}

/// Plans the chunks of a buffer of `len` documents, with at most
/// `buffer_size` documents in each.
pub fn plan_chunks(len: usize, buffer_size: usize) -> (r: Vec<ChunkRange>)
    requires
        buffer_size > 0,
    ensures
        r.len() == chunk_count(len as nat, buffer_size as nat),
        forall|k: int|
            0 <= k < r.len() ==> (#[trigger] r[k]).start == chunk_start(k, buffer_size as nat)
                && r[k].end == chunk_end(k, len as nat, buffer_size as nat),
{
    let ghost n = len as nat;
    let ghost size = buffer_size as nat;
    let mut out: Vec<ChunkRange> = Vec::new();
    let mut start: usize = 0;
    assert(0 * size == 0) by (nonlinear_arith);
    while start < len
        invariant
            n == len,
            size == buffer_size,
            size > 0,
            0 <= start <= len,
            start < len ==> start == out.len() * size,
            start == len && len > 0 ==> out.len() > 0 && (out.len() - 1) * size < n <= out.len()
                * size,
            len == 0 ==> out.len() == 0,
            forall|k: int|
                0 <= k < out.len() ==> (#[trigger] out[k]).start == chunk_start(k, size)
                    && out[k].end == chunk_end(k, n, size),
        decreases len - start,
    {
        let ghost k = out.len() as int;
        assert((k + 1) * size == k * size + size) by (nonlinear_arith);
        let end: usize = if len - start > buffer_size {
            start + buffer_size
        } else {
            len
        };
        out.push(ChunkRange { start, end });
        start = end;
    }
    proof {
        lemma_chunk_count(n, size, out.len() as nat);
    }
    out
}

/// The runs of `pieces` joined in order.
pub open spec fn joined<T>(pieces: Seq<Seq<T>>) -> Seq<T>
    decreases pieces.len(),
{
    if pieces.len() == 0 {
        Seq::empty()
    } else {
        joined(pieces.drop_last()) + pieces.last()
    }
}

/// The first `k` chunks joined are the buffer up to where chunk `k` starts.
proof fn lemma_joined_prefix<T>(buffer: Seq<T>, size: nat, k: int)
    requires
        size > 0,
        0 <= k <= chunk_count(buffer.len(), size),
    ensures
        joined(chunks_of(buffer, size).take(k)) == buffer.subrange(
            0,
            if k == chunk_count(buffer.len(), size) {
                buffer.len() as int
            } else {
                chunk_start(k, size)
            },
        ),
    decreases k,
{
    let n = buffer.len();
    let chunks = chunks_of(buffer, size);
    lemma_chunk_bounds(n, size);
    if k == 0 {
        assert(0 * size == 0) by (nonlinear_arith);
        assert(joined(chunks.take(0)) =~= buffer.subrange(0, 0));
    } else {
        lemma_joined_prefix(buffer, size, k - 1);
        let head = chunks.take(k);
        assert(head.drop_last() =~= chunks.take(k - 1));
        assert(head.last() == chunks[k - 1]);
        let a = chunk_start(k - 1, size);
        let b = chunk_end(k - 1, n, size);
        assert(0 <= a < b <= n);
        assert(chunks[k - 1] == buffer.subrange(a, b));
        assert(buffer.subrange(0, a) + buffer.subrange(a, b) =~= buffer.subrange(0, b));
    }
}

/// Chunking law: a buffer of `n` documents is cut into `n / size`, rounded
/// up, chunks; every chunk but the last holds `size` documents and the last
/// holds between one and `size`; and the chunks joined in order are the
/// buffer, so that every document is in exactly one chunk, in its place.
pub proof fn lemma_chunks_cover<T>(buffer: Seq<T>, size: nat)
    requires
        size > 0,
    ensures
        chunks_of(buffer, size).len() == chunk_count(buffer.len(), size),
        chunk_count(buffer.len(), size) == (buffer.len() + size - 1) / (size as int),
        forall|k: int|
            0 <= k < chunks_of(buffer, size).len() - 1 ==> (#[trigger] chunks_of(
                buffer,
                size,
            )[k]).len() == size,
        forall|k: int|
            0 <= k < chunks_of(buffer, size).len() ==> 0 < (#[trigger] chunks_of(
                buffer,
                size,
            )[k]).len() <= size,
        joined(chunks_of(buffer, size)) == buffer,
{
    let chunks = chunks_of(buffer, size);
    lemma_chunk_bounds(buffer.len(), size);
    lemma_joined_prefix(buffer, size, chunks.len() as int);
    assert(chunks.take(chunks.len() as int) =~= chunks);
    assert(buffer.subrange(0, buffer.len() as int) =~= buffer);
    assert forall|k: int| 0 <= k < chunks.len() implies 0 < (#[trigger] chunks[k]).len()
        <= size by {
        assert(0 <= chunk_start(k, size) < chunk_end(k, buffer.len(), size) <= buffer.len());
    }
    assert forall|k: int| 0 <= k < chunks.len() - 1 implies (#[trigger] chunks[k]).len()
        == size by {
        assert(0 <= chunk_start(k, size) < chunk_end(k, buffer.len(), size) <= buffer.len());
    }
}

} // verus!
