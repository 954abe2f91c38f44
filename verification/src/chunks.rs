//! Cutting a long stereo signal into overlapping chunks of bounded length.
use vstd::arithmetic::div_mod::lemma_fundamental_div_mod;
use vstd::prelude::*;

verus! {

broadcast use vstd::seq_lib::group_seq_properties;

/// A stretch of a stereo signal.
pub struct AudioChunk<T> {
    pub left: Vec<T>,
    pub right: Vec<T>,
    /// The position of the chunk's first sample in the signal.
    pub start: usize,
    /// The number of samples of the signal that the chunk covers.
    pub actual_len: usize,
}

/// The number of chunks that a signal of `total` samples is cut into: the
/// fewest whose last one reaches the end.
pub open spec fn chunk_count(total: int, chunk_size: int, overlap: int) -> int {
    if total <= chunk_size {
        1
    } else {
        let step = chunk_size - overlap;
        (total - chunk_size + step - 1) / step + 1
    }
}

/// The position of the first sample of chunk `i`.
pub open spec fn chunk_start(i: int, chunk_size: int, overlap: int) -> int {
    i * (chunk_size - overlap)
}

/// The position behind the last sample of chunk `i`.
pub open spec fn chunk_end(i: int, total: int, chunk_size: int, overlap: int) -> int {
    let full = chunk_start(i, chunk_size, overlap) + chunk_size;
    if full <= total {
        full
    } else {
        total
    }
}

/// Whether `chunk` is chunk `i` of a signal that needs more than one.
pub open spec fn is_chunk<T>(
    chunk: AudioChunk<T>,
    i: int,
    left: Seq<T>,
    right: Seq<T>,
    chunk_size: int,
    overlap: int,
) -> bool {
    let start = chunk_start(i, chunk_size, overlap);
    let end = chunk_end(i, left.len() as int, chunk_size, overlap);
    &&& chunk.start == start
    &&& chunk.actual_len == end - start
    &&& chunk.left@ == left.subrange(start, end)
    &&& chunk.right@ == right.subrange(start, end)
}

/// Whether cutting is defined: chunks overlap by less than their size, and the
/// right channel reaches as far as the left.
pub open spec fn can_cut(left: int, right: int, chunk_size: int, overlap: int) -> bool {
    left > chunk_size ==> 0 <= overlap < chunk_size && right >= left
}

/// Whether `chunks` are what a signal is cut into.
pub open spec fn are_chunks<T>(
    chunks: Seq<AudioChunk<T>>,
    left: Seq<T>,
    right: Seq<T>,
    chunk_size: int,
    overlap: int,
) -> bool {
    &&& chunks.len() == chunk_count(left.len() as int, chunk_size, overlap)
    &&& if left.len() <= chunk_size {
        &&& chunks[0].start == 0
        &&& chunks[0].actual_len == left.len()
        &&& chunks[0].left@ == left
        &&& chunks[0].right@ == right
    } else {
        forall|i: int|
            0 <= i < chunks.len() ==> is_chunk(
                #[trigger] chunks[i],
                i,
                left,
                right,
                chunk_size,
                overlap,
            )
    }
}

/// The last chunk is the first that reaches the end of the signal.
pub proof fn law_last_chunk_reaches_end(total: int, chunk_size: int, overlap: int, i: int)
    requires
        0 <= overlap < chunk_size < total,
        0 <= i,
    ensures
        i < chunk_count(total, chunk_size, overlap) - 1 <==> chunk_start(i, chunk_size, overlap)
            + chunk_size < total,
{
    let step = chunk_size - overlap;
    let rest = total - chunk_size;
    let c = (rest + step - 1) / step;
    lemma_fundamental_div_mod(rest + step - 1, step);
    let r = (rest + step - 1) % step;
    if i < c {
        assert(i * step <= (c - 1) * step) by (nonlinear_arith)
            requires
                i <= c - 1,
                step > 0,
        ;
        assert((c - 1) * step == step * c - step) by (nonlinear_arith);
        assert(i * step <= rest - 1);
    } else {
        assert(i * step >= c * step) by (nonlinear_arith)
            requires
                i >= c,
                step > 0,
        ;
        assert(c * step == step * c) by (nonlinear_arith);
        assert(i * step >= rest);
    }
}

/// Neighbouring chunks share exactly `overlap` samples.
pub proof fn law_neighbours_overlap(total: int, chunk_size: int, overlap: int, i: int)
    requires
        0 <= overlap < chunk_size < total,
        0 <= i < chunk_count(total, chunk_size, overlap) - 1,
    ensures
        chunk_end(i, total, chunk_size, overlap) - chunk_start(i + 1, chunk_size, overlap)
            == overlap,
        chunk_end(i, total, chunk_size, overlap) < chunk_end(i + 1, total, chunk_size, overlap),
{
    law_last_chunk_reaches_end(total, chunk_size, overlap, i);
    let step = chunk_size - overlap;
    assert((i + 1) * step == i * step + step) by (nonlinear_arith);
}

/// Chunks know where they were taken from: each holds, sample by sample, what
/// the signal holds from its start on; the first starts at the beginning, each
/// later one `overlap` samples before the one in front of it ends, and all but
/// the last are full and end before the signal does.
pub proof fn law_chunks_know_their_place<T>(
    chunks: Seq<AudioChunk<T>>,
    left: Seq<T>,
    right: Seq<T>,
    chunk_size: int,
    overlap: int,
    i: int,
)
    requires
        left.len() > chunk_size ==> 0 <= overlap < chunk_size && right.len() >= left.len(),
        are_chunks(chunks, left, right, chunk_size, overlap),
        0 <= i < chunks.len(),
    ensures
        chunks[i].start + chunks[i].actual_len <= left.len(),
        chunks[i].left@.len() == chunks[i].actual_len,
        chunks[i].right@.len() == (if left.len() > chunk_size {
            chunks[i].actual_len as int
        } else {
            right.len() as int
        }),
        forall|k: int|
            0 <= k < chunks[i].actual_len ==> #[trigger] chunks[i].left@[k] == left[chunks[i].start
                + k],
        forall|k: int|
            0 <= k < chunks[i].right@.len() ==> #[trigger] chunks[i].right@[k]
                == right[chunks[i].start + k],
        i == 0 ==> chunks[i].start == 0,
        i + 1 < chunks.len() ==> {
            &&& chunks[i].actual_len == chunk_size
            &&& chunks[i].start + chunks[i].actual_len < left.len()
            &&& chunks[i].start + chunks[i].actual_len == chunks[i + 1].start + overlap
        },
        i + 1 == chunks.len() ==> chunks[i].start + chunks[i].actual_len == left.len()
            && chunks[i].actual_len <= chunk_size,
{
    if left.len() > chunk_size {
        let total = left.len() as int;
        let step = chunk_size - overlap;
        assert(is_chunk(chunks[i], i, left, right, chunk_size, overlap));
        assert(0 <= i * step) by (nonlinear_arith)
            requires
                0 <= i,
                0 < step,
        ;
        law_last_chunk_reaches_end(total, chunk_size, overlap, i);
        if i == 0 {
            assert(chunk_start(i, chunk_size, overlap) == 0) by (nonlinear_arith)
                requires
                    i == 0,
            ;
        } else {
            law_last_chunk_reaches_end(total, chunk_size, overlap, i - 1);
            assert((i - 1) * step == i * step - step) by (nonlinear_arith);
        }
        if i + 1 < chunks.len() {
            assert(is_chunk(chunks[i + 1], i + 1, left, right, chunk_size, overlap));
            assert((i + 1) * step == i * step + step) by (nonlinear_arith);
        }
    }
}

/// There is always a chunk.
pub proof fn law_there_is_a_chunk<T>(
    chunks: Seq<AudioChunk<T>>,
    left: Seq<T>,
    right: Seq<T>,
    chunk_size: int,
    overlap: int,
)
    requires
        left.len() > chunk_size ==> 0 <= overlap < chunk_size && right.len() >= left.len(),
        are_chunks(chunks, left, right, chunk_size, overlap),
    ensures
        chunks.len() >= 1,
{
    if left.len() > chunk_size {
        law_last_chunk_reaches_end(left.len() as int, chunk_size, overlap, 0);
        assert(chunk_start(0, chunk_size, overlap) == 0) by (nonlinear_arith);
    }
}

/// Pieces put together again: the first one, and of every later one what lies
/// behind the overlap.
pub open spec fn reassembled<T>(pieces: Seq<Seq<T>>, overlap: int) -> Seq<T>
    decreases pieces.len(),
{
    if pieces.len() == 0 {
        Seq::empty()
    } else if pieces.len() == 1 {
        pieces[0]
    } else {
        reassembled(pieces.drop_last(), overlap) + pieces.last().skip(overlap)
    }
}

/// The left channels of `chunks`.
pub open spec fn left_pieces<T>(chunks: Seq<AudioChunk<T>>) -> Seq<Seq<T>> {
    Seq::new(chunks.len(), |i: int| chunks[i].left@)
}

/// The right channels of `chunks`.
pub open spec fn right_pieces<T>(chunks: Seq<AudioChunk<T>>) -> Seq<Seq<T>> {
    Seq::new(chunks.len(), |i: int| chunks[i].right@)
}

proof fn lemma_reassembled_prefix<T>(
    pieces: Seq<Seq<T>>,
    signal: Seq<T>,
    total: int,
    chunk_size: int,
    overlap: int,
    count: int,
)
    requires
        0 <= overlap < chunk_size < total <= signal.len(),
        pieces.len() == chunk_count(total, chunk_size, overlap),
        forall|i: int|
            0 <= i < pieces.len() ==> #[trigger] pieces[i] == signal.subrange(
                chunk_start(i, chunk_size, overlap),
                chunk_end(i, total, chunk_size, overlap),
            ),
        1 <= count <= pieces.len(),
    ensures
        reassembled(pieces.take(count), overlap) == signal.take(
            chunk_end(count - 1, total, chunk_size, overlap),
        ),
    decreases count,
{
    let some = pieces.take(count);
    let i = count - 1;
    let start = chunk_start(i, chunk_size, overlap);
    let end = chunk_end(i, total, chunk_size, overlap);
    assert(pieces[i] == signal.subrange(start, end));
    if count == 1 {
        assert(start == 0) by (nonlinear_arith)
            requires
                start == i * (chunk_size - overlap),
                i == 0,
        ;
        assert(signal.subrange(0, end) =~= signal.take(end));
    } else {
        lemma_reassembled_prefix(pieces, signal, total, chunk_size, overlap, count - 1);
        law_neighbours_overlap(total, chunk_size, overlap, i - 1);
        assert(some.drop_last() =~= pieces.take(count - 1));
        let prev = chunk_end(i - 1, total, chunk_size, overlap);
        assert(0 <= start) by (nonlinear_arith)
            requires
                start == i * (chunk_size - overlap),
                i >= 0,
                chunk_size > overlap,
        ;
        assert(signal.subrange(start, end).skip(overlap) =~= signal.subrange(prev, end));
        assert(signal.take(prev) + signal.subrange(prev, end) =~= signal.take(end));
    }
}

proof fn lemma_reassembled<T>(
    pieces: Seq<Seq<T>>,
    signal: Seq<T>,
    total: int,
    chunk_size: int,
    overlap: int,
)
    requires
        0 <= overlap < chunk_size < total <= signal.len(),
        pieces.len() == chunk_count(total, chunk_size, overlap),
        forall|i: int|
            0 <= i < pieces.len() ==> #[trigger] pieces[i] == signal.subrange(
                chunk_start(i, chunk_size, overlap),
                chunk_end(i, total, chunk_size, overlap),
            ),
    ensures
        reassembled(pieces, overlap) == signal.take(total),
{
    let count = pieces.len() as int;
    law_last_chunk_reaches_end(total, chunk_size, overlap, 0);
    law_last_chunk_reaches_end(total, chunk_size, overlap, count - 1);
    assert(chunk_start(0, chunk_size, overlap) == 0) by (nonlinear_arith);
    lemma_reassembled_prefix(pieces, signal, total, chunk_size, overlap, count);
    assert(pieces.take(count) =~= pieces);
}

/// Nothing is lost in cutting: the chunks put together again are the signal,
/// the right channel as far as the left one reaches.
pub proof fn law_chunks_reassemble<T>(
    chunks: Seq<AudioChunk<T>>,
    left: Seq<T>,
    right: Seq<T>,
    chunk_size: int,
    overlap: int,
)
    requires
        can_cut(left.len() as int, right.len() as int, chunk_size, overlap),
        are_chunks(chunks, left, right, chunk_size, overlap),
    ensures
        reassembled(left_pieces(chunks), overlap) == left,
        reassembled(right_pieces(chunks), overlap) == if left.len() > chunk_size {
            right.take(left.len() as int)
        } else {
            right
        },
{
    if left.len() > chunk_size {
        let total = left.len() as int;
        lemma_reassembled(left_pieces(chunks), left, total, chunk_size, overlap);
        lemma_reassembled(right_pieces(chunks), right, total, chunk_size, overlap);
        assert(left.take(total) =~= left);
    }
}

/// Copies the samples from `from` up to `to`.
fn copied<T: Copy>(signal: &[T], from: usize, to: usize) -> (out: Vec<T>)
    requires
        from <= to <= signal@.len(),
    ensures
        out@ == signal@.subrange(from as int, to as int),
{
    vstd::slice::slice_to_vec(vstd::slice::slice_subrange(signal, from, to))
}

/// Cuts a stereo signal into chunks of at most `chunk_size` samples, each of
/// which begins with the last `overlap` samples of the one before it.
///
/// A signal that fits one chunk is handed on whole, both channels as they are.
pub fn build_chunks<T: Copy>(
    left: &[T],
    right: &[T],
    chunk_size: usize,
    overlap: usize,
) -> (chunks: Vec<AudioChunk<T>>)
    requires
        can_cut(left@.len() as int, right@.len() as int, chunk_size as int, overlap as int),
    ensures
        are_chunks(chunks@, left@, right@, chunk_size as int, overlap as int),
{
    let total: usize = left.len();
    let mut chunks: Vec<AudioChunk<T>> = Vec::new();
    if total <= chunk_size {
        let whole: AudioChunk<T> = AudioChunk {
            left: copied(left, 0, total),
            right: copied(right, 0, right.len()),
            start: 0,
            actual_len: total,
        };
        assert(whole.left@ =~= left@);
        assert(whole.right@ =~= right@);
        chunks.push(whole);
        return chunks;
    }
    let step: usize = chunk_size - overlap;
    let ghost count = chunk_count(total as int, chunk_size as int, overlap as int);
    let mut pos: usize = 0;
    assert(chunk_start(0, chunk_size as int, overlap as int) == 0) by (nonlinear_arith);
    loop
        invariant_except_break
            pos == chunk_start(chunks@.len() as int, chunk_size as int, overlap as int),
            chunks@.len() < count,
        invariant
            total == left@.len(),
            total <= right@.len(),
            overlap < chunk_size < total,
            step == chunk_size - overlap,
            pos < total,
            count == chunk_count(total as int, chunk_size as int, overlap as int),
            forall|i: int|
                0 <= i < chunks@.len() ==> is_chunk(
                    #[trigger] chunks@[i],
                    i,
                    left@,
                    right@,
                    chunk_size as int,
                    overlap as int,
                ),
        ensures
            chunks@.len() == count,
        decreases total - pos,
    {
        let ghost i = chunks@.len() as int;
        let end: usize = if chunk_size < total - pos {
            pos + chunk_size
        } else {
            total
        };
        let actual_len: usize = end - pos;
        chunks.push(
            AudioChunk {
                left: copied(left, pos, end),
                right: copied(right, pos, end),
                start: pos,
                actual_len,
            },
        );
        assert(is_chunk(chunks@[i], i, left@, right@, chunk_size as int, overlap as int));
        proof {
            law_last_chunk_reaches_end(total as int, chunk_size as int, overlap as int, i);
            assert((i + 1) * step == i * step + step) by (nonlinear_arith);
        }
        if end == total {
            break;
        }
        pos = pos + step;
    }
    chunks
}

} // verus!
