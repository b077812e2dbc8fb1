//! Splitting text into fixed-size windows that overlap.
//!
//! A text of `len` characters is cut into windows of `chunk_size` characters.
//! Each window starts `chunk_size - chunk_overlap` characters after the one
//! before it, so two neighbours share exactly `chunk_overlap` characters. The
//! last window ends where the text ends and may be shorter.

use vstd::prelude::*;

verus! {

/// Why a text could not be chunked.
#[derive(Debug, Clone, Copy, PartialEq, Eq, Structural)]
pub enum ChunkError {
    /// The overlap is not smaller than the chunk size, so the window would
    /// never advance.
    OverlapNotBelowSize,
}

impl ChunkError {
    /// A sentence for the caller's error report.
    pub fn message(&self) -> (text: String)
        ensures
            text@ == "chunk_overlap must be smaller than chunk_size"@,
    {
        String::from_str("chunk_overlap must be smaller than chunk_size")
    }
}

/// The parameters with which a text can be chunked.
pub open spec fn valid_params(chunk_size: int, chunk_overlap: int) -> bool {
    0 <= chunk_overlap < chunk_size
}

/// Distance between the starts of two consecutive chunks.
pub open spec fn stride(chunk_size: int, chunk_overlap: int) -> int {
    chunk_size - chunk_overlap
}

/// Number of chunks of a text of `len` characters: one when the text fits in
/// a single chunk, else `(len - overlap) / stride`, rounded up.
pub open spec fn chunk_count(len: int, chunk_size: int, chunk_overlap: int) -> int {
    if len <= chunk_size {
        1
    } else {
        (len - chunk_overlap + stride(chunk_size, chunk_overlap) - 1) / stride(
            chunk_size,
            chunk_overlap,
        )
    }
}

/// Position in the text of the first character of chunk `i`.
pub open spec fn chunk_start(i: int, chunk_size: int, chunk_overlap: int) -> int {
    i * stride(chunk_size, chunk_overlap)
}

/// Position in the text just behind the last character of chunk `i`.
pub open spec fn chunk_end(len: int, i: int, chunk_size: int, chunk_overlap: int) -> int {
    let full = chunk_start(i, chunk_size, chunk_overlap) + chunk_size;
    if full <= len {
        full
    } else {
        len
    }
}

/// Chunk `i` of `text`.
pub open spec fn chunk_at(text: Seq<char>, i: int, chunk_size: int, chunk_overlap: int) -> Seq<
    char,
> {
    text.subrange(
        chunk_start(i, chunk_size, chunk_overlap),
        chunk_end(text.len() as int, i, chunk_size, chunk_overlap),
    )
}

/// All chunks of `text`, in the order of the text.
pub open spec fn chunks_of(text: Seq<char>, chunk_size: int, chunk_overlap: int) -> Seq<
    Seq<char>,
> {
    Seq::new(
        chunk_count(text.len() as int, chunk_size, chunk_overlap) as nat,
        |i: int| chunk_at(text, i, chunk_size, chunk_overlap),
    )
}

/// The texts that a vector of strings holds.
pub open spec fn texts_of(strings: Seq<String>) -> Seq<Seq<char>> {
    Seq::new(strings.len(), |i: int| strings[i]@)
}

/// The text that chunks stand for: the first chunk whole, then each later
/// chunk without the `chunk_overlap` characters it repeats.
pub open spec fn reassemble(chunks: Seq<Seq<char>>, chunk_overlap: int) -> Seq<char>
    decreases chunks.len(),
{
    if chunks.len() == 0 {
        Seq::empty()
    } else if chunks.len() == 1 {
        chunks[0]
    } else {
        reassemble(chunks.drop_last(), chunk_overlap) + chunks.last().skip(chunk_overlap)
    }
}

/// Bounds on a quotient rounded up.
pub proof fn lemma_round_up_bounds(x: int, d: int)
    requires
        d > 0,
    ensures
        ((x + d - 1) / d - 1) * d < x <= ((x + d - 1) / d) * d,
{
    let q = (x + d - 1) / d;
    assert((q - 1) * d < x <= q * d) by (nonlinear_arith)
        requires
            d > 0,
            q == (x + d - 1) / d,
    ;
}

/// Every chunk but the first starts inside the text, with more than the
/// overlap left to read; and only the last chunk reaches the end of the text.
pub proof fn lemma_chunk_position(len: int, chunk_size: int, chunk_overlap: int, i: int)
    requires
        valid_params(chunk_size, chunk_overlap),
        0 <= len,
        0 <= i < chunk_count(len, chunk_size, chunk_overlap),
    ensures
        0 <= chunk_start(i, chunk_size, chunk_overlap) <= len,
        i > 0 ==> chunk_start(i, chunk_size, chunk_overlap) + chunk_overlap < len,
        i + 1 < chunk_count(len, chunk_size, chunk_overlap) ==> chunk_start(
            i,
            chunk_size,
            chunk_overlap,
        ) + chunk_size < len,
        i + 1 == chunk_count(len, chunk_size, chunk_overlap) ==> chunk_end(
            len,
            i,
            chunk_size,
            chunk_overlap,
        ) == len,
        chunk_start(i + 1, chunk_size, chunk_overlap) == chunk_start(i, chunk_size, chunk_overlap)
            + stride(chunk_size, chunk_overlap),
{
    let d = stride(chunk_size, chunk_overlap);
    let n = chunk_count(len, chunk_size, chunk_overlap);
    assert((i + 1) * d == i * d + d) by (nonlinear_arith);
    assert(0 <= i * d) by (nonlinear_arith)
        requires
            0 <= i,
            0 < d,
    ;
    if len <= chunk_size {
        assert(i == 0);
        assert(0 * d == 0);
    } else {
        let x = len - chunk_overlap;
        lemma_round_up_bounds(x, d);
        assert(i * d <= (n - 1) * d) by (nonlinear_arith)
            requires
                i <= n - 1,
                0 < d,
        ;
        if i + 1 < n {
            assert((i + 1) * d <= (n - 1) * d) by (nonlinear_arith)
                requires
                    i + 1 <= n - 1,
                    0 < d,
            ;
        }
        if i + 1 == n {
            assert((i + 1) * d == n * d);
        }
    }
}

/// No chunk is longer than the chunk size.
pub proof fn lemma_chunk_len(text: Seq<char>, chunk_size: int, chunk_overlap: int, i: int)
    requires
        valid_params(chunk_size, chunk_overlap),
        0 <= i < chunks_of(text, chunk_size, chunk_overlap).len(),
    ensures
        chunks_of(text, chunk_size, chunk_overlap)[i].len() <= chunk_size,
        chunks_of(text, chunk_size, chunk_overlap)[i].len() == chunk_end(
            text.len() as int,
            i,
            chunk_size,
            chunk_overlap,
        ) - chunk_start(i, chunk_size, chunk_overlap),
{
    lemma_chunk_count_positive(text.len() as int, chunk_size, chunk_overlap);
    lemma_chunk_position(text.len() as int, chunk_size, chunk_overlap, i);
}

/// Every text has at least one chunk.
pub proof fn lemma_chunk_count_positive(len: int, chunk_size: int, chunk_overlap: int)
    requires
        valid_params(chunk_size, chunk_overlap),
        0 <= len,
    ensures
        chunk_count(len, chunk_size, chunk_overlap) >= 1,
        len <= chunk_size ==> chunk_count(len, chunk_size, chunk_overlap) == 1,
{
    if len > chunk_size {
        let d = stride(chunk_size, chunk_overlap);
        lemma_round_up_bounds(len - chunk_overlap, d);
        let n = chunk_count(len, chunk_size, chunk_overlap);
        assert(n >= 1) by (nonlinear_arith)
            requires
                len - chunk_overlap <= n * d,
                len - chunk_overlap > 0,
                d > 0,
        ;
    }
}

/// A text that fits in one chunk is its own single chunk.
pub proof fn lemma_short_text_is_one_chunk(text: Seq<char>, chunk_size: int, chunk_overlap: int)
    requires
        valid_params(chunk_size, chunk_overlap),
        text.len() <= chunk_size,
    ensures
        chunks_of(text, chunk_size, chunk_overlap) == seq![text],
{
    let d = stride(chunk_size, chunk_overlap);
    assert(0 * d == 0);
    assert(chunk_at(text, 0, chunk_size, chunk_overlap) =~= text);
    assert(chunks_of(text, chunk_size, chunk_overlap) =~= seq![text]);
}

/// Two neighbouring chunks share exactly `chunk_overlap` characters: the
/// later one begins with the characters that the earlier one has behind its
/// first `stride`.
pub proof fn lemma_neighbours_overlap(text: Seq<char>, chunk_size: int, chunk_overlap: int, i: int)
    requires
        valid_params(chunk_size, chunk_overlap),
        0 <= i,
        i + 1 < chunks_of(text, chunk_size, chunk_overlap).len(),
    ensures
        chunks_of(text, chunk_size, chunk_overlap)[i].len() == chunk_size,
        chunks_of(text, chunk_size, chunk_overlap)[i + 1].len() > chunk_overlap,
        chunks_of(text, chunk_size, chunk_overlap)[i].skip(stride(chunk_size, chunk_overlap))
            == chunks_of(text, chunk_size, chunk_overlap)[i + 1].take(chunk_overlap),
{
    let len = text.len() as int;
    lemma_chunk_position(len, chunk_size, chunk_overlap, i);
    lemma_chunk_position(len, chunk_size, chunk_overlap, i + 1);
    let a = chunk_at(text, i, chunk_size, chunk_overlap);
    let b = chunk_at(text, i + 1, chunk_size, chunk_overlap);
    assert(a.skip(stride(chunk_size, chunk_overlap)) =~= b.take(chunk_overlap));
}

/// The first `k` chunks stand for the text up to the end of chunk `k - 1`.
proof fn lemma_reassemble_prefix(text: Seq<char>, chunk_size: int, chunk_overlap: int, k: int)
    requires
        valid_params(chunk_size, chunk_overlap),
        1 <= k <= chunks_of(text, chunk_size, chunk_overlap).len(),
    ensures
        reassemble(chunks_of(text, chunk_size, chunk_overlap).take(k), chunk_overlap)
            == text.subrange(0, chunk_end(text.len() as int, k - 1, chunk_size, chunk_overlap)),
    decreases k,
{
    let len = text.len() as int;
    let all = chunks_of(text, chunk_size, chunk_overlap);
    let head = all.take(k);
    lemma_chunk_position(len, chunk_size, chunk_overlap, k - 1);
    if k == 1 {
        assert(0 * stride(chunk_size, chunk_overlap) == 0);
        assert(head[0] =~= text.subrange(0, chunk_end(len, 0, chunk_size, chunk_overlap)));
    } else {
        lemma_reassemble_prefix(text, chunk_size, chunk_overlap, k - 1);
        lemma_chunk_position(len, chunk_size, chunk_overlap, k - 2);
        assert(head.drop_last() =~= all.take(k - 1));
        assert(head.last() == chunk_at(text, k - 1, chunk_size, chunk_overlap));
        assert(reassemble(head, chunk_overlap) == reassemble(all.take(k - 1), chunk_overlap)
            + head.last().skip(chunk_overlap));
        assert(text.subrange(0, chunk_end(len, k - 2, chunk_size, chunk_overlap))
            + head.last().skip(chunk_overlap) =~= text.subrange(
            0,
            chunk_end(len, k - 1, chunk_size, chunk_overlap),
        ));
    }
}

/// Chunking loses nothing: the chunks of a text, with the repeated
/// characters taken out, are the text again; there are as many of them as
/// `chunk_count` says; and none is longer than the chunk size.
pub proof fn lemma_chunks_reconstruct(text: Seq<char>, chunk_size: int, chunk_overlap: int)
    requires
        valid_params(chunk_size, chunk_overlap),
    ensures
        reassemble(chunks_of(text, chunk_size, chunk_overlap), chunk_overlap) == text,
        chunks_of(text, chunk_size, chunk_overlap).len() == chunk_count(
            text.len() as int,
            chunk_size,
            chunk_overlap,
        ),
        forall|i: int|
            0 <= i < chunks_of(text, chunk_size, chunk_overlap).len() ==> (#[trigger] chunks_of(
                text,
                chunk_size,
                chunk_overlap,
            )[i]).len() <= chunk_size,
{
    let len = text.len() as int;
    let all = chunks_of(text, chunk_size, chunk_overlap);
    lemma_chunk_count_positive(len, chunk_size, chunk_overlap);
    let n = all.len() as int;
    lemma_reassemble_prefix(text, chunk_size, chunk_overlap, n);
    lemma_chunk_position(len, chunk_size, chunk_overlap, n - 1);
    assert(all.take(n) =~= all);
    assert(text.subrange(0, len) =~= text);
    assert forall|i: int| 0 <= i < all.len() implies (#[trigger] all[i]).len() <= chunk_size by {
        lemma_chunk_len(text, chunk_size, chunk_overlap, i);
    }
}

/// Cuts `text` into chunks of `chunk_size` characters, each starting
/// `chunk_size - chunk_overlap` characters after the one before.
///
/// Fails exactly when the overlap is not below the chunk size (a chunk size
/// of zero included). Otherwise the result is `chunks_of`: `chunk_count`
/// chunks in the order of the text, none longer than `chunk_size`, which
/// give the text back when the repeated characters are taken out.
pub fn chunk_text(text: &str, chunk_size: usize, chunk_overlap: usize) -> (res: Result<
    Vec<String>,
    ChunkError,
>)
    ensures
        res is Err <==> chunk_overlap >= chunk_size,
        res is Err ==> res == Err::<Vec<String>, ChunkError>(ChunkError::OverlapNotBelowSize),
        res matches Ok(chunks) ==> texts_of(chunks@) == chunks_of(
            text@,
            chunk_size as int,
            chunk_overlap as int,
        ),
        res matches Ok(chunks) ==> {
            &&& chunks@.len() == chunk_count(
                text@.len() as int,
                chunk_size as int,
                chunk_overlap as int,
            )
            &&& forall|i: int| 0 <= i < chunks@.len() ==> (#[trigger] chunks@[i])@.len() <= chunk_size
            &&& reassemble(texts_of(chunks@), chunk_overlap as int) == text@
        },
{
    if chunk_overlap >= chunk_size {
        return Err(ChunkError::OverlapNotBelowSize);
    }
    let len: usize = text.unicode_len();
    let step: usize = chunk_size - chunk_overlap;
    let mut chunks: Vec<String> = Vec::new();
    let mut start: usize = 0;
    let ghost size = chunk_size as int;
    let ghost overlap = chunk_overlap as int;
    let ghost count = chunk_count(len as int, size, overlap);
    proof {
        lemma_chunk_count_positive(len as int, size, overlap);
        assert(0 * stride(size, overlap) == 0);
    }
    while len - start > chunk_size
        invariant
            valid_params(size, overlap),
            size == chunk_size,
            overlap == chunk_overlap,
            step == chunk_size - chunk_overlap,
            len == text@.len(),
            count == chunk_count(len as int, size, overlap),
            start <= len,
            chunks@.len() < count,
            start == chunk_start(chunks@.len() as int, size, overlap),
            forall|j: int|
                0 <= j < chunks@.len() ==> (#[trigger] chunks@[j])@ == chunk_at(
                    text@,
                    j,
                    size,
                    overlap,
                ),
        decreases len - start,
    {
        proof {
            lemma_chunk_position(len as int, size, overlap, chunks@.len() as int);
        }
        let piece = String::from_str(text.substring_char(start, start + chunk_size));
        chunks.push(piece);
        start = start + step;
    }
    proof {
        lemma_chunk_position(len as int, size, overlap, chunks@.len() as int);
    }
    let piece = String::from_str(text.substring_char(start, len));
    chunks.push(piece);
    proof {
        assert(texts_of(chunks@) =~= chunks_of(text@, size, overlap));
        lemma_chunks_reconstruct(text@, size, overlap);
        assert forall|i: int| 0 <= i < chunks@.len() implies (#[trigger] chunks@[i])@.len()
            <= chunk_size by {
            assert(chunks@[i]@ == texts_of(chunks@)[i]);
        }
    }
    Ok(chunks)
}

} // verus!
