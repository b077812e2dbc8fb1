use vectorize::chunker::chunk_text;
use vectorize::chunker::ChunkError;

fn rebuild(chunks: &[String], overlap: usize) -> String {
    let mut text = String::new();
    for (i, chunk) in chunks.iter().enumerate() {
        if i == 0 {
            text.push_str(chunk);
        } else {
            text.extend(chunk.chars().skip(overlap));
        }
    }
    text
}

fn expected_count(len: usize, size: usize, overlap: usize) -> usize {
    if len <= size {
        1
    } else {
        let step = size - overlap;
        (len - overlap + step - 1) / step
    }
}

#[test]
fn chunks_of_ten_letters_by_four_with_overlap_two() {
    let chunks = chunk_text("abcdefghij", 4, 2).unwrap();
    assert_eq!(chunks, vec!["abcd", "cdef", "efgh", "ghij"]);
}

#[test]
fn text_that_fits_is_one_chunk() {
    assert_eq!(chunk_text("abc", 4, 2).unwrap(), vec!["abc"]);
    assert_eq!(chunk_text("abcd", 4, 2).unwrap(), vec!["abcd"]);
}

#[test]
fn empty_text_is_one_empty_chunk() {
    assert_eq!(chunk_text("", 4, 2).unwrap(), vec![""]);
}

#[test]
fn without_overlap_chunks_tile_the_text() {
    assert_eq!(chunk_text("abcdefghij", 4, 0).unwrap(), vec!["abcd", "efgh", "ij"]);
    assert_eq!(chunk_text("abcdefgh", 4, 0).unwrap(), vec!["abcd", "efgh"]);
}

#[test]
fn last_chunk_may_be_shorter() {
    assert_eq!(chunk_text("abcdefghi", 4, 2).unwrap(), vec!["abcd", "cdef", "efgh", "ghi"]);
    assert_eq!(chunk_text("abcdefg", 5, 1).unwrap(), vec!["abcde", "efg"]);
}

#[test]
fn largest_overlap_advances_by_one() {
    assert_eq!(chunk_text("abcde", 3, 2).unwrap(), vec!["abc", "bcd", "cde"]);
}

#[test]
fn overlap_not_below_size_is_refused() {
    assert_eq!(chunk_text("abcdef", 4, 4), Err(ChunkError::OverlapNotBelowSize));
    assert_eq!(chunk_text("abcdef", 4, 9), Err(ChunkError::OverlapNotBelowSize));
    assert_eq!(chunk_text("", 4, 4), Err(ChunkError::OverlapNotBelowSize));
}

#[test]
fn chunk_size_zero_is_refused() {
    assert_eq!(chunk_text("abcdef", 0, 0), Err(ChunkError::OverlapNotBelowSize));
}

#[test]
fn chunk_error_has_a_message() {
    assert_eq!(
        ChunkError::OverlapNotBelowSize.message(),
        "chunk_overlap must be smaller than chunk_size"
    );
}

#[test]
fn chunks_count_characters_not_bytes() {
    let chunks = chunk_text("héllo wörld", 4, 1).unwrap();
    assert_eq!(chunks, vec!["héll", "lo w", "wörl", "ld"]);
}

#[test]
fn chunks_rebuild_the_text_and_keep_to_the_size() {
    let text = "The quick brown fox jumps over the lazy dog, twice.";
    let len = text.chars().count();
    for size in 1..12usize {
        for overlap in 0..size {
            let chunks = chunk_text(text, size, overlap).unwrap();
            assert_eq!(rebuild(&chunks, overlap), text);
            assert_eq!(chunks.len(), expected_count(len, size, overlap));
            for chunk in &chunks {
                assert!(chunk.chars().count() <= size);
            }
        }
    }
}

#[test]
fn chunk_count_is_the_rounded_up_quotient() {
    // 1000 characters, size 100, overlap 20: (1000 - 20) / 80 = 12.25, so 13
    let text = "x".repeat(1000);
    assert_eq!(chunk_text(&text, 100, 20).unwrap().len(), 13);
    // 180 characters: (180 - 20) / 80 = 2 exactly
    let text = "x".repeat(180);
    assert_eq!(chunk_text(&text, 100, 20).unwrap().len(), 2);
    // 181 characters: one more
    let text = "x".repeat(181);
    assert_eq!(chunk_text(&text, 100, 20).unwrap().len(), 3);
}

#[test]
fn neighbours_share_the_overlap() {
    let chunks = chunk_text("0123456789abcdef", 6, 2).unwrap();
    for pair in chunks.windows(2) {
        let tail: String = pair[0].chars().skip(4).collect();
        let head: String = pair[1].chars().take(2).collect();
        assert_eq!(tail, head);
    }
}

#[test]
fn chunking_is_deterministic() {
    assert_eq!(chunk_text("abcdefghij", 3, 1), chunk_text("abcdefghij", 3, 1));
}
