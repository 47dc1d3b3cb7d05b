use fastcarve::chunk::{build_chunks, chunk_count, ChunkIter, ScanChunk};

fn drain(mut iter: ChunkIter) -> Vec<ScanChunk> {
    let mut out = Vec::new();
    while let Some(c) = iter.next() {
        out.push(c);
    }
    out
}

#[test]
fn builds_chunks_with_overlap() {
    let chunks = build_chunks(100, 40, 10);
    assert_eq!(chunks.len(), 3);
    assert_eq!(chunks[0].start, 0);
    assert_eq!(chunks[0].length, 50);
    assert_eq!(chunks[0].valid_length, 40);
    assert_eq!(chunks[1].start, 40);
    assert_eq!(chunks[1].length, 50);
    assert_eq!(chunks[1].valid_length, 40);
    assert_eq!(chunks[2].start, 80);
    assert_eq!(chunks[2].length, 20);
    assert_eq!(chunks[2].valid_length, 20);
}

#[test]
fn chunk_iter_matches_build_chunks() {
    let cases = [
        (0, 64, 0),
        (1, 64, 0),
        (100, 40, 10),
        (100, 40, 0),
        (257, 64, 16),
    ];

    for (total_len, chunk_size, overlap) in cases {
        let expected = build_chunks(total_len, chunk_size, overlap);
        let got: Vec<ScanChunk> = drain(ChunkIter::new(total_len, chunk_size, overlap));
        assert_eq!(got, expected);
    }
}

#[test]
fn chunk_count_matches_build_chunks() {
    let cases = [(0, 64), (1, 64), (128, 64), (129, 64), (257, 64)];
    for (total_len, chunk_size) in cases {
        let expected = build_chunks(total_len, chunk_size, 0).len() as u64;
        assert_eq!(chunk_count(total_len, chunk_size), expected);
    }
}

#[test]
fn chunk_iter_empty_when_chunk_size_zero() {
    let mut iter = ChunkIter::new(100, 0, 0);
    assert!(iter.next().is_none());
    assert_eq!(chunk_count(100, 0), 0);
}

#[test]
fn valid_lengths_add_up_to_total() {
    for (total_len, chunk_size, overlap) in [(100u64, 40u64, 10u64), (257, 64, 16), (64, 64, 8), (1, 7, 3)] {
        let chunks = build_chunks(total_len, chunk_size, overlap);
        let sum: u64 = chunks.iter().map(|c| c.valid_length).sum();
        assert_eq!(sum, total_len);
        for w in chunks.windows(2) {
            assert_eq!(w[1].start, w[0].start + w[0].valid_length);
            assert_eq!(w[1].id, w[0].id + 1);
        }
    }
}

#[test]
fn planning_twice_gives_the_same_plan() {
    assert_eq!(build_chunks(1000, 96, 17), build_chunks(1000, 96, 17));
}

#[test]
fn last_owned_byte_is_covered_by_overlap() {
    // A 4-byte magic starting at the last owned byte of chunk 0.
    let chunks = build_chunks(100, 40, 8);
    let offset = chunks[0].start + chunks[0].valid_length - 1;
    let owner = &chunks[0];
    assert!(offset + 4 <= owner.start + owner.length);
}

#[test]
fn chunk_count_is_rounded_up_quotient() {
    assert_eq!(chunk_count(u64::MAX, 2), 1u64 << 63);
    assert_eq!(chunk_count(10, 3), 4);
    assert_eq!(chunk_count(9, 3), 3);
}
