use limedl_core::manifest::{adaptive_chunk_size, plan_chunks, CHUNK_SIZE};

#[test]
fn plans_stable_chunk_boundaries() {
    let chunks = plan_chunks(Some(16 * 1024 * 1024), true, CHUNK_SIZE);

    assert_eq!(chunks.len(), 4);
    assert_eq!(chunks[0].start, 0);
    assert_eq!(chunks[0].end, CHUNK_SIZE - 1);
    assert_eq!(chunks[3].start, CHUNK_SIZE * 3);
    assert_eq!(chunks[3].end, 16 * 1024 * 1024 - 1);
}

#[test]
fn adaptive_chunk_size_zero() {
    assert_eq!(adaptive_chunk_size(0), 4 * 1024 * 1024);
}

#[test]
fn adaptive_chunk_size_4_mib() {
    assert_eq!(adaptive_chunk_size(4 * 1024 * 1024), 4 * 1024 * 1024);
}

#[test]
fn adaptive_chunk_size_16_mib() {
    assert_eq!(adaptive_chunk_size(16 * 1024 * 1024), 4 * 1024 * 1024);
}

#[test]
fn adaptive_chunk_size_17_mib() {
    assert_eq!(adaptive_chunk_size(17 * 1024 * 1024), 4 * 1024 * 1024);
}

#[test]
fn adaptive_chunk_size_256_mib() {
    assert_eq!(adaptive_chunk_size(256 * 1024 * 1024), 4 * 1024 * 1024);
}

#[test]
fn adaptive_chunk_size_257_mib() {
    assert_eq!(adaptive_chunk_size(257 * 1024 * 1024), 8 * 1024 * 1024);
}

#[test]
fn adaptive_chunk_size_4gib_minus_1() {
    assert_eq!(
        adaptive_chunk_size(4 * 1024 * 1024 * 1024 - 1),
        8 * 1024 * 1024
    );
}

#[test]
fn adaptive_chunk_size_4gib() {
    assert_eq!(
        adaptive_chunk_size(4 * 1024 * 1024 * 1024),
        16 * 1024 * 1024
    );
}

#[test]
fn adaptive_chunk_size_10_gib() {
    assert_eq!(
        adaptive_chunk_size(10 * 1024 * 1024 * 1024),
        16 * 1024 * 1024
    );
}

#[test]
fn plan_without_ranges_is_empty() {
    assert!(plan_chunks(Some(100), false, 10).is_empty());
    assert!(plan_chunks(None, true, 10).is_empty());
}

#[test]
fn plan_zero_chunk_size_uses_default() {
    let chunks = plan_chunks(Some(CHUNK_SIZE + 1), true, 0);
    assert_eq!(chunks.len(), 2);
    assert_eq!(chunks[1].start, CHUNK_SIZE);
    assert_eq!(chunks[1].end, CHUNK_SIZE);
}

#[test]
fn plan_covers_file_without_gaps() {
    let chunks = plan_chunks(Some(1001), true, 100);
    assert_eq!(chunks.len(), 11);
    for (i, c) in chunks.iter().enumerate() {
        assert_eq!(c.index, i);
        if i > 0 {
            assert_eq!(c.start, chunks[i - 1].end + 1);
        }
        assert!(!c.completed && c.downloaded == 0 && c.claimed_by.is_none());
    }
    assert_eq!(chunks[10].end, 1000);
}
