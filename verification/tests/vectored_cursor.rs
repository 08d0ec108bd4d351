use limedl_core::file_ops::{advance_cursor, next_batch, skip_written_slices, SliceCursor, MAX_IOV_BATCH};
use limedl_core::manager::cdn_host;

fn at(index: usize, offset: usize) -> SliceCursor {
    SliceCursor { index, offset }
}

#[test]
fn advance_within_and_across_slices() {
    let lens = vec![3, 0, 4, 2];
    assert_eq!(advance_cursor(&lens, at(0, 0), 2), at(0, 2));
    assert_eq!(advance_cursor(&lens, at(0, 2), 1), at(1, 0));
    assert_eq!(advance_cursor(&lens, at(0, 0), 5), at(2, 2));
    assert_eq!(advance_cursor(&lens, at(0, 0), 9), at(4, 0));
}

#[test]
fn skip_passes_empty_and_finished_slices() {
    let lens = vec![3, 0, 0, 4];
    assert_eq!(skip_written_slices(&lens, at(0, 3)), at(3, 0));
    assert_eq!(skip_written_slices(&lens, at(0, 1)), at(0, 1));
    assert_eq!(skip_written_slices(&vec![0, 0], at(0, 0)), at(2, 0));
}

#[test]
fn batches_hold_at_most_the_iov_limit() {
    let lens = vec![1usize; MAX_IOV_BATCH + 5];
    assert_eq!(next_batch(&lens, at(0, 0)), (MAX_IOV_BATCH, true));
    assert_eq!(next_batch(&lens, at(10, 0)), (MAX_IOV_BATCH + 5, true));
    assert_eq!(next_batch(&vec![2, 0], at(0, 2)), (2, false));
}

#[test]
fn cdn_host_only_when_enabled_and_cloudflare() {
    assert_eq!(cdn_host(true, true, "https://files.example.com/a.bin"), Some("files.example.com".to_string()));
    assert_eq!(cdn_host(false, true, "https://files.example.com/a.bin"), None);
    assert_eq!(cdn_host(true, false, "https://files.example.com/a.bin"), None);
    assert_eq!(cdn_host(true, true, "not a url"), None);
}
