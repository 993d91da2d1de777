use cut_trailing_bytes::scanner::{compute_trim_boundary, scan_block, ScanState, BLOCK_SIZE};
use cut_trailing_bytes::truncation::truncation_length;

fn bytes_with_tail(len: usize, run_start: usize, fill: u8, target: u8) -> Vec<u8> {
    let mut v = vec![fill; len];
    for b in v.iter_mut().skip(run_start) {
        *b = target;
    }
    v
}

#[test]
fn all_matching_file_has_zero_boundary() {
    for n in [1usize, 10, 4095, 4096, 4097, 5000, 8192, 12289] {
        assert_eq!(compute_trim_boundary(&vec![0u8; n], 0), 0, "length {}", n);
        assert_eq!(compute_trim_boundary(&vec![0xffu8; n], 0xff), 0, "length {}", n);
    }
}

#[test]
fn no_trailing_match_keeps_length() {
    let mut data = vec![0u8; 5000];
    data[4999] = 7;
    assert_eq!(compute_trim_boundary(&data, 0), 5000);
    assert_eq!(compute_trim_boundary(&[1, 2, 3], 0), 3);
    assert_eq!(compute_trim_boundary(&[0, 0, 9], 0), 3);
}

#[test]
fn exact_block_boundary() {
    let data = bytes_with_tail(4096, 4086, 1, 0);
    assert_eq!(data[4096 - 11], 1);
    assert_eq!(compute_trim_boundary(&data, 0), 4096 - 10);
}

#[test]
fn cross_block_run() {
    let data = bytes_with_tail(5000, 4090, 1, 0);
    assert_eq!(compute_trim_boundary(&data, 0), 4090);
}

#[test]
fn run_over_several_blocks() {
    let mut data = vec![0u8; 10000];
    data[100] = 5;
    assert_eq!(compute_trim_boundary(&data, 0), 101);
    let data = bytes_with_tail(20000, 3, 0x41, 0xff);
    assert_eq!(compute_trim_boundary(&data, 0xff), 3);
}

#[test]
fn matching_bytes_inside_content_are_kept() {
    let data = vec![0, 0, 1, 0, 0, 2, 0, 0, 0];
    assert_eq!(compute_trim_boundary(&data, 0), 6);
    assert_eq!(compute_trim_boundary(&data, 2), 9);
}

#[test]
fn empty_file() {
    assert_eq!(compute_trim_boundary(&[], 0), 0);
    assert_eq!(truncation_length(0, false), Some(0));
    let st = ScanState::new(0, 0);
    assert!(st.is_finished());
    assert_eq!(st.valid_len(), 0);
}

#[test]
fn dry_run_leaves_length() {
    assert_eq!(truncation_length(4090, true), None);
    assert_eq!(truncation_length(0, true), None);
    assert_eq!(truncation_length(4090, false), Some(4090));
}

#[test]
fn trimming_twice_cuts_nothing_more() {
    let data = bytes_with_tail(9000, 4500, 3, 0);
    let first = compute_trim_boundary(&data, 0);
    assert_eq!(first, 4500);
    let second = compute_trim_boundary(&data[..first as usize], 0);
    assert_eq!(second, first);
}

#[test]
fn boundary_never_exceeds_length() {
    for (len, start) in [(0usize, 0usize), (1, 0), (1, 1), (4096, 100), (7000, 6999)] {
        let data = bytes_with_tail(len, start, 9, 0);
        let b = compute_trim_boundary(&data, 0);
        assert!(b as usize <= len);
        assert_eq!(b as usize, start);
    }
}

#[test]
fn scan_block_folds_runs() {
    assert_eq!(scan_block(&[], 0), 0);
    assert_eq!(scan_block(&[0, 0, 0], 0), 0);
    assert_eq!(scan_block(&[0, 0, 5, 0, 0, 6, 0], 0), 6);
    assert_eq!(scan_block(&[5, 0], 0), 1);
}

#[test]
fn scan_state_reads_blocks_from_the_end() {
    let data = bytes_with_tail(5000, 4090, 1, 0);
    let mut st = ScanState::new(5000, 0);
    assert!(!st.is_finished());
    let (start, len) = st.next_block();
    assert_eq!((start, len), (5000 - BLOCK_SIZE, 4096));
    st.feed_block(&data[start as usize..start as usize + len]);
    assert!(st.is_finished());
    assert_eq!(st.valid_len(), 4090);

    let data = vec![0u8; 5000];
    let mut st = ScanState::new(5000, 0);
    let (start, len) = st.next_block();
    st.feed_block(&data[start as usize..start as usize + len]);
    assert!(!st.is_finished());
    assert_eq!(st.valid_len(), 904);
    let (start, len) = st.next_block();
    assert_eq!((start, len), (0, 904));
    st.feed_block(&data[..len]);
    assert!(st.is_finished());
    assert_eq!(st.valid_len(), 0);
}
