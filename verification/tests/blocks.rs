use nft_arb::blocks::{event_block_ranges, log_block_ranges};

#[test]
fn event_ranges_in_chunks_oldest_first() {
    let r = event_block_ranges(100, 125, 10);
    assert_eq!(r, vec![(100, 105), (105, 115), (115, 125)]);
}

#[test]
fn event_ranges_single_chunk() {
    assert_eq!(event_block_ranges(100, 105, 10), vec![(100, 105)]);
    assert_eq!(event_block_ranges(100, 100, 10), vec![(100, 100)]);
}

#[test]
fn event_ranges_exact_multiple() {
    assert_eq!(event_block_ranges(10, 30, 10), vec![(10, 10), (10, 20), (20, 30)]);
}

#[test]
fn log_ranges_one_block_each() {
    assert_eq!(log_block_ranges(7, 10), vec![(7, 8), (8, 9), (9, 10)]);
    assert_eq!(log_block_ranges(7, 7), Vec::<(u64, u64)>::new());
}
