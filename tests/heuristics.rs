use s3mmap::heuristics::{
    extend_readahead1, roundup_slice1, PageHeuristics, LEVEL1_SLICE_SIZE, MAX_LOADED_PAGES,
};
use s3mmap::pages::round_up_to_pagesize;

#[test]
fn roundup_slice1_tests() {
    // 1 page at 0th offset should get extended to just below 1 slice size.
    assert_eq!(roundup_slice1(0, 4096), 4096 * (LEVEL1_SLICE_SIZE - 1));
    // 1 page at 1th offset should get extended to just below 1 slice size, minus the one page
    //   we have with offset.
    assert_eq!(roundup_slice1(4096, 4096), 4096 * (LEVEL1_SLICE_SIZE - 2));
    // Non-page aligned read
    assert_eq!(roundup_slice1(1111, 4096), 4096 * (LEVEL1_SLICE_SIZE - 2));

    // After one slice read
    assert_eq!(
        roundup_slice1(LEVEL1_SLICE_SIZE * 4096, 4096),
        4096 * (LEVEL1_SLICE_SIZE - 1)
    );
}

#[test]
fn roundup_slice1_already_aligned() {
    // last page at in-slice offset 62: unchanged
    assert_eq!(roundup_slice1(0, 63 * 4096), 63 * 4096);
    // last page at in-slice offset 63: a whole further slice minus one page
    assert_eq!(roundup_slice1(0, 64 * 4096), 127 * 4096);
}

#[test]
fn extend_readahead1_values() {
    // far from a level-2 boundary: the level-1 read-ahead, rounded
    assert_eq!(extend_readahead1(63 * 4096, 4096), 1024 * 4096);
    // just before a level-2 boundary: nothing to add
    assert_eq!(extend_readahead1(8190 * 4096, 4096), 4096);
    // close to a level-2 boundary: up to one page before it
    assert_eq!(extend_readahead1(8000 * 4096, 4096), 191 * 4096);
}

#[test]
fn readahead_without_fill_is_minimum() {
    let mut h = PageHeuristics::new();
    assert_eq!(h.readahead_heuristic(0, 4096), 4096);
    h.mark_pages_as_read(0, 10);
    assert_eq!(h.readahead_heuristic(10 * 4096, 4096), 4096);
}

#[test]
fn readahead_when_level1_slice_fills() {
    let mut h = PageHeuristics::new();
    h.mark_pages_as_read(0, 63);
    let r = h.readahead_heuristic(63 * 4096, 4096);
    assert_eq!(r, 1024 * 4096);
    assert_eq!(r % 4096, 0);
    // a page already loaded never fills its slice
    assert_eq!(h.readahead_heuristic(5 * 4096, 4096), 4096);
}

#[test]
fn readahead_when_level2_slice_fills() {
    let mut h = PageHeuristics::new();
    h.mark_pages_as_read(1, 8192);
    // page 0 completes both its level-1 and its level-2 slice
    let r = h.readahead_heuristic(0, 4096);
    assert_eq!(r, (2 * 8192 + 63) * 4096);
    assert_eq!(r % 4096, 0);
}

#[test]
fn readahead_bounded_at_level1_end() {
    let mut h = PageHeuristics::new();
    h.mark_pages_as_read(0, 63);
    h.mark_pages_as_read(64, 8192);
    // page 63 is the last of its level-1 slice: exactly the bound
    assert_eq!(h.readahead_heuristic(63 * 4096, 4096), 2 * 8192 * 4096);
}

#[test]
fn eviction_down_to_slack() {
    let mut h = PageHeuristics::new();
    h.mark_pages_as_read(0, MAX_LOADED_PAGES);
    assert!(h.evict_pages_if_needed2().is_empty());
    h.mark_pages_as_read(MAX_LOADED_PAGES, MAX_LOADED_PAGES + 1);
    let ev = h.evict_pages_if_needed2();
    assert_eq!(ev.len(), 501);
    assert_eq!(ev.iter().next(), Some(&0));
    assert_eq!(ev.iter().last(), Some(&500));
    assert!(h.evict_pages_if_needed2().is_empty());
}

#[test]
fn eviction_into_given_set() {
    let mut h = PageHeuristics::new();
    h.mark_pages_as_read(100, 100 + MAX_LOADED_PAGES + 10);
    let mut ev = std::collections::BTreeSet::new();
    ev.insert(7);
    h.evict_pages_if_needed(&mut ev);
    assert_eq!(ev.len(), 511);
    assert!(ev.contains(&7));
    assert!(ev.contains(&100));
    assert!(ev.contains(&609));
    assert!(!ev.contains(&610));
}

#[test]
fn evicted_page_can_fill_again() {
    let mut h = PageHeuristics::new();
    h.mark_pages_as_read(0, MAX_LOADED_PAGES + 1);
    h.evict_pages_if_needed2();
    // pages 0..=500 are gone, so page 0 no longer fills slice 0
    assert_eq!(h.readahead_heuristic(0, 4096), 4096);
}

#[test]
fn readahead_after_marking_rest_of_slice() {
    let mut h = PageHeuristics::new();
    h.mark_pages_as_read(1, 64);
    assert_eq!(h.readahead_heuristic(0, 4096), 4096 * 1087);
}

#[test]
fn record_pages_marks_then_evicts() {
    let mut h = PageHeuristics::new();
    assert!(h.record_pages(0, MAX_LOADED_PAGES).is_empty());
    let ev = h.record_pages(MAX_LOADED_PAGES, MAX_LOADED_PAGES + 2);
    assert_eq!(ev.len(), 502);
    assert!(ev.contains(&0) && ev.contains(&501) && !ev.contains(&502));
}

#[test]
fn rounding_near_top_of_address_space() {
    let top = usize::MAX - 4095;
    assert_eq!(round_up_to_pagesize(top), top);
    // last page at in-slice offset 62 already: unchanged
    let off = (usize::MAX / 4096 / 64 * 64 - 64 + 62) * 4096;
    assert_eq!(roundup_slice1(off, 4096), 4096);
}
