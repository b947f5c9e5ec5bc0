use rand::seq::SliceRandom;
use rand::thread_rng;
use s3mmap::dummy::{DummyPageIterator, MMapDummy};
use std::collections::BTreeSet;

fn expect_byte(byte: u8, offset: usize) {
    assert_eq!(byte, ((offset * 13) & 0xFF) as u8);
}

/// Drains one fault's pages, checking the pattern; returns the pages covered.
fn check_run(pages: &mut DummyPageIterator) -> Vec<usize> {
    let mut covered = Vec::new();
    let mut at = pages.offset();
    while let Some(page) = pages.next() {
        assert_eq!(page.len(), 4096);
        for (i, b) in page.iter().enumerate() {
            expect_byte(*b, at + i);
        }
        covered.push(at / 4096);
        at += 4096;
    }
    covered
}

#[test]
fn dummy_new_reports_size() {
    let (_d, n) = MMapDummy::new(4096 * 3).unwrap();
    assert_eq!(n, 4096 * 3);
}

#[test]
fn dummy_one_page_fault() {
    let (mut d, _) = MMapDummy::new(4096).unwrap();
    let (mut pages, evictions) = d.handle_userfault(0).unwrap();
    assert!(evictions.is_empty());
    assert_eq!(check_run(&mut pages), vec![0]);
    assert!(pages.next().is_none());
}

#[test]
fn dummy_partial_last_page_rounds_up() {
    let (mut d, _) = MMapDummy::new(4096 + 10).unwrap();
    let (mut pages, _) = d.handle_userfault(4096).unwrap();
    assert_eq!(check_run(&mut pages), vec![1]);
}

/// Serves every page in `order`, skipping pages that an earlier fault
/// already brought in and that were not evicted since.
fn scan(d: &mut MMapDummy, order: &[usize]) -> usize {
    let mut resident = BTreeSet::new();
    scan_with(d, order, &mut resident)
}

fn scan_with(d: &mut MMapDummy, order: &[usize], resident: &mut BTreeSet<usize>) -> usize {
    let mut faults = 0;
    for &page in order {
        if resident.contains(&page) {
            continue;
        }
        faults += 1;
        let (mut pages, evictions) = d.handle_userfault((page * 4096) as u64).unwrap();
        let covered = check_run(&mut pages);
        assert_eq!(covered[0], page);
        for p in covered {
            resident.insert(p);
        }
        for p in evictions {
            resident.remove(&p);
        }
        assert!(resident.len() <= 32768);
    }
    faults
}

#[test]
fn dummy_linear_scan_32000_pages() {
    let (mut d, _) = MMapDummy::new(4096 * 32000).unwrap();
    let order: Vec<usize> = (0..32000).collect();
    let faults = scan(&mut d, &order);
    // read-ahead turns most pages into part of a larger read
    assert!(faults < 32000 / 8);
}

#[test]
fn dummy_random_scan_32000_pages() {
    let (mut d, _) = MMapDummy::new(4096 * 32000).unwrap();
    let mut order: Vec<usize> = (0..32000).collect();
    order.shuffle(&mut thread_rng());
    scan(&mut d, &order);
}

#[test]
fn dummy_zero_size_reports_zero() {
    let (_d, n) = MMapDummy::new(0).unwrap();
    assert_eq!(n, 0);
}

#[test]
fn dummy_three_scans_fault_only_once() {
    let (mut d, _) = MMapDummy::new(4096 * 32000).unwrap();
    let order: Vec<usize> = (0..32000).collect();
    let mut resident = BTreeSet::new();
    assert!(scan_with(&mut d, &order, &mut resident) > 0);
    assert_eq!(scan_with(&mut d, &order, &mut resident), 0);
    assert_eq!(scan_with(&mut d, &order, &mut resident), 0);
    assert_eq!(resident.len(), 32000);
}

#[test]
fn dummy_evicts_oldest_beyond_cap() {
    let (mut d, _) = MMapDummy::new(4096 * 40000).unwrap();
    let order: Vec<usize> = (0..40000).collect();
    let mut resident = BTreeSet::new();
    scan_with(&mut d, &order, &mut resident);
    assert!(resident.len() <= 32768);
    assert!(!resident.contains(&0));
    assert!(resident.contains(&39999));
}
