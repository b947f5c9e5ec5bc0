use s3mmap::engine::{
    after_copy, after_poll, after_read, eviction_address, fault_offset, install_destinations,
    region_length, uffd_msg, CopyOutcome, PollOutcome, ReadOutcome, EAGAIN, EEXIST, EINTR,
};
use s3mmap::pages::{round_down_to_pagesize, round_up_to_pagesize};

#[test]
fn page_rounding() {
    assert_eq!(round_up_to_pagesize(0), 0);
    assert_eq!(round_up_to_pagesize(1), 4096);
    assert_eq!(round_up_to_pagesize(4096), 4096);
    assert_eq!(round_up_to_pagesize(4097), 8192);
    assert_eq!(round_down_to_pagesize(4097), 4096);
    assert_eq!(round_down_to_pagesize(4095), 0);
}

#[test]
fn zero_byte_object_reserves_one_page() {
    assert_eq!(region_length(0), 4096);
    assert_eq!(region_length(4096), 4096);
    assert_eq!(region_length(4096 * 32000 + 1), 4096 * 32001);
}

#[test]
fn fault_offsets() {
    assert_eq!(fault_offset(0x10000 + 5, 0x10000), 0);
    assert_eq!(fault_offset(0x10000 + 4096 * 3 + 100, 0x10000), 4096 * 3);
    assert_eq!(eviction_address(0x10000, 3), 0x10000 + 3 * 4096);
}

#[test]
fn destinations_advance() {
    assert_eq!(
        install_destinations(0x2000, &vec![4096, 8192, 4096]),
        vec![0x2000, 0x3000, 0x5000]
    );
    assert_eq!(install_destinations(0x2000, &vec![]), Vec::<u64>::new());
}

#[test]
fn kernel_outcomes() {
    assert_eq!(after_poll(0, 0), PollOutcome::Wait);
    assert_eq!(after_poll(1, 0), PollOutcome::Ready);
    assert_eq!(after_poll(-1, EINTR), PollOutcome::Wait);
    assert_eq!(after_poll(-1, EAGAIN), PollOutcome::Wait);
    assert_eq!(after_poll(-1, 9), PollOutcome::Fatal);
    assert_eq!(after_poll(2, 0), PollOutcome::Fatal);
    assert_eq!(after_read(32, 0), ReadOutcome::Record);
    assert_eq!(after_read(-1, EINTR), ReadOutcome::Retry);
    assert_eq!(after_read(0, 0), ReadOutcome::Fatal);
    assert_eq!(after_read(16, 0), ReadOutcome::Fatal);
    assert_eq!(after_copy(0, 0), CopyOutcome::Done);
    assert_eq!(after_copy(-1, EEXIST), CopyOutcome::Done);
    assert_eq!(after_copy(-1, EAGAIN), CopyOutcome::Retry);
    assert_eq!(after_copy(-1, 22), CopyOutcome::Fatal);
}

#[test]
fn fault_record_parsing() {
    let mut buf = vec![0u8; 32];
    buf[0] = 0x12;
    buf[8] = 1;
    buf[16..24].copy_from_slice(&0x7f12_3456_7000u64.to_le_bytes());
    let m = uffd_msg::parse(&buf).unwrap();
    assert!(m.is_page_fault());
    assert_eq!(m.flags, 1);
    assert_eq!(m.address, 0x7f12_3456_7000);
    assert!(uffd_msg::parse(&vec![0u8; 31]).is_none());
    buf[0] = 0x13;
    assert!(!uffd_msg::parse(&buf).unwrap().is_page_fault());
}
