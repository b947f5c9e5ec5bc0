//! The decisions of the paging engine, apart from the system calls that
//! carry them out: how large the reserved region is, which object offset a
//! fault is for, where each installed page goes, which addresses an
//! eviction gives back, and how each kernel result is answered.
use crate::heuristics::round_up_spec;
use crate::pages::{round_up_to_pagesize, PAGE_SIZE};
use vstd::prelude::*;

verus! {

/// Interrupted system call.
pub const EINTR: i32 = 4;

/// Resource temporarily unavailable.
pub const EAGAIN: i32 = 11;

/// A page is already installed at the destination.
pub const EEXIST: i32 = 17;

/// Event kind of a page-fault record.
pub const UFFD_EVENT_PAGEFAULT: u8 = 0x12;

/// Size in bytes of one fault record.
pub const USERFAULT_MSG_SZ: usize = 32;

/// Bytes reserved for an object of `nbytes` bytes: at least one page, in
/// whole pages.
pub open spec fn region_len_spec(nbytes: int) -> int {
    round_up_spec(if nbytes == 0 { 1 } else { nbytes })
}

/// Bytes reserved for an object of `nbytes` bytes.
pub fn region_length(nbytes: usize) -> (r: usize)
    requires
        nbytes + PAGE_SIZE <= usize::MAX,
    ensures
        r == region_len_spec(nbytes as int),
        r % PAGE_SIZE == 0,
        PAGE_SIZE <= r,
        nbytes <= r,
{
    let n: usize = if nbytes == 0 {
        1
    } else {
        nbytes
    };
    round_up_to_pagesize(n)
}

/// The offset in the object of the page that holds `address`, in a region
/// that starts at the page-aligned address `base`.
pub fn fault_offset(address: u64, base: u64) -> (r: u64)
    requires
        base <= address,
        base % PAGE_SIZE as u64 == 0,
    ensures
        r == address - address % (PAGE_SIZE as u64) - base,
        r % PAGE_SIZE as u64 == 0,
        r <= address - base < r + PAGE_SIZE,
{
    let page_addr: u64 = address - address % (PAGE_SIZE as u64);
    assert(base <= page_addr) by (nonlinear_arith)
        requires
            base <= address,
            base % 4096 == 0,
            page_addr == address - address % 4096,
    ;
    page_addr - base
}

/// The address of page `page` of the region at `base`.
pub fn eviction_address(base: u64, page: u64) -> (r: u64)
    requires
        base + page * PAGE_SIZE <= u64::MAX,
    ensures
        r == base + page * PAGE_SIZE,
{
    base + page * (PAGE_SIZE as u64)
}

/// Sum of the first `n` lengths.
pub open spec fn prefix_sum(lens: Seq<u64>, n: int) -> int
    decreases n,
{
    if n <= 0 {
        0
    } else {
        prefix_sum(lens, n - 1) + lens[n - 1]
    }
}

proof fn lemma_prefix_sum_monotone(lens: Seq<u64>, i: int, j: int)
    requires
        0 <= i <= j <= lens.len(),
    ensures
        prefix_sum(lens, i) <= prefix_sum(lens, j),
    decreases j - i,
{
    if i < j {
        lemma_prefix_sum_monotone(lens, i, j - 1);
    }
}

/// Where each of a run of buffers of lengths `lens` is installed, the run
/// starting at `start`: each destination follows the previous one by its
/// length.
pub fn install_destinations(start: u64, lens: &Vec<u64>) -> (r: Vec<u64>)
    requires
        start + prefix_sum(lens@, lens@.len() as int) <= u64::MAX,
    ensures
        r@.len() == lens@.len(),
        forall|i: int| 0 <= i < r@.len() ==> r@[i] == start + prefix_sum(lens@, i),
{
    let mut r: Vec<u64> = Vec::new();
    let mut dst: u64 = start;
    let mut i: usize = 0;
    while i < lens.len()
        invariant
            i <= lens@.len(),
            r@.len() == i,
            dst == start + prefix_sum(lens@, i as int),
            start + prefix_sum(lens@, lens@.len() as int) <= u64::MAX,
            forall|j: int| 0 <= j < i ==> r@[j] == start + prefix_sum(lens@, j),
        decreases lens@.len() - i,
    {
        r.push(dst);
        proof {
            lemma_prefix_sum_monotone(lens@, i + 1, lens@.len() as int);
        }
        dst = dst + lens[i];
        i = i + 1;
    }
    r
}

/// What the fault loop does after a `poll` of the fault channel.
#[derive(Debug, Clone, Copy, PartialEq, Eq, Structural)]
pub enum PollOutcome {
    /// Nothing to read: check the exit flag and poll again.
    Wait,
    /// A fault record is ready.
    Ready,
    /// An error that leaves no safe way on.
    Fatal,
}

/// The answer to `poll` returning `result`, with `errno` set on `-1`.
pub fn after_poll(result: i32, errno: i32) -> (r: PollOutcome)
    ensures
        r == (if result == -1 {
            if errno == EINTR || errno == EAGAIN {
                PollOutcome::Wait
            } else {
                PollOutcome::Fatal
            }
        } else if result == 0 {
            PollOutcome::Wait
        } else if result == 1 {
            PollOutcome::Ready
        } else {
            PollOutcome::Fatal
        }),
{
    if result == -1 {
        if errno == EINTR || errno == EAGAIN {
            PollOutcome::Wait
        } else {
            PollOutcome::Fatal
        }
    } else if result == 0 {
        PollOutcome::Wait
    } else if result == 1 {
        PollOutcome::Ready
    } else {
        PollOutcome::Fatal
    }
}

/// What the fault loop does after reading the fault channel.
#[derive(Debug, Clone, Copy, PartialEq, Eq, Structural)]
pub enum ReadOutcome {
    /// Interrupted: read again.
    Retry,
    /// A whole fault record was read.
    Record,
    /// An error, end of file or a short read.
    Fatal,
}

/// The answer to `read` returning `nread`, with `errno` set on `-1`.
pub fn after_read(nread: i64, errno: i32) -> (r: ReadOutcome)
    ensures
        r == (if nread == -1 && errno == EINTR {
            ReadOutcome::Retry
        } else if nread == USERFAULT_MSG_SZ {
            ReadOutcome::Record
        } else {
            ReadOutcome::Fatal
        }),
{
    if nread == -1 {
        if errno == EINTR {
            ReadOutcome::Retry
        } else {
            ReadOutcome::Fatal
        }
    } else if nread == USERFAULT_MSG_SZ as i64 {
        ReadOutcome::Record
    } else {
        ReadOutcome::Fatal
    }
}

/// What a worker does after a copy-install of one buffer.
#[derive(Debug, Clone, Copy, PartialEq, Eq, Structural)]
pub enum CopyOutcome {
    /// Try the same copy again.
    Retry,
    /// The buffer is in place (installed now, or by a concurrent fault):
    /// go on with the next one.
    Done,
    /// An error that leaves no safe way on.
    Fatal,
}

/// The answer to the copy-install `ioctl` returning `result`, with `errno`
/// set on `-1`.
pub fn after_copy(result: i32, errno: i32) -> (r: CopyOutcome)
    ensures
        r == (if result != -1 || errno == EEXIST {
            CopyOutcome::Done
        } else if errno == EAGAIN {
            CopyOutcome::Retry
        } else {
            CopyOutcome::Fatal
        }),
{
    if result != -1 {
        CopyOutcome::Done
    } else if errno == EAGAIN {
        CopyOutcome::Retry
    } else if errno == EEXIST {
        CopyOutcome::Done
    } else {
        CopyOutcome::Fatal
    }
}

/// The little-endian value of the eight bytes of `b` from `at`.
pub open spec fn le_u64(b: Seq<u8>, at: int) -> int {
    b[at] + 0x100 * (b[at + 1] + 0x100 * (b[at + 2] + 0x100 * (b[at + 3] + 0x100 * (b[at + 4]
        + 0x100 * (b[at + 5] + 0x100 * (b[at + 6] + 0x100 * b[at + 7]))))))
}

/// A fault record as the kernel delivers it.
#[derive(Debug, Clone, Copy, PartialEq, Eq, Structural)]
#[allow(non_camel_case_types)]
pub struct uffd_msg {
    pub event: u8,
    pub reserved1: u8,
    pub reserved2: u16,
    pub reserved3: u32,
    pub flags: u64,
    pub address: u64,
    pub padding: u64,
}

fn read_le_u64(b: &Vec<u8>, at: usize) -> (r: u64)
    requires
        at + 8 <= b@.len(),
    ensures
        r == le_u64(b@, at as int),
{
    let n: usize = b.len();
    assert(at + 7 < n);
    let r: u64 = b[at + 7] as u64;
    let r: u64 = r * 256 + b[at + 6] as u64;
    let r: u64 = r * 256 + b[at + 5] as u64;
    let r: u64 = r * 256 + b[at + 4] as u64;
    let r: u64 = r * 256 + b[at + 3] as u64;
    let r: u64 = r * 256 + b[at + 2] as u64;
    let r: u64 = r * 256 + b[at + 1] as u64;
    r * 256 + b[at] as u64
}

impl uffd_msg {
    pub fn new() -> (r: uffd_msg)
        ensures
            r.event == 0 && r.reserved1 == 0 && r.reserved2 == 0 && r.reserved3 == 0,
            r.flags == 0 && r.address == 0 && r.padding == 0,
    {
        uffd_msg {
            event: 0,
            reserved1: 0,
            reserved2: 0,
            reserved3: 0,
            flags: 0,
            address: 0,
            padding: 0,
        }
    }

    /// Reads the event kind, the flags and the faulting address out of a
    /// record as read from the fault channel (reserved fields and padding
    /// are left zero); `None` unless the record is `USERFAULT_MSG_SZ` bytes.
    pub fn parse(buf: &Vec<u8>) -> (r: Option<uffd_msg>)
        ensures
            match r {
                Some(m) => {
                    &&& buf@.len() == USERFAULT_MSG_SZ
                    &&& m.event == buf@[0]
                    &&& m.reserved1 == 0 && m.reserved2 == 0 && m.reserved3 == 0
                    &&& m.padding == 0
                    &&& m.flags == le_u64(buf@, 8)
                    &&& m.address == le_u64(buf@, 16)
                },
                None => buf@.len() != USERFAULT_MSG_SZ,
            },
    {
        if buf.len() != USERFAULT_MSG_SZ {
            return None;
        }
        let mut m = uffd_msg::new();
        m.event = buf[0];
        m.flags = read_le_u64(buf, 8);
        m.address = read_le_u64(buf, 16);
        Some(m)
    }

    /// Whether the record reports a page fault.
    pub fn is_page_fault(&self) -> (r: bool)
        ensures
            r == (self.event == UFFD_EVENT_PAGEFAULT),
    {
        self.event == UFFD_EVENT_PAGEFAULT
    }
}

} // verus!
