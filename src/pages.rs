use vstd::prelude::*;

verus! {

/// Size in bytes of one page of the mapped region.
pub const PAGE_SIZE: usize = 4096;

/// Rounds `nbytes` up to the next multiple of the page size.
pub fn round_up_to_pagesize(nbytes: usize) -> (r: usize)
    requires
        nbytes + PAGE_SIZE - 1 <= usize::MAX,
    ensures
        r % PAGE_SIZE == 0,
        nbytes <= r < nbytes + PAGE_SIZE,
{
    if nbytes % PAGE_SIZE == 0 {
        return nbytes;
    }
    nbytes + (PAGE_SIZE - (nbytes % PAGE_SIZE))
}

/// Rounds `nbytes` down to the previous multiple of the page size.
pub fn round_down_to_pagesize(nbytes: usize) -> (r: usize)
    ensures
        r % PAGE_SIZE == 0,
        r <= nbytes < r + PAGE_SIZE,
{
    if nbytes % PAGE_SIZE == 0 {
        return nbytes;
    }
    nbytes - (nbytes % PAGE_SIZE)
}

} // verus!
