//! Memory that the host controller reads and writes.

use vstd::prelude::*;

use crate::align;

verus! {

pub const PAGE_SIZE: u64 = 4096;

/// Buffers of more than a page begin at a multiple of this.
pub const LARGE_ALIGN: u64 = 65536;

/// Whether `free_list::PageLayout::from_size_align` accepts a size and an alignment: both
/// are whole pages, the alignment is a power of two, and the size rounded up to it can be
/// the size of an object.
pub open spec fn is_page_layout(size: int, align: int) -> bool {
    &&& size % 4096 == 0
    &&& align % 4096 == 0
    &&& align <= usize::MAX
    &&& align::is_power_of_two(align)
    &&& align::rounded_up(size, align) <= isize::MAX
}

/// Whether `free_list::PageRange::new` accepts a start and an end: the range is not empty,
/// and both are whole pages.
pub open spec fn is_page_range(start: int, end: int) -> bool {
    start < end && start % 4096 == 0 && end % 4096 == 0 && end <= usize::MAX
}

/// Whether there is a layout of pages of a size and an alignment:
/// `free_list::PageLayout::from_size_align`.
#[verifier::external_body]
fn has_page_layout(size: u64, align: u64) -> (r: bool)
    ensures
        r == is_page_layout(size as int, align as int),
{
    match (usize::try_from(size), usize::try_from(align)) {
        (Ok(size), Ok(align)) => free_list::PageLayout::from_size_align(size, align).is_ok(),
        _ => false,
    }
}

/// Whether there is a range of pages from a start to an end: `free_list::PageRange::new`.
#[verifier::external_body]
fn has_page_range(start: u64, end: u64) -> (r: bool)
    ensures
        r == is_page_range(start as int, end as int),
{
    match (usize::try_from(start), usize::try_from(end)) {
        (Ok(start), Ok(end)) => free_list::PageRange::new(start, end).is_ok(),
        _ => false,
    }
}

/// The alignment of a buffer: that which was asked for, a page at least, and more for a
/// buffer of several pages, which no transfer block may see crossing a boundary.
pub open spec fn dma_align(size: int, align: int) -> int {
    let least = if size > PAGE_SIZE {
        LARGE_ALIGN as int
    } else {
        PAGE_SIZE as int
    };
    if align < least {
        least
    } else {
        align
    }
}

/// The size of a buffer: a multiple of its alignment.
pub open spec fn dma_size(size: int, align: int) -> int {
    align::rounded_up(size, dma_align(size, align))
}

fn buffer_align(size: u64, align: u64) -> (r: u64)
    ensures
        r == dma_align(size as int, align as int),
{
    let least: u64 = if size > PAGE_SIZE {
        LARGE_ALIGN
    } else {
        PAGE_SIZE
    };
    if align < least {
        least
    } else {
        align
    }
}

/// Whether a buffer has an alignment that memory can have, and a size that can be told.
pub open spec fn is_layable(size: int, align: int) -> bool {
    align::is_power_of_two(dma_align(size, align)) && dma_size(size, align) <= u64::MAX
}

/// Tells whether [`buffer_layout`] can be asked for a buffer.
pub fn can_lay_out(size: u64, align: u64) -> (r: bool)
    ensures
        r == is_layable(size as int, align as int),
{
    let align: u64 = buffer_align(size, align);
    align::power_of_two(align) && align::can_round_up(size, align)
}

/// Tells whether [`buffer_range`] can be asked for a buffer at a physical address.
pub fn can_give_back(start: u64, size: u64, align: u64) -> (r: bool)
    ensures
        r == (is_layable(size as int, align as int) && start + dma_size(size as int, align as int)
            <= u64::MAX),
{
    if !can_lay_out(size, align) {
        return false;
    }
    let size: u64 = align::align_up(size, buffer_align(size, align));
    start <= u64::MAX - size
}

/// The size and alignment to allocate for a buffer, if there can be such a buffer.
pub fn buffer_layout(size: u64, align: u64) -> (r: Option<(u64, u64)>)
    requires
        is_layable(size as int, align as int),
    ensures
        r == (if is_page_layout(
            dma_size(size as int, align as int),
            dma_align(size as int, align as int),
        ) {
            Some((dma_size(size as int, align as int) as u64, dma_align(
                size as int,
                align as int,
            ) as u64))
        } else {
            None
        }),
{
    let align: u64 = buffer_align(size, align);
    let size: u64 = align::align_up(size, align);
    if has_page_layout(size, align) {
        Some((size, align))
    } else {
        None
    }
}

/// The range to give back for a buffer at a physical address, if it is one of pages.
pub fn buffer_range(start: u64, size: u64, align: u64) -> (r: Option<(u64, u64)>)
    requires
        is_layable(size as int, align as int),
        start + dma_size(size as int, align as int) <= u64::MAX,
    ensures
        r == (if is_page_range(start as int, start + dma_size(size as int, align as int)) {
            Some((start, (start + dma_size(size as int, align as int)) as u64))
        } else {
            None
        }),
{
    let align: u64 = buffer_align(size, align);
    let size: u64 = align::align_up(size, align);
    if has_page_range(start, start + size) {
        Some((start, start + size))
    } else {
        None
    }
}

/// What is given back is what was allocated: a buffer that could be allocated, at an address
/// with its alignment, is a range of pages of the size that was allocated.
pub proof fn law_free_takes_what_alloc_gave(size: int, align: int, start: int)
    requires
        size > 0,
        align >= 0,
        is_page_layout(dma_size(size, align), dma_align(size, align)),
        start >= 0,
        start % 4096 == 0,
        start + dma_size(size, align) <= usize::MAX,
    ensures
        dma_size(size, align) >= size,
        is_page_range(start, start + dma_size(size, align)),
{
    let a = dma_align(size, align);
    vstd::arithmetic::div_mod::lemma_fundamental_div_mod(size + a - 1, a);
    let q = (size + a - 1) / a;
    assert(a * q == q * a) by (nonlinear_arith);
}

/// A buffer of up to 64 KiB does not cross a multiple of 64 KiB.
pub proof fn law_small_buffer_stays_in_bounds(size: int, align: int, start: int)
    requires
        0 < size <= LARGE_ALIGN,
        0 <= align <= PAGE_SIZE,
        start >= 0,
        start % dma_align(size, align) == 0,
    ensures
        start / LARGE_ALIGN as int == (start + size - 1) / LARGE_ALIGN as int,
{
    let q = start / 65536;
    let r = start % 65536;
    assert(start == 65536 * q + r);
    if size <= PAGE_SIZE {
        assert(start % 4096 == 0);
        assert(r % 4096 == 0);
        assert(r <= 61440);
    }
    assert(r + size - 1 < 65536);
    assert((65536 * q + (r + size - 1)) / 65536 == q);
}

} // verus!
