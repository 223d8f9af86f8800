//! How an entity index splits into a page and a slot within the page.

use vstd::prelude::*;

verus! {

/// Number of bits of an entity index that select the slot within a page.
pub const PAGE_BITS: u32 = 10;

/// Number of entities per page, `2^PAGE_BITS`.
pub const PAGE_SIZE: usize = 1024;

/// Mask that extracts the slot from an entity index, `PAGE_SIZE - 1`.
pub const PAGE_MASK: u32 = 1023;

/// The page that an entity index lies on.
pub open spec fn page_of(index: int) -> int {
    index / (PAGE_SIZE as int)
}

/// The slot of an entity index within its page.
pub open spec fn slot_of(index: int) -> int {
    index % (PAGE_SIZE as int)
}

/// Extracts the page from an entity index.
pub fn page_index(index: u32) -> (page: usize)
    ensures
        page == page_of(index as int),
        page == index / 1024,
{
    assert(index >> PAGE_BITS == index / 1024) by (bit_vector);
    (index >> PAGE_BITS) as usize
}

/// Extracts the slot within its page from an entity index.
pub fn inner_index(index: u32) -> (slot: usize)
    ensures
        slot == slot_of(index as int),
        slot == index % 1024,
        slot < PAGE_SIZE,
{
    assert(index & PAGE_MASK == index % 1024) by (bit_vector);
    (index & PAGE_MASK) as usize
}

/// Page and slot determine the index: no two indices share a place, and each place
/// `(page, slot)` is that of the index `page * PAGE_SIZE + slot`.
pub proof fn law_place_determines_index(index: int, page: int, slot: int)
    requires
        0 <= slot < PAGE_SIZE,
    ensures
        page_of(index) == page && slot_of(index) == slot <==> index == page * PAGE_SIZE + slot,
{
}

/// A page holds 1024 indices, one after the other: the page of an index is its quotient
/// by 1024, the slot the remainder.
pub proof fn law_page_and_slot_divide(index: int)
    ensures
        PAGE_SIZE == 1024,
        page_of(index) == index / 1024,
        slot_of(index) == index % 1024,
{
}

} // verus!
