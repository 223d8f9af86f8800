//! Paged storage for entity metadata.
//!
//! [`EntityMetaTable`] stores [`EntityMeta`] by [`EntityIndex`] in two levels: an index
//! selects a page and a slot within it. Pages are allocated on demand, so indices that
//! lie far apart do not cost memory for the range between them, and a page stays where
//! it is when others are added.

use crate::identifiers::EntityIndex;
use crate::meta::EntityMeta;
use crate::paging::{inner_index, page_index, page_of, slot_of, PAGE_SIZE};
use crate::table_laws::{law_indices_are_those_with_metadata, law_indices_ascend};
use crate::tick::CheckChangeTicks;
use vstd::prelude::*;

verus! {

/// `as_mut_slice` of an array gives a mutable slice of the whole array.
///
/// Trusted: the slice holds the elements of the array, and what is written to the slice
/// is what the array holds afterwards.
pub assume_specification<T, const N: usize>[ <[T; N]>::as_mut_slice ](array: &mut [T; N]) -> (slice:
    &mut [T])
    ensures
        slice@ == old(array)@,
        final(array)@ == final(slice)@,
;

/// What a table holds: the allocated pages by number, each with its entries in the
/// order of their slots, and the high-water mark of the indices used.
#[verifier::ext_equal]
pub struct TableModel {
    pub pages: Map<int, Seq<EntityMeta>>,
    pub len: nat,
}

/// A page on which every entry is fresh.
pub open spec fn fresh_page() -> Seq<EntityMeta> {
    Seq::new(PAGE_SIZE as nat, |slot: int| EntityMeta::fresh())
}

/// A page with the ticks of the entries below slot `end` checked.
pub open spec fn checked_below(
    page: Seq<EntityMeta>,
    end: int,
    check: CheckChangeTicks,
) -> Seq<EntityMeta> {
    Seq::new(
        page.len(),
        |slot: int|
            if slot < end {
                page[slot].checked(check)
            } else {
                page[slot]
            },
    )
}

impl TableModel {
    /// The table on which no index was used.
    pub open spec fn empty() -> Self {
        TableModel { pages: Map::empty(), len: 0 }
    }

    /// Whether there is metadata for `index`: it lies below the high-water mark, on a page
    /// that is allocated.
    pub open spec fn contains(self, index: int) -> bool {
        &&& 0 <= index < self.len
        &&& self.pages.contains_key(page_of(index))
    }

    /// The metadata for `index`.
    pub open spec fn meta(self, index: int) -> EntityMeta
        recommends
            self.contains(index),
    {
        self.pages[page_of(index)][slot_of(index)]
    }

    /// The metadata for `index`, if there is any.
    pub open spec fn lookup(self, index: int) -> Option<EntityMeta> {
        if self.contains(index) {
            Some(self.meta(index))
        } else {
            None
        }
    }

    /// The table once `index` was used: its page is allocated, and the high-water mark
    /// lies above it.
    pub open spec fn ensure(self, index: int) -> Self {
        TableModel {
            pages: if self.pages.contains_key(page_of(index)) {
                self.pages
            } else {
                self.pages.insert(page_of(index), fresh_page())
            },
            len: if index < self.len {
                self.len
            } else {
                (index + 1) as nat
            },
        }
    }

    /// The table with the metadata for `index` replaced.
    pub open spec fn write(self, index: int, meta: EntityMeta) -> Self
        recommends
            self.contains(index),
    {
        TableModel {
            pages: self.pages.insert(
                page_of(index),
                self.pages[page_of(index)].update(slot_of(index), meta),
            ),
            len: self.len,
        }
    }

    /// The table with the tick of all metadata checked.
    pub open spec fn check_ticks(self, check: CheckChangeTicks) -> Self {
        TableModel {
            pages: Map::new(
                |page: int| self.pages.contains_key(page),
                |page: int|
                    checked_below(
                        self.pages[page],
                        self.len - page * PAGE_SIZE,
                        check,
                    ),
            ),
            len: self.len,
        }
    }

    /// The indices below `end` that have metadata, in ascending order.
    pub open spec fn indices_below(self, end: nat) -> Seq<int> {
        Seq::new(end, |index: int| index).filter(|index: int| self.contains(index))
    }

    /// The indices that have metadata, in ascending order.
    pub open spec fn indices(self) -> Seq<int> {
        self.indices_below(self.len)
    }

    /// Pages are full, the high-water mark is that of an index with metadata, no page
    /// lies beyond it, and the slots at and beyond it are fresh. At length zero there is
    /// therefore no page at all, since `page_of(-1)` is `-1`.
    pub open spec fn wf(self) -> bool {
        &&& self.len <= u32::MAX
        &&& self.len > 0 ==> self.contains(self.len - 1)
        &&& forall|page: int| #[trigger]
            self.pages.contains_key(page) ==> {
                &&& 0 <= page <= page_of(self.len - 1)
                &&& self.pages[page].len() == PAGE_SIZE
            }
        &&& forall|page: int, slot: int|
            self.pages.contains_key(page) && 0 <= slot < PAGE_SIZE && page * PAGE_SIZE + slot
                >= self.len ==> #[trigger] self.pages[page][slot] == EntityMeta::fresh()
    }
}

/// One index more: it is appended to those below if it has metadata.
pub proof fn lemma_indices_step(table: TableModel, end: nat)
    ensures
        table.indices_below(end + 1) == (if table.contains(end as int) {
            table.indices_below(end).push(end as int)
        } else {
            table.indices_below(end)
        }),
{
    reveal(Seq::filter);
    let range = Seq::new(end + 1, |index: int| index);
    assert(range.drop_last() =~= Seq::new(end, |index: int| index));
}

/// A stretch of indices without metadata adds nothing.
proof fn lemma_indices_gap(table: TableModel, start: nat, end: nat)
    requires
        start <= end,
        forall|index: int| start <= index < end ==> !#[trigger] table.contains(index),
    ensures
        table.indices_below(end) == table.indices_below(start),
    decreases end - start,
{
    if start < end {
        lemma_indices_gap(table, start, (end - 1) as nat);
        lemma_indices_step(table, (end - 1) as nat);
    }
}

/// A stretch of indices that all have metadata is appended as a whole.
proof fn lemma_indices_run(table: TableModel, start: nat, end: nat)
    requires
        start <= end,
        forall|index: int| start <= index < end ==> #[trigger] table.contains(index),
    ensures
        table.indices_below(end) == table.indices_below(start) + Seq::new(
            (end - start) as nat,
            |i: int| start + i,
        ),
    decreases end - start,
{
    if start < end {
        lemma_indices_run(table, start, (end - 1) as nat);
        lemma_indices_step(table, (end - 1) as nat);
    }
    assert(table.indices_below(end) =~= table.indices_below(start) + Seq::new(
        (end - start) as nat,
        |i: int| start + i,
    ));
}

/// How many slots of a page lie below the high-water mark `len`.
fn slots_in_use(page_idx: usize, len: usize) -> (count: usize)
    requires
        page_idx * PAGE_SIZE < len,
    ensures
        count == (if len - page_idx * PAGE_SIZE < PAGE_SIZE {
            len - page_idx * PAGE_SIZE
        } else {
            PAGE_SIZE as int
        }),
{
    let left = len - page_idx * PAGE_SIZE;
    if left < PAGE_SIZE {
        left
    } else {
        PAGE_SIZE
    }
}

/// A single page of entity metadata.
struct EntityMetaPage {
    /// The entries of the page, boxed to keep them out of the vector of pages.
    entries: Box<[EntityMeta; PAGE_SIZE]>,
}

impl EntityMetaPage {
    /// Makes a page on which every entry is fresh.
    fn new() -> (page: Self)
        ensures
            page.entries@ == fresh_page(),
    {
        let fresh = EntityMeta::fresh();
        let page = EntityMetaPage { entries: Box::new([fresh; PAGE_SIZE]) };
        assert(page.entries@ =~= fresh_page());
        page
    }

    /// Checks the ticks of the first `count` entries of the page.
    fn check_ticks(&mut self, count: usize, check: CheckChangeTicks)
        requires
            count <= PAGE_SIZE,
        ensures
            final(self).entries@ == checked_below(old(self).entries@, count as int, check),
    {
        let mut slot: usize = 0;
        while slot < count
            invariant
                slot <= count <= PAGE_SIZE,
                forall|i: int|
                    0 <= i < slot ==> #[trigger] self.entries@[i] == old(self).entries@[i].checked(check),
                forall|i: int|
                    slot <= i < PAGE_SIZE ==> #[trigger] self.entries@[i] == old(self).entries@[i],
            decreases count - slot,
        {
            self.entries[slot].spawned_or_despawned.tick.check_tick(check);
            slot = slot + 1;
        }
        assert(self.entries@ =~= checked_below(old(self).entries@, count as int, check));
    }

    /// Mutable references to the first `count` entries of the page.
    fn first_entries_mut(&mut self, count: usize) -> (refs: Vec<&mut EntityMeta>)
        requires
            count <= PAGE_SIZE,
        ensures
            refs@.len() == count,
            forall|slot: int| 0 <= slot < count ==> *(#[trigger] refs@[slot]) == old(self).entries@[slot],
            forall|slot: int|
                0 <= slot < count ==> *final(#[trigger] refs@[slot]) == final(self).entries@[slot],
            forall|slot: int|
                count <= slot < PAGE_SIZE ==> final(self).entries@[slot] == old(self).entries@[slot],
    {
        let mut rest: &mut [EntityMeta] = self.entries.as_mut_slice();
        let ghost before = rest@;
        let ghost after = final(rest)@;
        let mut refs: Vec<&mut EntityMeta> = Vec::new();
        let mut taken: usize = 0;
        while taken < count
            invariant
                taken <= count <= before.len(),
                refs@.len() == taken,
                forall|slot: int| 0 <= slot < taken ==> *(#[trigger] refs@[slot]) == before[slot],
                forall|slot: int| 0 <= slot < taken ==> *final(#[trigger] refs@[slot]) == after[slot],
                after.len() == taken + final(rest)@.len(),
                rest@ == before.skip(taken as int),
                final(rest)@ == after.skip(taken as int),
            decreases count - taken,
        {
            let ghost rest_after = final(rest)@;
            let (head, tail) = rest.split_at_mut(1);
            let ghost head_after = final(head)@;
            let ghost tail_after = final(tail)@;
            let entry = &mut head[0];
            assert(head_after =~= seq![*final(entry)]);
            assert(rest_after =~= head_after + tail_after);
            refs.push(entry);
            rest = tail;
            proof {
                assert(after[taken as int] == rest_after[0]);
                assert(tail_after =~= rest_after.skip(1));
                assert(tail_after =~= after.skip(taken + 1));
            }
            taken = taken + 1;
        }
        proof {
            assert(has_resolved(rest));
            assert forall|slot: int| count <= slot < before.len() implies after[slot]
                == before[slot] by {
                assert(after.skip(count as int)[slot - count] == before.skip(count as int)[slot - count]);
            }
        }
        refs
    }
}

/// A paged table of the metadata of all entities.
pub struct EntityMetaTable {
    /// The pages, by number.
    pages: Vec<Option<EntityMetaPage>>,
    /// The high-water mark of the indices used, not the count of live entities.
    len: usize,
}

impl View for EntityMetaTable {
    type V = TableModel;

    closed spec fn view(&self) -> TableModel {
        TableModel {
            pages: Map::new(
                |page: int| 0 <= page < self.pages@.len() && self.pages@[page] is Some,
                |page: int| self.pages@[page]->0.entries@,
            ),
            len: self.len as nat,
        }
    }
}

impl EntityMetaTable {
    /// The validity of a table: that of its model, and of how the pages are kept.
    pub open spec fn wf(&self) -> bool {
        &&& self@.wf()
        &&& self.ends_at_high_water_mark()
    }

    /// The vector of pages ends with the page of the high-water mark.
    pub closed spec fn ends_at_high_water_mark(&self) -> bool {
        self.pages@.len() == page_of(self.len - 1) + 1
    }

    /// Makes an empty table with no pages allocated.
    pub fn new() -> (table: Self)
        ensures
            table.wf(),
            table@ == TableModel::empty(),
            table@.len == 0,
            table@.pages == Map::<int, Seq<EntityMeta>>::empty(),
    {
        let table = EntityMetaTable { pages: Vec::new(), len: 0 };
        assert(table@ =~= TableModel::empty());
        table
    }

    /// Clears all metadata and releases all pages.
    pub fn clear(&mut self)
        ensures
            final(self).wf(),
            final(self)@ == TableModel::empty(),
            final(self)@.len == 0,
            final(self)@.pages == Map::<int, Seq<EntityMeta>>::empty(),
    {
        self.pages.clear();
        self.len = 0;
        assert(self@ =~= TableModel::empty());
    }

    /// The high-water mark of the indices used, not the count of live entities.
    pub fn len(&self) -> (len: usize)
        ensures
            len == self@.len,
    {
        self.len
    }

    /// Whether no index was used.
    pub fn is_empty(&self) -> (empty: bool)
        ensures
            empty <==> self@.len == 0,
    {
        self.len == 0
    }

    /// The metadata for `index`, or `None` if it was never used: it lies at or beyond the
    /// high-water mark, or no index of its page was used.
    pub fn get(&self, index: EntityIndex) -> (meta: Option<&EntityMeta>)
        ensures
            meta is Some <==> self@.contains(index@ as int),
            meta is Some <==> index@ < self@.len && self@.pages.contains_key(index@ as int / 1024),
            meta matches Some(m) ==> *m == self@.meta(index@ as int),
            meta matches Some(m) ==> *m == self@.pages[index@ as int / 1024][index@ as int % 1024],
    {
        let raw = index.index();
        let page_idx = page_index(raw);
        let inner_idx = inner_index(raw);
        if (raw as usize) < self.len && page_idx < self.pages.len() {
            match &self.pages[page_idx] {
                Some(page) => Some(&page.entries[inner_idx]),
                None => None,
            }
        } else {
            None
        }
    }

    /// The metadata for `index` for writing, or `None` if it was never used.
    pub fn get_mut(&mut self, index: EntityIndex) -> (meta: Option<&mut EntityMeta>)
        requires
            old(self).wf(),
        ensures
            final(self).wf(),
            meta is Some <==> old(self)@.contains(index@ as int),
            meta is Some <==> index@ < old(self)@.len && old(self)@.pages.contains_key(
                index@ as int / 1024,
            ),
            meta matches Some(m) ==> {
                &&& *m == old(self)@.meta(index@ as int)
                &&& *m == old(self)@.pages[index@ as int / 1024][index@ as int % 1024]
                &&& final(self)@ == old(self)@.write(index@ as int, *final(m))
                &&& final(self)@.pages[index@ as int / 1024][index@ as int % 1024] == *final(m)
            },
            meta is None ==> final(self)@ == old(self)@,
    {
        let raw = index.index();
        let page_idx = page_index(raw);
        let inner_idx = inner_index(raw);
        if (raw as usize) < self.len && page_idx < self.pages.len() {
            match &mut self.pages[page_idx] {
                Some(page) => Some(&mut page.entries[inner_idx]),
                None => None,
            }
        } else {
            None
        }
    }

    /// The metadata for an index that is known to have some.
    pub fn get_unchecked(&self, index: EntityIndex) -> (meta: &EntityMeta)
        requires
            self@.contains(index@ as int),
        ensures
            *meta == self@.meta(index@ as int),
            *meta == self@.pages[index@ as int / 1024][index@ as int % 1024],
    {
        let raw = index.index();
        let page_idx = page_index(raw);
        let inner_idx = inner_index(raw);
        &self.pages[page_idx].as_ref().unwrap().entries[inner_idx]
    }

    /// The metadata, for writing, for an index that is known to have some.
    pub fn get_unchecked_mut(&mut self, index: EntityIndex) -> (meta: &mut EntityMeta)
        requires
            old(self).wf(),
            old(self)@.contains(index@ as int),
        ensures
            final(self).wf(),
            *meta == old(self)@.meta(index@ as int),
            *meta == old(self)@.pages[index@ as int / 1024][index@ as int % 1024],
            final(self)@ == old(self)@.write(index@ as int, *final(meta)),
            final(self)@.pages[index@ as int / 1024][index@ as int % 1024] == *final(meta),
    {
        let raw = index.index();
        let page_idx = page_index(raw);
        let inner_idx = inner_index(raw);
        &mut self.pages[page_idx].as_mut().unwrap().entries[inner_idx]
    }

    /// Marks `index` as used and makes sure that there is metadata for it, which is
    /// fresh where there was none.
    pub fn ensure_index(&mut self, index: EntityIndex)
        requires
            old(self).wf(),
        ensures
            final(self).wf(),
            final(self)@ == old(self)@.ensure(index@ as int),
            final(self)@.len == (if index@ < old(self)@.len {
                old(self)@.len
            } else {
                (index@ + 1) as nat
            }),
            final(self)@.pages.dom() == old(self)@.pages.dom().insert(index@ as int / 1024),
    {
        let raw = index.index();
        let page_idx = page_index(raw);
        while self.pages.len() < page_idx + 1
            invariant
                self.len == old(self).len,
                page_idx <= u32::MAX / 1024,
                old(self).pages@.len() <= self.pages@.len(),
                self.pages@.len() == old(self).pages@.len() || self.pages@.len() <= page_idx + 1,
                self.pages@.take(old(self).pages@.len() as int) == old(self).pages@,
                forall|page: int|
                    old(self).pages@.len() <= page < self.pages@.len()
                        ==> (#[trigger] self.pages@[page]) is None,
            decreases page_idx + 1 - self.pages@.len(),
        {
            self.pages.push(None);
        }
        if self.pages[page_idx].is_none() {
            self.pages[page_idx] = Some(EntityMetaPage::new());
        }
        let new_len = raw as usize + 1;
        if new_len > self.len {
            self.len = new_len;
        }
    }

    /// The metadata for `index`, which is fresh if there is none.
    pub fn get_or_fresh(&self, index: EntityIndex) -> (meta: EntityMeta)
        ensures
            meta == (match self@.lookup(index@ as int) {
                Some(m) => m,
                None => EntityMeta::fresh(),
            }),
            index@ < self@.len && self@.pages.contains_key(index@ as int / 1024) ==> meta
                == self@.pages[index@ as int / 1024][index@ as int % 1024],
    {
        match self.get(index) {
            Some(meta) => *meta,
            None => EntityMeta::fresh(),
        }
    }

    /// How many pages are allocated.
    pub fn allocated_pages(&self) -> (count: usize)
        ensures
            self@.pages.dom().finite(),
            count == self@.pages.dom().len(),
    {
        let mut count: usize = 0;
        let mut page_idx: usize = 0;
        let ghost mut seen: Set<int> = Set::empty();
        while page_idx < self.pages.len()
            invariant
                page_idx <= self.pages@.len(),
                seen.finite(),
                count == seen.len(),
                count <= page_idx,
                forall|page: int| #[trigger]
                    seen.contains(page) <==> 0 <= page < page_idx && self.pages@[page] is Some,
            decreases self.pages@.len() - page_idx,
        {
            if self.pages[page_idx].is_some() {
                count = count + 1;
                proof {
                    seen = seen.insert(page_idx as int);
                }
            }
            page_idx = page_idx + 1;
        }
        assert(seen =~= self@.pages.dom());
        count
    }

    /// Checks the ticks of all metadata.
    pub fn check_change_ticks(&mut self, check: CheckChangeTicks)
        requires
            old(self).wf(),
        ensures
            final(self).wf(),
            final(self)@ == old(self)@.check_ticks(check),
            final(self)@.len == old(self)@.len,
            final(self)@.pages.dom() == old(self)@.pages.dom(),
    {
        let mut page_idx: usize = 0;
        while page_idx < self.pages.len()
            invariant
                old(self).wf(),
                page_idx <= self.pages@.len(),
                self.len == old(self).len,
                self.pages@.len() == old(self).pages@.len(),
                forall|page: int|
                    0 <= page < self.pages@.len() ==> ((#[trigger] self.pages@[page]) is Some
                        <==> old(self).pages@[page] is Some),
                forall|page: int|
                    0 <= page < page_idx && (#[trigger] self.pages@[page]) is Some
                        ==> self.pages@[page]->0.entries@ == checked_below(
                        old(self).pages@[page]->0.entries@,
                        self.len - page * PAGE_SIZE,
                        check,
                    ),
                forall|page: int|
                    page_idx <= page < self.pages@.len() ==> #[trigger] self.pages@[page]
                        == old(self).pages@[page],
            decreases self.pages@.len() - page_idx,
        {
            let count = slots_in_use(page_idx, self.len);
            match &mut self.pages[page_idx] {
                Some(page) => {
                    let ghost before = page.entries@;
                    page.check_ticks(count, check);
                    assert(page.entries@ =~= checked_below(
                        before,
                        self.len - page_idx * PAGE_SIZE,
                        check,
                    ));
                },
                None => {},
            }
            page_idx = page_idx + 1;
        }
        assert(self@ =~= old(self)@.check_ticks(check));
    }

    /// All metadata, each with its index, in ascending order of the indices.
    pub fn iter(&self) -> (items: Vec<(EntityIndex, &EntityMeta)>)
        requires
            self.wf(),
        ensures
            items@.len() == self@.indices().len(),
            forall|k: int|
                #![trigger items@[k]]
                0 <= k < items@.len() ==> {
                    &&& items@[k].0@ == self@.indices()[k]
                    &&& *items@[k].1 == self@.meta(self@.indices()[k])
                },
            forall|k: int|
                #![trigger items@[k]]
                0 <= k < items@.len() ==> {
                    &&& items@[k].0@ < self@.len
                    &&& self@.pages.contains_key(items@[k].0@ as int / 1024)
                    &&& *items@[k].1
                        == self@.pages[items@[k].0@ as int / 1024][items@[k].0@ as int % 1024]
                },
            forall|j: int, k: int|
                0 <= j < k < items@.len() ==> (#[trigger] items@[j]).0@ < (#[trigger] items@[k]).0@,
            forall|index: int|
                0 <= index < self@.len && #[trigger] self@.pages.contains_key(index / 1024)
                    ==> exists|k: int| 0 <= k < items@.len() && (#[trigger] items@[k]).0@ == index,
    {
        let mut items: Vec<(EntityIndex, &EntityMeta)> = Vec::new();
        let mut page_idx: usize = 0;
        let ghost mut end: nat = 0;
        while page_idx < self.pages.len()
            invariant
                self.wf(),
                page_idx <= self.pages@.len(),
                end == if page_idx * PAGE_SIZE < self.len { page_idx * PAGE_SIZE } else { self.len as int },
                items@.len() == self@.indices_below(end).len(),
                forall|k: int|
                    #![trigger items@[k]]
                    0 <= k < items@.len() ==> {
                        &&& items@[k].0@ == self@.indices_below(end)[k]
                        &&& *items@[k].1 == self@.meta(self@.indices_below(end)[k])
                    },
            decreases self.pages@.len() - page_idx,
        {
            let page_start = page_idx * PAGE_SIZE;
            let count = slots_in_use(page_idx, self.len);
            match &self.pages[page_idx] {
                Some(page) => {
                    let mut slot: usize = 0;
                    while slot < count
                        invariant
                            self.wf(),
                            page_idx < self.pages@.len(),
                            self.pages@[page_idx as int] == Some(*page),
                            page_start == page_idx * PAGE_SIZE,
                            slot <= count <= PAGE_SIZE,
                            page_start + count <= self.len,
                            end == page_start + slot,
                            items@.len() == self@.indices_below(end).len(),
                            forall|k: int|
                                #![trigger items@[k]]
                                0 <= k < items@.len() ==> {
                                    &&& items@[k].0@ == self@.indices_below(end)[k]
                                    &&& *items@[k].1 == self@.meta(self@.indices_below(end)[k])
                                },
                        decreases count - slot,
                    {
                        let index = EntityIndex::new((page_start + slot) as u32);
                        items.push((index, &page.entries[slot]));
                        proof {
                            lemma_indices_step(self@, end);
                            end = end + 1;
                        }
                        slot = slot + 1;
                    }
                },
                None => {
                    proof {
                        lemma_indices_gap(self@, end, end + count as nat);
                        end = end + count as nat;
                    }
                },
            }
            page_idx = page_idx + 1;
        }
        proof {
            let indices = self@.indices();
            law_indices_ascend(self@, self@.len);
            assert forall|k: int| 0 <= k < items@.len() implies {
                &&& (#[trigger] items@[k]).0@ < self@.len
                &&& self@.pages.contains_key(items@[k].0@ as int / 1024)
            } by {
                assert(indices.contains(indices[k]));
                law_indices_are_those_with_metadata(self@, self@.len, indices[k]);
            }
            assert forall|index: int|
                0 <= index < self@.len && #[trigger] self@.pages.contains_key(
                    index / 1024,
                ) implies exists|k: int|
                0 <= k < items@.len() && (#[trigger] items@[k]).0@ == index by {
                law_indices_are_those_with_metadata(self@, self@.len, index);
                let k = choose|k: int| 0 <= k < indices.len() && indices[k] == index;
                assert(items@[k].0@ == index);
            }
            assert forall|j: int, k: int| 0 <= j < k < items@.len() implies (
            #[trigger] items@[j]).0@ < (#[trigger] items@[k]).0@ by {
                assert(indices[j] < indices[k]);
            }
        }
        items
    }

    /// All metadata, for writing, in ascending order of the indices.
    ///
    /// What is written through the references is what the table holds afterwards.
    pub fn iter_mut(&mut self) -> (items: Vec<&mut EntityMeta>)
        requires
            old(self).wf(),
        ensures
            final(self).wf(),
            final(self)@.len == old(self)@.len,
            final(self)@.pages.dom() == old(self)@.pages.dom(),
            items@.len() == old(self)@.indices().len(),
            forall|k: int|
                #![trigger items@[k]]
                0 <= k < items@.len() ==> {
                    &&& *items@[k] == old(self)@.meta(old(self)@.indices()[k])
                    &&& *final(items@[k]) == final(self)@.meta(old(self)@.indices()[k])
                },
    {
        let len = self.len;
        let page_count = self.pages.len();
        let ghost table = self@;
        let mut rest: &mut [Option<EntityMetaPage>] = self.pages.as_mut_slice();
        let ghost before = rest@;
        let ghost after = final(rest)@;
        let mut items: Vec<&mut EntityMeta> = Vec::new();
        let mut page_idx: usize = 0;
        let ghost mut end: nat = 0;
        while page_idx < page_count
            invariant
                page_idx <= page_count,
                page_count == before.len(),
                page_count == page_of(len - 1) + 1,
                table.wf(),
                len == table.len,
                forall|page: int|
                    #![trigger table.pages.contains_key(page)]
                    #![trigger before[page]]
                    table.pages.contains_key(page) <==> 0 <= page < before.len()
                        && before[page] is Some,
                forall|page: int| #[trigger]
                    table.pages.contains_key(page) ==> table.pages[page]
                        == before[page]->0.entries@,
                after.len() == page_idx + final(rest)@.len(),
                rest@ == before.skip(page_idx as int),
                final(rest)@ == after.skip(page_idx as int),
                forall|page: int|
                    0 <= page < page_idx ==> ((#[trigger] after[page]) is Some <==> before[page] is Some),
                end == if page_idx * PAGE_SIZE < len { page_idx * PAGE_SIZE } else { len as int },
                forall|page: int, slot: int|
                    0 <= page < page_idx && before[page] is Some && 0 <= slot < PAGE_SIZE && page
                        * PAGE_SIZE + slot >= len
                        ==> #[trigger] after[page]->0.entries@[slot] == EntityMeta::fresh(),
                items@.len() == table.indices_below(end).len(),
                forall|k: int|
                    #![trigger items@[k]]
                    0 <= k < items@.len() ==> {
                        let index = table.indices_below(end)[k];
                        &&& 0 <= page_of(index) < page_idx
                        &&& *items@[k] == table.meta(index)
                        &&& *final(items@[k]) == after[page_of(index)]->0.entries@[slot_of(index)]
                    },
            decreases page_count - page_idx,
        {
            let count = slots_in_use(page_idx, len);
            let ghost rest_after = final(rest)@;
            let (head, tail) = rest.split_at_mut(1);
            let ghost head_after = final(head)@;
            let ghost tail_after = final(tail)@;
            let slot_ref = &mut head[0];
            let ghost page_after = *final(slot_ref);
            proof {
                assert(head_after =~= seq![page_after]);
                assert(rest_after =~= head_after + tail_after);
                assert(after[page_idx as int] == rest_after[0]);
                assert(tail_after =~= rest_after.skip(1));
                assert(tail_after =~= after.skip(page_idx + 1));
            }
            match slot_ref {
                Some(page) => {
                    let mut entries = page.first_entries_mut(count);
                    items.append(&mut entries);
                    proof {
                        lemma_indices_run(table, end, end + count as nat);
                    }
                },
                None => {
                    proof {
                        lemma_indices_gap(table, end, end + count as nat);
                    }
                },
            }
            rest = tail;
            page_idx = page_idx + 1;
            proof {
                end = end + count as nat;
            }
        }
        items
    }
}

impl Clone for EntityMetaTable {
    /// Copies the table, page by page.
    fn clone(&self) -> (table: Self)
        ensures
            table@ == self@,
            self.wf() ==> table.wf(),
    {
        let mut pages: Vec<Option<EntityMetaPage>> = Vec::new();
        let mut page_idx: usize = 0;
        while page_idx < self.pages.len()
            invariant
                page_idx <= self.pages@.len(),
                pages@.len() == page_idx,
                forall|page: int|
                    0 <= page < page_idx ==> ((#[trigger] pages@[page]) is Some
                        <==> self.pages@[page] is Some),
                forall|page: int|
                    0 <= page < page_idx && (#[trigger] pages@[page]) is Some
                        ==> pages@[page]->0.entries@ == self.pages@[page]->0.entries@,
            decreases self.pages@.len() - page_idx,
        {
            match &self.pages[page_idx] {
                Some(page) => pages.push(
                    Some(EntityMetaPage { entries: Box::new(*page.entries) }),
                ),
                None => pages.push(None),
            }
            page_idx = page_idx + 1;
        }
        let table = EntityMetaTable { pages, len: self.len };
        assert(table@ =~= self@);
        table
    }
}

} // verus!
