//! What holds of the metadata table across several operations.
//!
//! The laws speak of [`TableModel`], which the contracts of the table's functions speak
//! of too.

use crate::entity_meta_table::{lemma_indices_step, TableModel};
use crate::meta::{law_check_changes_only_old_ticks, EntityMeta};
use crate::paging::{page_of, slot_of, PAGE_SIZE};
use crate::tick::{law_check_bounds_age, law_check_is_idempotent, CheckChangeTicks, MAX_CHANGE_AGE};
use vstd::prelude::*;

verus! {

/// Whether `index` is the number of an entity index.
pub open spec fn is_index(index: int) -> bool {
    0 <= index < u32::MAX
}

/// What reading `index` gives where absent metadata counts as fresh.
pub open spec fn lookup_or_fresh(table: TableModel, index: int) -> EntityMeta {
    match table.lookup(index) {
        Some(meta) => meta,
        None => EntityMeta::fresh(),
    }
}

/// A step in the life of a table.
pub enum TableEvent {
    /// An index was used.
    Use(int),
    /// Metadata was written through a mutable reference.
    Write(int, EntityMeta),
    /// The ticks were checked.
    Check(CheckChangeTicks),
    /// The table was cleared.
    Clear,
}

/// Whether only entity indices are used in `events`.
pub open spec fn uses_indices(events: Seq<TableEvent>) -> bool {
    forall|k: int|
        0 <= k < events.len() ==> (#[trigger] events[k] matches TableEvent::Use(index)
            ==> is_index(index))
}

/// The table after `events`, in the order of the sequence, from the empty table. Absent
/// metadata cannot be written.
pub open spec fn table_after(events: Seq<TableEvent>) -> TableModel
    decreases events.len(),
{
    if events.len() == 0 {
        TableModel::empty()
    } else {
        let table = table_after(events.drop_last());
        match events.last() {
            TableEvent::Use(index) => table.ensure(index),
            TableEvent::Write(index, meta) => if table.contains(index) {
                table.write(index, meta)
            } else {
                table
            },
            TableEvent::Check(check) => table.check_ticks(check),
            TableEvent::Clear => TableModel::empty(),
        }
    }
}

/// The indices used in `events` since the table was last cleared.
pub open spec fn used_in(events: Seq<TableEvent>) -> Seq<int>
    decreases events.len(),
{
    if events.len() == 0 {
        Seq::empty()
    } else {
        let used = used_in(events.drop_last());
        match events.last() {
            TableEvent::Use(index) => used.push(index),
            TableEvent::Clear => Seq::empty(),
            _ => used,
        }
    }
}

/// Whether one of `used` lies on `page`.
pub open spec fn touches(used: Seq<int>, page: int) -> bool {
    exists|k: int| 0 <= k < used.len() && page_of(#[trigger] used[k]) == page
}

/// The empty table is valid and has metadata for no index.
pub proof fn law_empty_holds_nothing(index: int)
    ensures
        TableModel::empty().wf(),
        TableModel::empty().lookup(index) is None,
        TableModel::empty().indices().len() == 0,
{
    let empty = TableModel::empty();
    if empty.indices().len() > 0 {
        law_indices_are_those_with_metadata(empty, 0, empty.indices()[0]);
        assert(empty.indices().contains(empty.indices()[0]));
    }
}

/// A table is empty exactly when it has no pages.
pub proof fn law_empty_means_no_pages(table: TableModel)
    requires
        table.wf(),
    ensures
        table.len == 0 <==> table.pages.dom() == Set::<int>::empty(),
        table.len == 0 <==> table == TableModel::empty(),
{
    if table.len == 0 {
        assert(table.pages.dom() =~= Set::<int>::empty());
        assert(table =~= TableModel::empty());
    } else {
        assert(table.pages.dom().contains(page_of(table.len - 1)));
    }
}

/// Once an index was used, there is metadata for it: what there was before, or fresh
/// metadata. The table stays valid.
pub proof fn law_used_index_has_metadata(table: TableModel, index: int)
    requires
        table.wf(),
        is_index(index),
    ensures
        table.ensure(index).wf(),
        table.ensure(index).lookup(index) == Some(lookup_or_fresh(table, index)),
        index < table.ensure(index).len,
{
}

/// Using an index changes no metadata: what there was stays, and what comes into being
/// is fresh. A reader for whom absent metadata counts as fresh sees no difference.
pub proof fn law_use_changes_no_metadata(table: TableModel, used: int, index: int)
    requires
        table.wf(),
        is_index(used),
    ensures
        table.contains(index) ==> table.ensure(used).lookup(index) == table.lookup(index),
        lookup_or_fresh(table.ensure(used), index) == lookup_or_fresh(table, index),
{
}

/// Using an index twice is using it once.
pub proof fn law_use_is_idempotent(table: TableModel, index: int)
    requires
        is_index(index),
    ensures
        table.ensure(index).ensure(index) == table.ensure(index),
{
}

/// The order in which two indices are used does not matter.
pub proof fn law_uses_commute(table: TableModel, a: int, b: int)
    requires
        is_index(a),
        is_index(b),
    ensures
        table.ensure(a).ensure(b) == table.ensure(b).ensure(a),
{
    assert(table.ensure(a).ensure(b) =~= table.ensure(b).ensure(a));
}

/// Using an index allocates its page if that is missing, and nothing else.
pub proof fn law_use_allocates_at_most_one_page(table: TableModel, index: int)
    requires
        table.pages.dom().finite(),
    ensures
        table.ensure(index).pages.dom() == table.pages.dom().insert(page_of(index)),
        table.ensure(index).pages.dom().finite(),
        table.ensure(index).pages.dom().len() == table.pages.dom().len() + (if table.pages.contains_key(
            page_of(index),
        ) {
            0int
        } else {
            1int
        }),
{
    assert(table.ensure(index).pages.dom() =~= table.pages.dom().insert(page_of(index)));
}

/// All events but the last use only indices if all events do.
proof fn lemma_prefix_uses_indices(events: Seq<TableEvent>)
    requires
        events.len() > 0,
        uses_indices(events),
    ensures
        uses_indices(events.drop_last()),
{
    let before = events.drop_last();
    assert forall|k: int| 0 <= k < before.len() implies (#[trigger] before[k] matches
        TableEvent::Use(index) ==> is_index(index)) by {
        assert(before[k] == events[k]);
    }
}

/// Every table that comes about is valid.
pub proof fn law_table_stays_valid(events: Seq<TableEvent>)
    requires
        uses_indices(events),
    ensures
        table_after(events).wf(),
    decreases events.len(),
{
    if events.len() > 0 {
        let before = events.drop_last();
        lemma_prefix_uses_indices(events);
        law_table_stays_valid(before);
        let table = table_after(before);
        match events.last() {
            TableEvent::Use(index) => {
                assert(events[events.len() - 1] == TableEvent::Use(index));
                law_used_index_has_metadata(table, index);
            },
            TableEvent::Write(index, meta) => {
                if table.contains(index) {
                    law_write_is_read_back(table, index, meta, index);
                }
            },
            TableEvent::Check(check) => {
                if table.len > 0 {
                    law_checked_ticks_are_recent(table, check, table.len - 1);
                }
            },
            TableEvent::Clear => {},
        }
    }
}

/// The length of a table is its high-water mark: the greatest index used since the table
/// was last cleared, plus one, and zero if none was.
pub proof fn law_len_is_high_water_mark(events: Seq<TableEvent>)
    requires
        uses_indices(events),
    ensures
        forall|k: int|
            0 <= k < used_in(events).len() ==> #[trigger] used_in(events)[k] < table_after(
                events,
            ).len,
        used_in(events).len() > 0 ==> used_in(events).contains(table_after(events).len - 1),
        used_in(events).len() == 0 ==> table_after(events).len == 0,
    decreases events.len(),
{
    if events.len() > 0 {
        let before = events.drop_last();
        lemma_prefix_uses_indices(events);
        law_len_is_high_water_mark(before);
        if let TableEvent::Use(index) = events.last() {
            assert(events[events.len() - 1] == TableEvent::Use(index));
            let used = used_in(before);
            let len = table_after(events).len;
            if used.len() > 0 && len == table_after(before).len {
                let k = choose|k: int| 0 <= k < used.len() && used[k] == len - 1;
                assert(used.push(index)[k] == len - 1);
            } else {
                assert(used.push(index)[used.len() as int] == len - 1);
            }
        }
    }
}

/// Memory follows use: the allocated pages are those that an index used since the table
/// was last cleared lies on.
pub proof fn law_pages_are_those_used(events: Seq<TableEvent>, page: int)
    ensures
        table_after(events).pages.contains_key(page) <==> touches(used_in(events), page),
    decreases events.len(),
{
    if events.len() > 0 {
        let before = events.drop_last();
        let used = used_in(before);
        law_pages_are_those_used(before, page);
        if let TableEvent::Use(index) = events.last() {
            let more = used.push(index);
            assert(more[used.len() as int] == index);
            if touches(used, page) {
                let k = choose|k: int| 0 <= k < used.len() && page_of(#[trigger] used[k]) == page;
                assert(page_of(more[k]) == page);
            }
            if touches(more, page) && page_of(index) != page {
                let k = choose|k: int| 0 <= k < more.len() && page_of(#[trigger] more[k]) == page;
                assert(page_of(used[k]) == page);
            }
        }
    }
}

/// There is metadata for every index that was used since the table was last cleared.
pub proof fn law_used_index_is_present(events: Seq<TableEvent>, index: int)
    requires
        uses_indices(events),
        used_in(events).contains(index),
    ensures
        table_after(events).contains(index),
{
    let k = choose|k: int| 0 <= k < used_in(events).len() && used_in(events)[k] == index;
    law_len_is_high_water_mark(events);
    law_pages_are_those_used(events, page_of(index));
    lemma_used_are_indices(events);
    assert(page_of(used_in(events)[k]) == page_of(index));
}

/// There is no metadata for an index that was never used since the table was last
/// cleared: one beyond all that were used, or one on a page that no used index lies on.
pub proof fn law_unused_index_is_absent(events: Seq<TableEvent>, index: int)
    requires
        uses_indices(events),
        (forall|k: int| 0 <= k < used_in(events).len() ==> #[trigger] used_in(events)[k] < index)
            || !touches(used_in(events), page_of(index)),
    ensures
        table_after(events).lookup(index) is None,
{
    law_len_is_high_water_mark(events);
    law_pages_are_those_used(events, page_of(index));
}

/// What was used are indices.
proof fn lemma_used_are_indices(events: Seq<TableEvent>)
    requires
        uses_indices(events),
    ensures
        forall|k: int| 0 <= k < used_in(events).len() ==> is_index(#[trigger] used_in(events)[k]),
    decreases events.len(),
{
    if events.len() > 0 {
        lemma_prefix_uses_indices(events);
        lemma_used_are_indices(events.drop_last());
        if let TableEvent::Use(index) = events.last() {
            assert(events[events.len() - 1] == TableEvent::Use(index));
            assert(used_in(events) == used_in(events.drop_last()).push(index));
        }
        let before = used_in(events.drop_last());
        assert forall|k: int| 0 <= k < used_in(events).len() implies is_index(
            #[trigger] used_in(events)[k],
        ) by {
            if k < before.len() {
                assert(used_in(events)[k] == before[k]);
            }
        }
    }
}

/// However far apart the used indices lie, there is at most one page for each.
pub proof fn law_sparse_use_is_cheap(events: Seq<TableEvent>)
    ensures
        table_after(events).pages.dom().finite(),
        table_after(events).pages.dom().len() <= used_in(events).len(),
    decreases events.len(),
{
    assert(TableModel::empty().pages.dom() =~= Set::<int>::empty());
    if events.len() > 0 {
        let table = table_after(events.drop_last());
        law_sparse_use_is_cheap(events.drop_last());
        match events.last() {
            TableEvent::Use(index) => law_use_allocates_at_most_one_page(table, index),
            TableEvent::Write(index, meta) => {
                if table.contains(index) {
                    assert(table.write(index, meta).pages.dom() =~= table.pages.dom());
                }
            },
            TableEvent::Check(check) => {
                assert(table.check_ticks(check).pages.dom() =~= table.pages.dom());
            },
            TableEvent::Clear => {},
        }
    }
}

/// What was written is what is read, at the index written and nowhere else.
pub proof fn law_write_is_read_back(table: TableModel, written: int, meta: EntityMeta, index: int)
    requires
        table.wf(),
        table.contains(written),
    ensures
        table.write(written, meta).wf(),
        table.write(written, meta).lookup(written) == Some(meta),
        index != written ==> table.write(written, meta).lookup(index) == table.lookup(index),
{
    if page_of(index) == page_of(written) && slot_of(index) == slot_of(written) {
        assert(index == written);
    }
}

/// The writes that give each index below `end` that has metadata in `table` the metadata
/// that it has in `later`.
pub open spec fn writes_below(table: TableModel, later: TableModel, end: nat) -> Seq<TableEvent> {
    table.indices_below(end).map_values(
        |index: int| TableEvent::Write(index, later.meta(index)),
    )
}

/// The writes change the metadata below `end` and nothing else.
proof fn lemma_writes_below(events: Seq<TableEvent>, later: TableModel, end: nat)
    requires
        uses_indices(events),
        end <= table_after(events).len,
    ensures
        ({
            let table = table_after(events);
            let written = events + writes_below(table, later, end);
            &&& uses_indices(written)
            &&& used_in(written) == used_in(events)
            &&& table_after(written).len == table.len
            &&& table_after(written).pages.dom() == table.pages.dom()
            &&& forall|page: int| #[trigger]
                table.pages.contains_key(page) ==> table_after(written).pages[page].len()
                    == table.pages[page].len()
            &&& forall|page: int, slot: int|
                table.pages.contains_key(page) && 0 <= slot < PAGE_SIZE
                    ==> #[trigger] table_after(written).pages[page][slot] == (if page * PAGE_SIZE
                    + slot < end {
                    later.pages[page][slot]
                } else {
                    table.pages[page][slot]
                })
        }),
    decreases end,
{
    law_table_stays_valid(events);
    let table = table_after(events);
    let written = events + writes_below(table, later, end);
    if end == 0 {
        reveal(Seq::filter);
        assert(written =~= events);
    } else {
        let last = (end - 1) as nat;
        let before = events + writes_below(table, later, last);
        lemma_writes_below(events, later, last);
        lemma_indices_step(table, last);
        if table.contains(last as int) {
            let write = TableEvent::Write(last as int, later.meta(last as int));
            assert(writes_below(table, later, end) =~= writes_below(table, later, last).push(write));
            assert(written =~= before.push(write));
            assert(written.drop_last() =~= before);
            assert(table_after(written).pages.dom() =~= table.pages.dom());
        } else {
            assert(written =~= before);
        }
    }
}

/// Writing through any number of mutable references is a sequence of single writes: a
/// valid table with the same length and the same pages as one that came about is the
/// table that comes about by writing, one after the other, the metadata that it holds.
/// No index is used by that.
pub proof fn law_writing_all_is_writing_each(events: Seq<TableEvent>, later: TableModel)
    requires
        uses_indices(events),
        later.wf(),
        later.len == table_after(events).len,
        later.pages.dom() == table_after(events).pages.dom(),
    ensures
        ({
            let writes = writes_below(table_after(events), later, later.len);
            &&& forall|k: int| 0 <= k < writes.len() ==> #[trigger] writes[k] is Write
            &&& uses_indices(events + writes)
            &&& used_in(events + writes) == used_in(events)
            &&& table_after(events + writes) == later
        }),
{
    let table = table_after(events);
    let writes = writes_below(table, later, later.len);
    law_table_stays_valid(events);
    lemma_writes_below(events, later, later.len);
    law_table_stays_valid(events + writes);
    let written = table_after(events + writes);
    assert forall|page: int| #[trigger] later.pages.contains_key(page) implies written.pages[page]
        == later.pages[page] by {
        assert(written.pages.contains_key(page));
        assert(table.pages.contains_key(page));
        assert(written.pages[page] =~= later.pages[page]);
    }
    assert(written.pages =~= later.pages);
}

/// After a check of the ticks none is older than [`MAX_CHANGE_AGE`], and nothing but
/// ticks has changed.
pub proof fn law_checked_ticks_are_recent(table: TableModel, check: CheckChangeTicks, index: int)
    requires
        table.wf(),
        table.contains(index),
    ensures
        table.check_ticks(check).wf(),
        table.check_ticks(check).lookup(index) == Some(table.meta(index).checked(check)),
        table.check_ticks(check).meta(index).spawned_or_despawned.tick.age(check.present)
            <= MAX_CHANGE_AGE,
        table.check_ticks(check).meta(index).generation == table.meta(index).generation,
        table.check_ticks(check).meta(index).location == table.meta(index).location,
        table.check_ticks(check).meta(index).spawned_or_despawned.by == table.meta(
            index,
        ).spawned_or_despawned.by,
{
    law_check_bounds_age(table.meta(index).spawned_or_despawned.tick, check);
}

/// Checking the ticks twice is checking them once.
pub proof fn law_tick_check_is_idempotent(table: TableModel, check: CheckChangeTicks)
    ensures
        table.check_ticks(check).check_ticks(check) == table.check_ticks(check),
{
    let once = table.check_ticks(check);
    let twice = once.check_ticks(check);
    assert forall|page: int| #[trigger] once.pages.contains_key(page) implies twice.pages[page]
        == once.pages[page] by {
        assert forall|slot: int| 0 <= slot < once.pages[page].len() implies twice.pages[page][slot]
            == once.pages[page][slot] by {
            law_check_is_idempotent(table.pages[page][slot].spawned_or_despawned.tick, check);
        }
        assert(twice.pages[page] =~= once.pages[page]);
    }
    assert(twice.pages =~= once.pages);
}

/// The indices below `end` that have metadata are listed, no others.
pub proof fn law_indices_are_those_with_metadata(table: TableModel, end: nat, index: int)
    ensures
        table.indices_below(end).contains(index) <==> 0 <= index < end && table.contains(index),
    decreases end,
{
    if end == 0 {
        reveal(Seq::filter);
    } else {
        let last = end - 1;
        let before = table.indices_below(last as nat);
        law_indices_are_those_with_metadata(table, last as nat, index);
        lemma_indices_step(table, last as nat);
        if table.contains(last) {
            assert(before.push(last)[before.len() as int] == last);
            if before.contains(index) {
                let k = choose|k: int| 0 <= k < before.len() && before[k] == index;
                assert(before.push(last)[k] == index);
            }
        }
    }
}

/// The indices that have metadata are listed in ascending order, none of them twice.
pub proof fn law_indices_ascend(table: TableModel, end: nat)
    ensures
        forall|j: int, k: int|
            0 <= j < k < table.indices_below(end).len() ==> #[trigger] table.indices_below(end)[j]
                < #[trigger] table.indices_below(end)[k],
    decreases end,
{
    if end == 0 {
        reveal(Seq::filter);
    } else {
        let last = end - 1;
        let before = table.indices_below(last as nat);
        law_indices_ascend(table, last as nat);
        lemma_indices_step(table, last as nat);
        assert forall|j: int| 0 <= j < before.len() implies before[j] < last by {
            assert(before.contains(before[j]));
            law_indices_are_those_with_metadata(table, last as nat, before[j]);
        }
    }
}

/// There is metadata for the indices below the high-water mark whose page, the quotient
/// by 1024, is allocated. It stands at the slot that is the remainder.
pub proof fn law_metadata_stands_at_its_place(table: TableModel, index: int)
    ensures
        table.contains(index) <==> 0 <= index < table.len && table.pages.contains_key(index / 1024),
        table.meta(index) == table.pages[index / 1024][index % 1024],
        table.contains(index) ==> table.lookup(index) == Some(
            table.pages[index / 1024][index % 1024],
        ),
        !table.contains(index) ==> table.lookup(index) is None,
{
}

/// In a valid table every allocated page has 1024 entries, none lies beyond the
/// high-water mark, the index just below the mark has metadata, and no entry at or
/// beyond the mark was ever changed.
pub proof fn law_valid_table_is_tight(table: TableModel, page: int, slot: int)
    requires
        table.wf(),
    ensures
        table.len <= u32::MAX,
        table.len > 0 ==> table.pages.contains_key((table.len - 1) / 1024),
        table.pages.contains_key(page) ==> 0 <= page && page * 1024 < table.len
            && table.pages[page].len() == 1024,
        table.pages.contains_key(page) && 0 <= slot < 1024 && page * 1024 + slot >= table.len ==> {
            &&& table.pages[page][slot].generation.bits == 0
            &&& table.pages[page][slot].location is None
            &&& table.pages[page][slot].spawned_or_despawned.by.value is None
            &&& table.pages[page][slot].spawned_or_despawned.tick.tick == 0
        },
{
}

/// Using an index raises the high-water mark just above it, unless it lies higher, and
/// allocates its page, unless it is. Pages that were allocated stay as they are. On a
/// page that is allocated all 1024 entries are those of entities that were never spawned.
pub proof fn law_use_is_exact(table: TableModel, index: int, page: int, slot: int)
    requires
        0 <= index,
    ensures
        ({
            let after = table.ensure(index);
            &&& table.len <= after.len && index + 1 <= after.len
            &&& after.len == table.len || after.len == index + 1
            &&& after.pages.contains_key(page) <==> table.pages.contains_key(page) || page == index
                / 1024
            &&& table.pages.contains_key(page) ==> after.pages[page] == table.pages[page]
            &&& page == index / 1024 && !table.pages.contains_key(page) ==> {
                &&& after.pages[page].len() == 1024
                &&& 0 <= slot < 1024 ==> {
                    &&& after.pages[page][slot].generation.bits == 0
                    &&& after.pages[page][slot].location is None
                    &&& after.pages[page][slot].spawned_or_despawned.by.value is None
                    &&& after.pages[page][slot].spawned_or_despawned.tick.tick == 0
                }
            }
        }),
{
}

/// Writing replaces the one entry at the place of the index. The high-water mark, the
/// pages and all other entries stay.
pub proof fn law_write_is_exact(
    table: TableModel,
    written: int,
    meta: EntityMeta,
    page: int,
    slot: int,
)
    requires
        table.pages.contains_key(written / 1024),
        table.pages[written / 1024].len() == 1024,
    ensures
        ({
            let after = table.write(written, meta);
            &&& after.len == table.len
            &&& after.pages.contains_key(page) <==> table.pages.contains_key(page)
            &&& table.pages.contains_key(page) ==> after.pages[page].len()
                == table.pages[page].len()
            &&& after.pages[written / 1024][written % 1024] == meta
            &&& table.pages.contains_key(page) && 0 <= slot < table.pages[page].len() && (page
                != written / 1024 || slot != written % 1024) ==> after.pages[page][slot]
                == table.pages[page][slot]
        }),
{
}

/// Checking the ticks leaves all metadata alone but that whose tick is older than
/// [`MAX_CHANGE_AGE`]. Of that the tick alone changes, and has exactly that age
/// afterwards. The high-water mark, the pages and the entries without an index in use
/// stay.
pub proof fn law_tick_check_is_exact(
    table: TableModel,
    check: CheckChangeTicks,
    page: int,
    slot: int,
)
    requires
        table.pages.contains_key(page),
        0 <= slot < table.pages[page].len(),
    ensures
        ({
            let after = table.check_ticks(check);
            let old_meta = table.pages[page][slot];
            let new_meta = after.pages[page][slot];
            let old_age = (check.present.tick - old_meta.spawned_or_despawned.tick.tick)
                % 0x1_0000_0000;
            let new_age = (check.present.tick - new_meta.spawned_or_despawned.tick.tick)
                % 0x1_0000_0000;
            &&& after.len == table.len
            &&& after.pages.dom() == table.pages.dom()
            &&& after.pages[page].len() == table.pages[page].len()
            &&& old_age <= 3_258_167_296 ==> new_meta == old_meta
            &&& page * 1024 + slot >= table.len ==> new_meta == old_meta
            &&& page * 1024 + slot < table.len && old_age > 3_258_167_296 ==> {
                &&& new_age == 3_258_167_296
                &&& new_meta.generation == old_meta.generation
                &&& new_meta.location == old_meta.location
                &&& new_meta.spawned_or_despawned.by == old_meta.spawned_or_despawned.by
            }
        }),
{
    let after = table.check_ticks(check);
    assert(after.pages.dom() =~= table.pages.dom());
    law_check_changes_only_old_ticks(table.pages[page][slot], check);
}

/// Iteration visits all metadata: the indices below the high-water mark whose page is
/// allocated, each of them and no others, in strictly ascending order.
pub proof fn law_iteration_visits_all_metadata(table: TableModel, index: int)
    ensures
        table.indices().contains(index) <==> table.contains(index),
        table.indices().contains(index) <==> 0 <= index < table.len && table.pages.contains_key(
            index / 1024,
        ),
        forall|j: int, k: int|
            0 <= j < k < table.indices().len() ==> #[trigger] table.indices()[j]
                < #[trigger] table.indices()[k],
{
    law_indices_are_those_with_metadata(table, table.len, index);
    law_indices_ascend(table, table.len);
}

/// Where the metadata lies without a gap, on the page of the high-water mark and all
/// those before it, iteration visits as many items as the high-water mark says, and the
/// one at each place is that of the index with the number of the place.
pub proof fn law_gapless_iteration_counts_up(table: TableModel, end: nat)
    requires
        end <= table.len,
        forall|page: int| 0 <= page && page * 1024 < table.len ==> #[trigger] table.pages.contains_key(page),
    ensures
        table.indices_below(end).len() == end,
        forall|k: int| 0 <= k < end ==> #[trigger] table.indices_below(end)[k] == k,
        end == table.len ==> table.indices() == table.indices_below(end),
    decreases end,
{
    if end == 0 {
        reveal(Seq::filter);
    } else {
        let last = (end - 1) as nat;
        law_gapless_iteration_counts_up(table, last);
        lemma_indices_step(table, last);
        assert(table.pages.contains_key(page_of(last as int)));
    }
}

} // verus!
