use entity_store::entity_meta_table::EntityMetaTable;
use entity_store::identifiers::{EntityGeneration, EntityIndex};
use entity_store::meta::{EntityLocation, EntityMeta};
use entity_store::paging::{inner_index, page_index, PAGE_BITS, PAGE_MASK, PAGE_SIZE};
use entity_store::tick::{CheckChangeTicks, Tick, MAX_CHANGE_AGE};

fn make_index(raw: u32) -> EntityIndex {
    EntityIndex::from_raw_u32(raw).unwrap()
}

fn make_location(row: u32) -> EntityLocation {
    EntityLocation { archetype_id: 1, archetype_row: row, table_id: 2, table_row: row }
}

fn raw_indices(table: &EntityMetaTable) -> Vec<u32> {
    table.iter().iter().map(|item| item.0.index()).collect()
}

#[test]
fn test_page_indexing() {
    // Page 0: indices 0-1023
    assert_eq!(page_index(0), 0);
    assert_eq!(inner_index(0), 0);
    assert_eq!(page_index(1023), 0);
    assert_eq!(inner_index(1023), 1023);

    // Page 1: indices 1024-2047
    assert_eq!(page_index(1024), 1);
    assert_eq!(inner_index(1024), 0);
    assert_eq!(page_index(2047), 1);
    assert_eq!(inner_index(2047), 1023);

    // Large sparse index
    assert_eq!(page_index(1_000_000), 976);
    assert_eq!(inner_index(1_000_000), 576);
}

#[test]
fn test_empty_table() {
    let table = EntityMetaTable::new();
    assert!(table.is_empty());
    assert_eq!(table.len(), 0);
    assert!(table.get(make_index(0)).is_none());
}

#[test]
fn test_ensure_and_get() {
    let mut table = EntityMetaTable::new();

    // Ensure index 0
    table.ensure_index(make_index(0));
    assert_eq!(table.len(), 1);
    assert!(table.get(make_index(0)).is_some());

    // Ensure index 1000 (same page)
    table.ensure_index(make_index(1000));
    assert_eq!(table.len(), 1001);
    assert!(table.get(make_index(1000)).is_some());

    // Ensure sparse index in different page
    table.ensure_index(make_index(100_000));
    assert_eq!(table.len(), 100_001);
    assert!(table.get(make_index(100_000)).is_some());

    // Original indices still accessible
    assert!(table.get(make_index(0)).is_some());
    assert!(table.get(make_index(1000)).is_some());
}

#[test]
fn test_sparse_memory_efficiency() {
    let mut table = EntityMetaTable::new();

    // Only ensure two sparse indices
    table.ensure_index(make_index(0));
    table.ensure_index(make_index(1_000_000));

    // Should only have allocated 2 pages (page 0 and page 976)
    // Not 977 pages like a Vec would require
    let allocated_pages = table.allocated_pages();
    assert_eq!(allocated_pages, 2);
}

#[test]
fn test_get_or_fresh() {
    let table = EntityMetaTable::new();

    // Non-existent index returns fresh metadata
    let meta = table.get_or_fresh(make_index(12345));
    assert_eq!(meta.generation, EntityGeneration::first());
    assert!(meta.location.is_none());
}

#[test]
fn test_mutation() {
    let mut table = EntityMetaTable::new();
    table.ensure_index(make_index(42));

    // Mutate the metadata
    if let Some(meta) = table.get_mut(make_index(42)) {
        meta.generation = EntityGeneration::first().after_versions(5);
    }

    // Verify mutation persisted
    let meta = table.get(make_index(42)).unwrap();
    assert_eq!(meta.generation, EntityGeneration::first().after_versions(5));
}

#[test]
fn test_clear() {
    let mut table = EntityMetaTable::new();
    table.ensure_index(make_index(0));
    table.ensure_index(make_index(100_000));

    assert!(!table.is_empty());

    table.clear();

    assert!(table.is_empty());
    assert_eq!(table.len(), 0);
    assert!(table.get(make_index(0)).is_none());
}

#[test]
fn page_constants_agree() {
    assert_eq!(PAGE_SIZE, 1 << PAGE_BITS);
    assert_eq!(PAGE_MASK as usize, PAGE_SIZE - 1);
}

#[test]
fn page_and_slot_give_the_index_back() {
    for raw in [0u32, 1, 1023, 1024, 4097, 1_000_000, u32::MAX - 1, u32::MAX] {
        assert_eq!(page_index(raw) * PAGE_SIZE + inner_index(raw), raw as usize);
    }
}

#[test]
fn fresh_metadata() {
    let fresh = EntityMeta::fresh();
    assert_eq!(fresh.generation, EntityGeneration::first());
    assert!(fresh.location.is_none());
    assert!(fresh.spawned_or_despawned.by.value.is_none());
    assert_eq!(fresh.spawned_or_despawned.tick, Tick::new(0));
}

#[test]
fn unused_index_is_absent() {
    let mut table = EntityMetaTable::new();
    table.ensure_index(make_index(0));
    assert_eq!(table.len(), 1);
    assert!(table.get(make_index(5)).is_none());
    assert!(table.get_mut(make_index(5)).is_none());
    assert!(table.get(make_index(1023)).is_none());
    assert!(table.get(make_index(1024)).is_none());

    table.ensure_index(make_index(5));
    assert!(table.get(make_index(5)).is_some());
    assert!(table.get_mut(make_index(5)).is_some());
    assert!(table.get(make_index(6)).is_none());
}

#[test]
fn page_in_the_gap_is_absent() {
    let mut table = EntityMetaTable::new();
    table.ensure_index(make_index(5000));
    assert_eq!(table.len(), 5001);
    assert!(table.get(make_index(4096)).is_some());
    assert!(table.get(make_index(2000)).is_none());
    assert!(table.get_mut(make_index(2000)).is_none());
    assert_eq!(table.allocated_pages(), 1);
}

#[test]
fn greatest_index_is_stored() {
    let mut table = EntityMetaTable::new();
    table.ensure_index(make_index(u32::MAX - 1));
    assert_eq!(table.len(), u32::MAX as usize);
    assert!(table.get(make_index(u32::MAX - 1)).is_some());
    assert!(table.get(make_index(0)).is_none());
    assert_eq!(table.allocated_pages(), 1);
    let items = table.iter();
    assert_eq!(items.len(), 1023);
    assert_eq!(items[0].0.index(), u32::MAX - 1023);
    assert_eq!(items[1022].0.index(), u32::MAX - 1);
}

#[test]
fn use_keeps_what_was_written() {
    let mut table = EntityMetaTable::new();
    table.ensure_index(make_index(7));
    table.get_mut(make_index(7)).unwrap().location = Some(make_location(7));
    table.ensure_index(make_index(7));
    table.ensure_index(make_index(90_000));
    assert_eq!(table.get(make_index(7)).unwrap().location, Some(make_location(7)));
    assert!(table.get(make_index(6)).unwrap().location.is_none());
    assert!(table.get(make_index(90_000)).unwrap().location.is_none());
}

#[test]
fn len_does_not_fall() {
    let mut table = EntityMetaTable::new();
    table.ensure_index(make_index(3000));
    table.ensure_index(make_index(10));
    assert_eq!(table.len(), 3001);
    assert_eq!(table.allocated_pages(), 2);
}

#[test]
fn order_of_use_does_not_matter() {
    let mut ascending = EntityMetaTable::new();
    ascending.ensure_index(make_index(3));
    ascending.ensure_index(make_index(5000));
    let mut descending = EntityMetaTable::new();
    descending.ensure_index(make_index(5000));
    descending.ensure_index(make_index(3));
    assert_eq!(ascending.len(), descending.len());
    assert_eq!(ascending.allocated_pages(), descending.allocated_pages());
    assert_eq!(raw_indices(&ascending), raw_indices(&descending));
}

#[test]
fn unchecked_access() {
    let mut table = EntityMetaTable::new();
    table.ensure_index(make_index(2000));
    table.get_unchecked_mut(make_index(2000)).location = Some(make_location(1));
    assert_eq!(table.get_unchecked(make_index(2000)).location, Some(make_location(1)));
    assert!(table.get_unchecked(make_index(1999)).location.is_none());
}

#[test]
fn present_metadata_is_not_replaced_by_fresh() {
    let mut table = EntityMetaTable::new();
    table.ensure_index(make_index(1));
    table.get_mut(make_index(1)).unwrap().generation = EntityGeneration::first().after_versions(2);
    assert_eq!(table.get_or_fresh(make_index(1)).generation.bits, 2);
    assert_eq!(table.get_or_fresh(make_index(2)).generation.bits, 0);
}

#[test]
fn iteration_stops_at_len() {
    let mut table = EntityMetaTable::new();
    assert!(table.iter().is_empty());
    table.ensure_index(make_index(2));
    assert_eq!(raw_indices(&table), vec![0, 1, 2]);
}

#[test]
fn iteration_skips_absent_pages() {
    let mut table = EntityMetaTable::new();
    table.ensure_index(make_index(0));
    table.ensure_index(make_index(4098));
    let indices = raw_indices(&table);
    assert_eq!(indices.len(), 1024 + 3);
    assert_eq!(indices[1023], 1023);
    assert_eq!(&indices[1024..], &[4096, 4097, 4098]);
}

#[test]
fn iteration_pairs_index_and_metadata() {
    let mut table = EntityMetaTable::new();
    table.ensure_index(make_index(1025));
    table.get_mut(make_index(1025)).unwrap().location = Some(make_location(9));
    let items = table.iter();
    assert_eq!(items.len(), 2);
    assert_eq!(items[0].0.index(), 1024);
    assert!(items[0].1.location.is_none());
    assert_eq!(items[1].0.index(), 1025);
    assert_eq!(items[1].1.location, Some(make_location(9)));
}

#[test]
fn mutable_iteration_writes_through() {
    let mut table = EntityMetaTable::new();
    table.ensure_index(make_index(0));
    table.ensure_index(make_index(3074));
    let mut row = 0;
    for meta in table.iter_mut() {
        meta.location = Some(make_location(row));
        row += 1;
    }
    assert_eq!(row, 1024 + 3);
    assert_eq!(table.get(make_index(0)).unwrap().location, Some(make_location(0)));
    assert_eq!(table.get(make_index(1023)).unwrap().location, Some(make_location(1023)));
    assert_eq!(table.get(make_index(3072)).unwrap().location, Some(make_location(1024)));
    assert_eq!(table.get(make_index(3074)).unwrap().location, Some(make_location(1026)));
    assert_eq!(table.len(), 3075);
    // Beyond the high-water mark nothing was visited
    assert!(table.get(make_index(3075)).is_none());
    table.ensure_index(make_index(3075));
    assert!(table.get(make_index(3075)).unwrap().location.is_none());
    assert_eq!(table.allocated_pages(), 2);
}

#[test]
fn mutable_iteration_of_an_empty_table() {
    let mut table = EntityMetaTable::new();
    assert!(table.iter_mut().is_empty());
}

#[test]
fn tick_check_clamps_old_ticks() {
    let mut table = EntityMetaTable::new();
    table.ensure_index(make_index(1));
    table.get_mut(make_index(0)).unwrap().spawned_or_despawned.tick = Tick::new(3_999_999_999);
    table.get_mut(make_index(0)).unwrap().location = Some(make_location(3));
    let check = CheckChangeTicks { present: Tick::new(4_000_000_000) };
    table.check_change_ticks(check);
    let recent = table.get(make_index(0)).unwrap();
    assert_eq!(recent.spawned_or_despawned.tick.get(), 3_999_999_999);
    assert_eq!(recent.location, Some(make_location(3)));
    assert_eq!(table.get(make_index(1)).unwrap().spawned_or_despawned.tick.get(), 741_832_704);
    table.check_change_ticks(check);
    assert_eq!(table.get(make_index(1)).unwrap().spawned_or_despawned.tick.get(), 741_832_704);

    // What comes into use later is fresh
    assert!(table.get(make_index(2)).is_none());
    table.ensure_index(make_index(2));
    assert_eq!(table.get(make_index(2)).unwrap().spawned_or_despawned.tick, Tick::new(0));
}

#[test]
fn tick_ages() {
    assert_eq!(MAX_CHANGE_AGE, u32::MAX - (2 * 518_400_000 - 1));
    let check = CheckChangeTicks { present: Tick::new(10) };
    assert_eq!(check.present_tick(), Tick::new(10));
    assert_eq!(Tick::new(10).relative_to(Tick::new(4)).get(), 6);
    assert_eq!(Tick::new(4).relative_to(Tick::new(10)).get(), u32::MAX - 5);

    let mut tick = Tick::new(4);
    assert!(!tick.check_tick(check));
    assert_eq!(tick, Tick::new(4));

    // A tick ahead of the present one counts as very old
    let mut tick = Tick::new(11);
    assert!(tick.check_tick(check));
    assert_eq!(check.present_tick().relative_to(tick).get(), MAX_CHANGE_AGE);

    let mut oldest = Tick::new(0);
    assert!(!oldest.check_tick(CheckChangeTicks { present: Tick::new(MAX_CHANGE_AGE) }));
    assert!(oldest.check_tick(CheckChangeTicks { present: Tick::new(MAX_CHANGE_AGE + 1) }));
    assert_eq!(oldest, Tick::new(1));
}

#[test]
fn clone_is_independent() {
    let mut table = EntityMetaTable::new();
    table.ensure_index(make_index(2050));
    table.get_mut(make_index(2050)).unwrap().location = Some(make_location(4));
    let copy = table.clone();
    table.clear();
    assert_eq!(copy.len(), 2051);
    assert_eq!(copy.allocated_pages(), 1);
    assert_eq!(copy.get(make_index(2050)).unwrap().location, Some(make_location(4)));
    assert!(copy.get(make_index(0)).is_none());
}
