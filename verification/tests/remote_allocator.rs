use entity_store::identifiers::{Entity, EntityGeneration, EntityIndex};
use entity_store::remote_allocator::RemoteEntityAllocator;

fn make_index(raw: u32) -> EntityIndex {
    EntityIndex::from_raw_u32(raw).unwrap()
}

fn make_entity(raw: u32, versions: u32) -> Entity {
    Entity::from_index_and_generation(
        make_index(raw),
        EntityGeneration::first().after_versions(versions),
    )
}

fn raw_indices(entities: &[Entity]) -> Vec<u32> {
    entities.iter().map(|entity| entity.index().index()).collect()
}

#[test]
fn basic_allocation() {
    let mut allocator = RemoteEntityAllocator::new();
    assert!(allocator.is_empty());

    // Add a range of IDs
    let start = EntityIndex::from_raw_u32(100).unwrap();
    allocator.add_range(start, 5);

    assert!(!allocator.is_empty());
    assert_eq!(allocator.available_count(), 5);

    // Allocate entities
    let e1 = allocator.alloc_mut();
    assert_eq!(e1.index().index(), 100);

    let e2 = allocator.alloc_mut();
    assert_eq!(e2.index().index(), 101);

    assert_eq!(allocator.available_count(), 3);
}

#[test]
fn freed_entities_prioritized() {
    let mut allocator = RemoteEntityAllocator::new();

    // Add fresh IDs
    let start = EntityIndex::from_raw_u32(100).unwrap();
    allocator.add_range(start, 5);

    // Allocate and free one
    let e1 = allocator.alloc_mut();
    let freed_entity = Entity::from_index_and_generation(
        e1.index(),
        EntityGeneration::first().after_versions(1),
    );
    allocator.free_entity(freed_entity);

    // Next allocation should return the freed entity, not a fresh one
    let e2 = allocator.alloc_mut();
    assert_eq!(e2.index(), e1.index());
    assert_eq!(e2.generation(), EntityGeneration::first().after_versions(1));
}

#[test]
fn try_alloc_returns_none_when_empty() {
    let mut allocator = RemoteEntityAllocator::new();
    assert!(allocator.try_alloc().is_none());

    allocator.add_range(EntityIndex::from_raw_u32(1).unwrap(), 1);
    assert!(allocator.try_alloc().is_some());
    assert!(allocator.try_alloc().is_none());
}

#[test]
fn add_specific_entities() {
    let mut allocator = RemoteEntityAllocator::new();

    let entities = vec![
        Entity::from_index_and_generation(
            EntityIndex::from_raw_u32(50).unwrap(),
            EntityGeneration::first().after_versions(3),
        ),
        Entity::from_index_and_generation(
            EntityIndex::from_raw_u32(100).unwrap(),
            EntityGeneration::first().after_versions(7),
        ),
    ];

    allocator.add_entities(entities);
    assert_eq!(allocator.available_count(), 2);

    let e1 = allocator.alloc_mut();
    assert_eq!(e1.index().index(), 50);
    assert_eq!(e1.generation(), EntityGeneration::first().after_versions(3));
}

#[test]
fn alloc_many_partial() {
    let mut allocator = RemoteEntityAllocator::new();
    allocator.add_range(EntityIndex::from_raw_u32(1).unwrap(), 3);

    // Request more than available
    let allocated: Vec<_> = allocator.alloc_many_mut(5).collect();
    assert_eq!(allocated.len(), 3);
}

#[test]
fn server_assigned_range_comes_out_in_order() {
    let mut allocator = RemoteEntityAllocator::new();
    allocator.add_range(EntityIndex::from_raw_u32(1000).unwrap(), 100);
    assert_eq!(allocator.alloc_mut(), make_entity(1000, 0));
    assert_eq!(allocator.alloc_mut(), make_entity(1001, 0));
}

#[test]
fn largest_number_is_no_index() {
    assert!(EntityIndex::from_raw_u32(u32::MAX).is_none());
    assert_eq!(EntityIndex::from_raw_u32(u32::MAX - 1).unwrap().index(), u32::MAX - 1);
    assert_eq!(EntityIndex::from_raw_u32(0).unwrap().index(), 0);
    assert_eq!(EntityIndex::new(17), make_index(17));
}

#[test]
fn generations_wrap() {
    assert_eq!(EntityGeneration::first().bits, 0);
    let last = EntityGeneration::first().after_versions(u32::MAX);
    assert_eq!(last.bits, u32::MAX);
    assert_eq!(last.after_versions(3).bits, 2);
}

#[test]
fn range_reaches_the_greatest_index() {
    let mut allocator = RemoteEntityAllocator::new();
    allocator.add_range(make_index(u32::MAX - 2), 2);
    assert_eq!(allocator.available_count(), 2);
    let entities = allocator.alloc_many_mut(3).collect();
    assert_eq!(raw_indices(&entities), vec![u32::MAX - 2, u32::MAX - 1]);
}

#[test]
fn unpolled_cursor_takes_nothing() {
    let mut allocator = RemoteEntityAllocator::new();
    allocator.add_range(make_index(60), 3);
    let cursor = allocator.alloc_many_mut(2);
    assert_eq!(cursor.left, 2);
    assert_eq!(allocator.available_count(), 3);
    assert_eq!(allocator.alloc_mut(), make_entity(60, 0));
}

#[test]
fn cursor_takes_one_entity_per_poll() {
    let mut allocator = RemoteEntityAllocator::new();
    allocator.add_range(make_index(60), 3);
    let mut cursor = allocator.alloc_many_mut(2);
    assert_eq!(cursor.next(), Some(make_entity(60, 0)));
    assert_eq!(allocator.available_count(), 2);

    let mut cursor = allocator.alloc_many_mut(1);
    assert_eq!(cursor.next(), Some(make_entity(61, 0)));
    assert_eq!(cursor.next(), None);
    assert_eq!(cursor.next(), None);
    assert_eq!(allocator.available_count(), 1);

    let mut cursor = allocator.alloc_many_mut(5);
    assert_eq!(cursor.next(), Some(make_entity(62, 0)));
    assert_eq!(cursor.next(), None);
    assert!(allocator.is_empty());
}

#[test]
fn collecting_continues_after_polls() {
    let mut allocator = RemoteEntityAllocator::new();
    allocator.add_range(make_index(70), 6);
    let mut cursor = allocator.alloc_many_mut(4);
    assert_eq!(cursor.next(), Some(make_entity(70, 0)));
    assert_eq!(raw_indices(&cursor.collect()), vec![71, 72, 73]);
    assert_eq!(allocator.available_count(), 2);
}

#[test]
fn empty_range_adds_nothing() {
    let mut allocator = RemoteEntityAllocator::default();
    allocator.add_range(make_index(u32::MAX - 1), 0);
    assert!(allocator.is_empty());
    assert_eq!(allocator.available_count(), 0);
    assert!(allocator.alloc_many_mut(4).collect().is_empty());
}

#[test]
fn ranges_queue_up() {
    let mut allocator = RemoteEntityAllocator::new();
    allocator.add_range(make_index(10), 2);
    allocator.add_entities(vec![make_entity(7, 4)]);
    allocator.add_range(make_index(3), 1);
    assert_eq!(raw_indices(&allocator.alloc_many_mut(10).collect()), vec![10, 11, 7, 3]);
}

#[test]
fn last_freed_comes_first() {
    let mut allocator = RemoteEntityAllocator::new();
    allocator.add_range(make_index(20), 2);
    allocator.free_entity(make_entity(1, 1));
    allocator.free_entity(make_entity(2, 1));
    allocator.add_range(make_index(30), 1);
    assert_eq!(allocator.available_count(), 5);
    assert_eq!(raw_indices(&allocator.alloc_many_mut(10).collect()), vec![2, 1, 20, 21, 30]);
}

#[test]
fn freeing_alone_makes_available() {
    let mut allocator = RemoteEntityAllocator::new();
    allocator.free_entity(make_entity(5, 2));
    assert!(!allocator.is_empty());
    assert_eq!(allocator.try_alloc(), Some(make_entity(5, 2)));
    assert!(allocator.is_empty());
}

#[test]
fn requests_add_up() {
    let mut split = RemoteEntityAllocator::new();
    split.add_range(make_index(0), 5);
    let mut entities = split.alloc_many_mut(2).collect();
    entities.extend(split.alloc_many_mut(4).collect());
    let mut whole = RemoteEntityAllocator::new();
    whole.add_range(make_index(0), 5);
    assert_eq!(entities, whole.alloc_many_mut(6).collect());
    assert!(split.is_empty());
    assert!(whole.is_empty());
}

#[test]
fn request_leaves_the_rest() {
    let mut allocator = RemoteEntityAllocator::new();
    allocator.add_range(make_index(40), 4);
    assert_eq!(raw_indices(&allocator.alloc_many_mut(0).collect()), vec![]);
    assert_eq!(raw_indices(&allocator.alloc_many_mut(3).collect()), vec![40, 41, 42]);
    assert_eq!(allocator.available_count(), 1);
    assert_eq!(allocator.alloc_mut(), make_entity(43, 0));
}

#[test]
fn disjoint_ranges_share_no_entity() {
    let mut first = RemoteEntityAllocator::new();
    first.add_range(make_index(0), 10);
    let mut second = RemoteEntityAllocator::new();
    second.add_range(make_index(10), 10);
    let seconds = second.alloc_many_mut(10).collect();
    for entity in first.alloc_many_mut(10).collect() {
        assert!(!seconds.contains(&entity));
    }
}
