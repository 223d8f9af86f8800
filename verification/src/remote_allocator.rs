//! Remote entity allocation.
//!
//! Where a remote authority (typically a server) assigns the entity identifiers, a
//! client hands them out from a buffer that the authority fills.
//! [`RemoteEntityAllocator`] is that buffer. It never makes up an identifier of its own,
//! and it runs out unless it is replenished.

use crate::identifiers::{Entity, EntityGeneration, EntityId, EntityIndex};
use std::collections::VecDeque;
use vstd::prelude::*;

verus! {

/// The identifiers at `count` consecutive indices from `start` on, in the first
/// generation.
pub open spec fn first_generation_range(start: u32, count: u32) -> Seq<EntityId>
    recommends
        start + count <= u32::MAX,
{
    Seq::new(
        count as nat,
        |i: int|
            EntityId { index: (start + i) as u32, generation: EntityGeneration::first().bits },
    )
}

/// The identifiers of a sequence of entities.
pub open spec fn ids(entities: Seq<Entity>) -> Seq<EntityId> {
    entities.map_values(|entity: Entity| entity@)
}

/// How many of `requested` entities a pool of `available` can give.
pub open spec fn granted(requested: int, available: nat) -> int {
    if requested < available {
        requested
    } else {
        available as int
    }
}

/// An allocator that hands out entities which a remote authority assigned.
///
/// It is seen as the sequence of identifiers that it holds, in the order in which it
/// will hand them out.
#[derive(Debug)]
pub struct RemoteEntityAllocator {
    /// Provisioned entities, handed out from the front.
    available: VecDeque<Entity>,
    /// Entities that were given back. They come before the provisioned ones, the last
    /// one given back first.
    freed: Vec<Entity>,
}

impl View for RemoteEntityAllocator {
    type V = Seq<EntityId>;

    closed spec fn view(&self) -> Seq<EntityId> {
        ids(self.freed@.reverse() + self.available@)
    }
}

impl Default for RemoteEntityAllocator {
    fn default() -> (allocator: Self)
        ensures
            allocator@ == Seq::<EntityId>::empty(),
    {
        let allocator = RemoteEntityAllocator { available: VecDeque::new(), freed: Vec::new() };
        assert(allocator@ =~= Seq::<EntityId>::empty());
        allocator
    }
}

impl RemoteEntityAllocator {
    /// Makes an allocator that holds no entities.
    pub fn new() -> (allocator: Self)
        ensures
            allocator@ == Seq::<EntityId>::empty(),
    {
        Self::default()
    }

    /// Adds the entities at `count` consecutive indices from `start` on, in the first
    /// generation.
    ///
    /// The end of the range, `start + count`, must not overflow.
    pub fn add_range(&mut self, start: EntityIndex, count: u32)
        requires
            start@ + count <= u32::MAX,
        ensures
            final(self)@ == old(self)@ + first_generation_range(start@, count),
            final(self)@.len() == old(self)@.len() + count,
            forall|k: int| 0 <= k < old(self)@.len() ==> #[trigger] final(self)@[k] == old(self)@[k],
            forall|k: int|
                old(self)@.len() <= k < final(self)@.len() ==> {
                    &&& (#[trigger] final(self)@[k]).index == start@ + (k - old(self)@.len())
                    &&& final(self)@[k].generation == 0
                },
    {
        let start_raw = start.index();
        let mut i: u32 = 0;
        assert(self@ =~= old(self)@ + first_generation_range(start@, 0));
        while i < count
            invariant
                i <= count,
                start_raw == start@,
                start@ + count <= u32::MAX,
                self@ == old(self)@ + first_generation_range(start@, i),
            decreases count - i,
        {
            let ghost before = self@;
            let index_raw = start_raw + i;
            if let Some(index) = EntityIndex::from_raw_u32(index_raw) {
                self.available.push_back(Entity::from_index(index));
                proof {
                    let id = EntityId {
                        index: index_raw,
                        generation: EntityGeneration::first().bits,
                    };
                    assert(self@ =~= before.push(id));
                }
            }
            i = i + 1;
            assert(self@ =~= old(self)@ + first_generation_range(start@, i));
        }
    }

    /// Adds the given entities, each with its generation.
    pub fn add_entities(&mut self, entities: Vec<Entity>)
        ensures
            final(self)@ == old(self)@ + ids(entities@),
            final(self)@.len() == old(self)@.len() + entities@.len(),
            forall|k: int| 0 <= k < old(self)@.len() ==> #[trigger] final(self)@[k] == old(self)@[k],
            forall|k: int|
                old(self)@.len() <= k < final(self)@.len() ==> #[trigger] final(self)@[k]
                    == entities@[k - old(self)@.len()]@,
    {
        let mut i: usize = 0;
        while i < entities.len()
            invariant
                i <= entities@.len(),
                self.freed@ == old(self).freed@,
                self.available@ == old(self).available@ + entities@.take(i as int),
            decreases entities@.len() - i,
        {
            self.available.push_back(entities[i]);
            i = i + 1;
        }
        assert(self@ =~= old(self)@ + ids(entities@));
    }

    /// How many entities are available.
    pub fn available_count(&self) -> (count: usize)
        requires
            self@.len() <= usize::MAX,
        ensures
            count == self@.len(),
    {
        self.available.len() + self.freed.len()
    }

    /// Whether no entity is available.
    pub fn is_empty(&self) -> (empty: bool)
        ensures
            empty <==> self@.len() == 0,
    {
        self.available.len() == 0 && self.freed.is_empty()
    }

    /// Hands out the next entity: one that was given back if there is any, else one that
    /// was provisioned.
    pub fn alloc_mut(&mut self) -> (entity: Entity)
        requires
            old(self)@.len() > 0,
        ensures
            entity@ == old(self)@[0],
            final(self)@ == old(self)@.skip(1),
    {
        self.try_alloc().unwrap()
    }

    /// Hands out the next entity, if there is one.
    pub fn try_alloc(&mut self) -> (entity: Option<Entity>)
        ensures
            entity is Some <==> old(self)@.len() > 0,
            entity matches Some(e) ==> {
                &&& e@ == old(self)@[0]
                &&& final(self)@ == old(self)@.skip(1)
            },
            entity is None ==> final(self)@ == old(self)@,
    {
        if let Some(entity) = self.freed.pop() {
            assert(self@ =~= old(self)@.skip(1));
            return Some(entity);
        }
        let entity = self.available.pop_front();
        assert(entity is Some ==> self@ =~= old(self)@.skip(1));
        entity
    }

    /// Lets up to `count` entities be handed out, one by one. None leaves the allocator
    /// before it is asked for.
    pub fn alloc_many_mut(&mut self, count: u32) -> (cursor: AllocMany<'_>)
        ensures
            cursor.left == count,
            (*cursor.allocator)@ == old(self)@,
            *final(cursor.allocator) == *final(self),
    {
        AllocMany { allocator: self, left: count }
    }

    /// Takes an entity back. It is the next one to be handed out.
    pub fn free_entity(&mut self, entity: Entity)
        ensures
            final(self)@ == seq![entity@] + old(self)@,
    {
        self.freed.push(entity);
        assert(self@ =~= seq![entity@] + old(self)@);
    }
}

/// Hands out a limited number of entities of an allocator, one by one.
pub struct AllocMany<'a> {
    /// The allocator that the entities come from.
    pub allocator: &'a mut RemoteEntityAllocator,
    /// How many more entities may be asked for.
    pub left: u32,
}

impl<'a> AllocMany<'a> {
    /// Hands out the next entity, if there is one and the limit is not reached.
    pub fn next(&mut self) -> (entity: Option<Entity>)
        ensures
            *final(final(self).allocator) == *final(old(self).allocator),
            final(self).left == (if old(self).left > 0 {
                old(self).left - 1
            } else {
                0
            }),
            entity is Some <==> old(self).left > 0 && (*old(self).allocator)@.len() > 0,
            entity matches Some(e) ==> {
                &&& e@ == (*old(self).allocator)@[0]
                &&& (*final(self).allocator)@ == (*old(self).allocator)@.skip(1)
            },
            entity is None ==> (*final(self).allocator)@ == (*old(self).allocator)@,
    {
        if self.left == 0 {
            return None;
        }
        self.left = self.left - 1;
        self.allocator.try_alloc()
    }

    /// Hands out all that is left: as many entities as may be asked for and as there are.
    pub fn collect(self) -> (entities: Vec<Entity>)
        ensures
            ids(entities@) == old(self.allocator)@.take(
                granted(self.left as int, old(self.allocator)@.len()),
            ),
            final(self.allocator)@ == old(self.allocator)@.skip(
                granted(self.left as int, old(self.allocator)@.len()),
            ),
            entities@.len() == (if self.left < old(self.allocator)@.len() {
                self.left as nat
            } else {
                old(self.allocator)@.len()
            }),
            forall|k: int|
                0 <= k < entities@.len() ==> (#[trigger] entities@[k])@ == old(self.allocator)@[k],
            final(self.allocator)@ == old(self.allocator)@.skip(entities@.len() as int),
    {
        let ghost pool = (*self.allocator)@;
        let ghost limit = self.left as int;
        let ghost after = *final(self.allocator);
        let mut cursor = self;
        let mut entities: Vec<Entity> = Vec::new();
        assert(pool.take(0) =~= ids(entities@));
        assert(pool.skip(0) =~= pool);
        loop
            invariant_except_break
                entities@.len() + cursor.left == limit,
            invariant
                *final(cursor.allocator) == after,
                entities@.len() <= pool.len(),
                ids(entities@) == pool.take(entities@.len() as int),
                (*cursor.allocator)@ == pool.skip(entities@.len() as int),
            ensures
                entities@.len() == granted(limit, pool.len()),
            decreases cursor.left,
        {
            match cursor.next() {
                Some(entity) => {
                    entities.push(entity);
                    assert(ids(entities@) =~= pool.take(entities@.len() as int));
                    assert((*cursor.allocator)@ =~= pool.skip(entities@.len() as int));
                },
                None => {
                    break;
                },
            }
        }
        assert forall|k: int| 0 <= k < entities@.len() implies (#[trigger] entities@[k])@
            == pool[k] by {
            assert(ids(entities@)[k] == pool[k]);
        }
        entities
    }
}

} // verus!
