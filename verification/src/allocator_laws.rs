//! What holds of the remote allocator across several operations.
//!
//! The laws speak of the pool, the sequence of identifiers that an allocator holds in
//! the order in which it will hand them out. The contracts of the allocator's functions
//! speak of it too.

use crate::identifiers::{Entity, EntityGeneration, EntityId};
use crate::remote_allocator::{first_generation_range, granted, ids};
use vstd::multiset::Multiset;
use vstd::prelude::*;

verus! {

/// A step in the life of an allocator.
pub enum PoolEvent {
    /// Identifiers were provisioned.
    Provision(Seq<EntityId>),
    /// An identifier was given back.
    Free(EntityId),
    /// The next identifier was asked for.
    Alloc,
}

/// The pool after `events`, in the order of the sequence, from an empty allocator.
pub open spec fn pool_after(events: Seq<PoolEvent>) -> Seq<EntityId>
    decreases events.len(),
{
    if events.len() == 0 {
        Seq::empty()
    } else {
        let pool = pool_after(events.drop_last());
        match events.last() {
            PoolEvent::Provision(added) => pool + added,
            PoolEvent::Free(id) => seq![id] + pool,
            PoolEvent::Alloc => if pool.len() > 0 {
                pool.skip(1)
            } else {
                pool
            },
        }
    }
}

/// What came into the allocator in `events`.
pub open spec fn came_in(events: Seq<PoolEvent>) -> Multiset<EntityId>
    decreases events.len(),
{
    if events.len() == 0 {
        Multiset::empty()
    } else {
        let before = came_in(events.drop_last());
        match events.last() {
            PoolEvent::Provision(added) => before.add(added.to_multiset()),
            PoolEvent::Free(id) => before.insert(id),
            PoolEvent::Alloc => before,
        }
    }
}

/// What the allocator handed out in `events`.
pub open spec fn handed_out(events: Seq<PoolEvent>) -> Multiset<EntityId>
    decreases events.len(),
{
    if events.len() == 0 {
        Multiset::empty()
    } else {
        let before = handed_out(events.drop_last());
        let pool = pool_after(events.drop_last());
        match events.last() {
            PoolEvent::Alloc => if pool.len() > 0 {
                before.insert(pool[0])
            } else {
                before
            },
            _ => before,
        }
    }
}

/// Taking the first element off a sequence takes it out of its multiset.
proof fn lemma_skip_first(pool: Seq<EntityId>)
    requires
        pool.len() > 0,
    ensures
        pool.to_multiset() == pool.skip(1).to_multiset().insert(pool[0]),
{
    broadcast use vstd::seq_lib::group_to_multiset_ensures;

    assert(pool =~= seq![pool[0]] + pool.skip(1));
    vstd::seq_lib::lemma_multiset_commutative(seq![pool[0]], pool.skip(1));
    assert(seq![pool[0]] =~= Seq::<EntityId>::empty().push(pool[0]));
    assert(pool.to_multiset() =~= pool.skip(1).to_multiset().insert(pool[0]));
}

/// The allocator neither makes up identifiers nor loses any: what it handed out and what
/// it still holds is, each as often, what was provisioned or given back.
pub proof fn law_identifiers_are_conserved(events: Seq<PoolEvent>)
    ensures
        handed_out(events).add(pool_after(events).to_multiset()) == came_in(events),
    decreases events.len(),
{
    broadcast use vstd::seq_lib::group_to_multiset_ensures;

    if events.len() > 0 {
        let before = events.drop_last();
        law_identifiers_are_conserved(before);
        let pool = pool_after(before);
        match events.last() {
            PoolEvent::Provision(added) => {
                vstd::seq_lib::lemma_multiset_commutative(pool, added);
            },
            PoolEvent::Free(id) => {
                let next = seq![id] + pool;
                assert(next.skip(1) =~= pool);
                lemma_skip_first(next);
            },
            PoolEvent::Alloc => {
                if pool.len() > 0 {
                    lemma_skip_first(pool);
                }
            },
        }
    }
    assert(handed_out(events).add(pool_after(events).to_multiset()) =~= came_in(events));
}

/// An identifier that was handed out had been provisioned or given back.
pub proof fn law_nothing_is_made_up(events: Seq<PoolEvent>, id: EntityId)
    requires
        handed_out(events).contains(id),
    ensures
        came_in(events).contains(id),
{
    law_identifiers_are_conserved(events);
}

/// Clients that were given different identifiers never hand out the same one.
pub proof fn law_clients_do_not_conflict(
    events: Seq<PoolEvent>,
    other_events: Seq<PoolEvent>,
    id: EntityId,
)
    requires
        !(came_in(events).contains(id) && came_in(other_events).contains(id)),
    ensures
        !(handed_out(events).contains(id) && handed_out(other_events).contains(id)),
{
    law_identifiers_are_conserved(events);
    law_identifiers_are_conserved(other_events);
}

/// Asking for `count` identifiers at once is asking for the next one `count` times.
pub proof fn law_many_is_one_after_the_other(events: Seq<PoolEvent>, count: nat)
    ensures
        ({
            let pool = pool_after(events);
            let taken = granted(count as int, pool.len());
            let later = events + Seq::new(count, |i: int| PoolEvent::Alloc);
            &&& pool_after(later) == pool.skip(taken)
            &&& handed_out(later) == handed_out(events).add(pool.take(taken).to_multiset())
        }),
    decreases count,
{
    broadcast use vstd::seq_lib::group_to_multiset_ensures;

    let pool = pool_after(events);
    let taken = granted(count as int, pool.len());
    let later = events + Seq::new(count, |i: int| PoolEvent::Alloc);
    if count == 0 {
        assert(later =~= events);
        assert(pool.skip(0) =~= pool);
        assert(pool.take(0) =~= Seq::<EntityId>::empty());
        assert(handed_out(later) =~= handed_out(events).add(pool.take(0).to_multiset()));
    } else {
        let fewer = (count - 1) as nat;
        let taken_before = granted(fewer as int, pool.len());
        law_many_is_one_after_the_other(events, fewer);
        assert(later.drop_last() =~= events + Seq::new(fewer, |i: int| PoolEvent::Alloc));
        if taken_before < pool.len() {
            assert(pool.skip(taken_before).skip(1) =~= pool.skip(taken));
            assert(pool.take(taken) =~= pool.take(taken_before).push(pool[taken_before]));
        }
        assert(handed_out(later) =~= handed_out(events).add(pool.take(taken).to_multiset()));
    }
}

/// An identifier given back is the next one handed out, and then the pool is as before.
pub proof fn law_freed_is_allocated_next(pool: Seq<EntityId>, id: EntityId)
    ensures
        (seq![id] + pool)[0] == id,
        (seq![id] + pool).skip(1) == pool,
{
    assert((seq![id] + pool).skip(1) =~= pool);
}

/// Identifiers given back come before those provisioned, whichever happened first.
pub proof fn law_freed_before_provisioned(
    pool: Seq<EntityId>,
    id: EntityId,
    added: Seq<EntityId>,
)
    ensures
        seq![id] + (pool + added) == (seq![id] + pool) + added,
{
    assert(seq![id] + (pool + added) =~= (seq![id] + pool) + added);
}

/// Provisioned identifiers wait behind those already there, and come out in the order in
/// which they were provisioned.
pub proof fn law_provisioned_in_order(pool: Seq<EntityId>, added: Seq<EntityId>)
    ensures
        (pool + added).take(pool.len() as int) == pool,
        (pool + added).skip(pool.len() as int) == added,
{
    assert((pool + added).take(pool.len() as int) =~= pool);
    assert((pool + added).skip(pool.len() as int) =~= added);
}

/// What asking a cursor `polls` times gives, where the cursor may take up to `limit`
/// identifiers from `pool`.
pub open spec fn polled(pool: Seq<EntityId>, limit: nat, polls: nat) -> Seq<Option<EntityId>>
    decreases polls,
{
    if polls == 0 {
        Seq::empty()
    } else if limit > 0 && pool.len() > 0 {
        seq![Some(pool[0])] + polled(pool.skip(1), (limit - 1) as nat, (polls - 1) as nat)
    } else {
        seq![None] + polled(
            pool,
            if limit > 0 {
                (limit - 1) as nat
            } else {
                0
            },
            (polls - 1) as nat,
        )
    }
}

/// The pool after a cursor that may take up to `limit` identifiers was asked `polls`
/// times.
pub open spec fn pool_after_polls(pool: Seq<EntityId>, limit: nat, polls: nat) -> Seq<EntityId>
    decreases polls,
{
    if polls == 0 {
        pool
    } else if limit > 0 && pool.len() > 0 {
        pool_after_polls(pool.skip(1), (limit - 1) as nat, (polls - 1) as nat)
    } else {
        pool_after_polls(
            pool,
            if limit > 0 {
                (limit - 1) as nat
            } else {
                0
            },
            (polls - 1) as nat,
        )
    }
}

/// A cursor takes an identifier only when asked: asked `polls` times, it hands out the
/// first identifiers of the pool, in order, up to its limit and as long as there are any,
/// and nothing from then on. The rest stays in the pool. A cursor that was never asked
/// takes nothing.
pub proof fn law_cursor_takes_what_is_asked_for(pool: Seq<EntityId>, limit: nat, polls: nat)
    ensures
        ({
            let taken = granted(
                if polls < limit {
                    polls as int
                } else {
                    limit as int
                },
                pool.len(),
            );
            &&& polled(pool, limit, polls).len() == polls
            &&& forall|i: int|
                0 <= i < polls ==> #[trigger] polled(pool, limit, polls)[i] == (if i < taken {
                    Some(pool[i])
                } else {
                    None
                })
            &&& pool_after_polls(pool, limit, polls) == pool.skip(taken)
        }),
    decreases polls,
{
    if polls == 0 {
        assert(pool.skip(0) =~= pool);
    } else {
        let fewer = (polls - 1) as nat;
        let lower = if limit > 0 {
            (limit - 1) as nat
        } else {
            0
        };
        if limit > 0 && pool.len() > 0 {
            law_cursor_takes_what_is_asked_for(pool.skip(1), lower, fewer);
            let taken = granted(
                if polls < limit {
                    polls as int
                } else {
                    limit as int
                },
                pool.len(),
            );
            assert(pool.skip(1).skip(taken - 1) =~= pool.skip(taken));
        } else {
            law_cursor_takes_what_is_asked_for(pool, lower, fewer);
        }
    }
}

/// Asking for `a` and then for `b` is asking for `a + b`, also where the pool runs out.
pub proof fn law_requests_add_up(pool: Seq<EntityId>, a: nat, b: nat)
    ensures
        ({
            let first = granted(a as int, pool.len());
            let rest = pool.skip(first);
            let second = granted(b as int, rest.len());
            let both = granted((a + b) as int, pool.len());
            &&& pool.take(first) + rest.take(second) == pool.take(both)
            &&& rest.skip(second) == pool.skip(both)
        }),
{
    let first = granted(a as int, pool.len());
    let rest = pool.skip(first);
    let second = granted(b as int, rest.len());
    let both = granted((a + b) as int, pool.len());
    assert(pool.take(first) + rest.take(second) =~= pool.take(both));
    assert(rest.skip(second) =~= pool.skip(both));
}

/// Handing out lowers the count by as much as was handed out, giving back raises it by
/// one, provisioning by as much as was provisioned.
pub proof fn law_counts(pool: Seq<EntityId>, requested: nat, id: EntityId, added: Seq<EntityId>)
    ensures
        pool.take(granted(requested as int, pool.len())).len() + pool.skip(
            granted(requested as int, pool.len()),
        ).len() == pool.len(),
        (seq![id] + pool).len() == pool.len() + 1,
        (pool + added).len() == pool.len() + added.len(),
{
}

/// No identifier is handed out twice from a pool without duplicates, nor does one that
/// was handed out stay in it.
pub proof fn law_no_identifier_twice(pool: Seq<EntityId>, requested: nat)
    requires
        pool.no_duplicates(),
    ensures
        ({
            let count = granted(requested as int, pool.len());
            &&& pool.take(count).no_duplicates()
            &&& pool.skip(count).no_duplicates()
            &&& forall|id: EntityId| #[trigger]
                pool.take(count).contains(id) ==> !pool.skip(count).contains(id)
        }),
{
}

/// A range holds every one of its indices once, in the first generation, and nothing
/// else.
pub proof fn law_range_is_exact(start: u32, count: u32, id: EntityId)
    requires
        start + count <= u32::MAX,
    ensures
        first_generation_range(start, count).len() == count,
        first_generation_range(start, count).no_duplicates(),
        first_generation_range(start, count).contains(id) <==> {
            &&& start <= id.index < start + count
            &&& id.generation == EntityGeneration::first().bits
        },
{
    let range = first_generation_range(start, count);
    if start <= id.index < start + count && id.generation == EntityGeneration::first().bits {
        assert(range[id.index - start] == id);
    }
}

/// Ranges that do not overlap share no identifier.
pub proof fn law_disjoint_ranges_share_nothing(
    start: u32,
    count: u32,
    other_start: u32,
    other_count: u32,
    id: EntityId,
)
    requires
        start + count <= other_start,
        other_start + other_count <= u32::MAX,
    ensures
        !(first_generation_range(start, count).contains(id) && first_generation_range(
            other_start,
            other_count,
        ).contains(id)),
{
    law_range_is_exact(start, count, id);
    law_range_is_exact(other_start, other_count, id);
}

/// The identifiers of a sequence of entities are those of its elements, one for one and
/// in order.
pub proof fn law_ids_are_those_of_the_elements(entities: Seq<Entity>)
    ensures
        ids(entities).len() == entities.len(),
        forall|k: int| 0 <= k < entities.len() ==> #[trigger] ids(entities)[k] == entities[k]@,
{
}

/// As much is granted as was requested and is available: the lesser of the two.
pub proof fn law_granted_is_the_lesser(requested: int, available: nat)
    ensures
        granted(requested, available) <= requested,
        granted(requested, available) <= available,
        granted(requested, available) == requested || granted(requested, available) == available,
{
}

/// A range comes out from its start on: the identifiers that it adds to a pool follow
/// what was there, and the one at place `i` among them has the index `start + i` and the
/// first generation, which is zero.
pub proof fn law_range_ascends_from_its_start(pool: Seq<EntityId>, start: u32, count: u32)
    requires
        start + count <= u32::MAX,
    ensures
        ({
            let after = pool + first_generation_range(start, count);
            &&& after.len() == pool.len() + count
            &&& forall|k: int| 0 <= k < pool.len() ==> #[trigger] after[k] == pool[k]
            &&& forall|k: int|
                pool.len() <= k < after.len() ==> (#[trigger] after[k]).index == start + (k
                    - pool.len()) && after[k].generation == 0
        }),
{
}

/// Entities that are added to a pool follow what was there, each as it was given and in
/// the order in which they were given.
pub proof fn law_added_entities_keep_their_identity(pool: Seq<EntityId>, entities: Seq<Entity>)
    ensures
        ({
            let after = pool + ids(entities);
            &&& after.len() == pool.len() + entities.len()
            &&& forall|k: int| 0 <= k < pool.len() ==> #[trigger] after[k] == pool[k]
            &&& forall|k: int|
                pool.len() <= k < after.len() ==> #[trigger] after[k] == entities[k - pool.len()]@
        }),
{
}

/// What is collected from a pool comes out in the order of the pool, as much as may be
/// taken and as there is. What is left follows it.
pub proof fn law_collected_in_pool_order(
    pool: Seq<EntityId>,
    limit: nat,
    entities: Seq<Entity>,
    left: Seq<EntityId>,
)
    requires
        ids(entities) == pool.take(granted(limit as int, pool.len())),
        left == pool.skip(granted(limit as int, pool.len())),
    ensures
        entities.len() == limit && limit <= pool.len() || entities.len() == pool.len()
            && pool.len() <= limit,
        forall|k: int| 0 <= k < entities.len() ==> (#[trigger] entities[k])@ == pool[k],
        entities.len() + left.len() == pool.len(),
        forall|k: int| 0 <= k < left.len() ==> #[trigger] left[k] == pool[entities.len() + k],
{
    law_ids_are_those_of_the_elements(entities);
    assert forall|k: int| 0 <= k < entities.len() implies (#[trigger] entities[k])@ == pool[k] by {
        assert(ids(entities)[k] == entities[k]@);
    }
}

/// Entities that were added to an empty allocator and then all collected come back as
/// they were given.
pub proof fn law_added_entities_come_back(added: Seq<Entity>, limit: nat, entities: Seq<Entity>)
    requires
        added.len() <= limit,
        ids(entities) == ids(added).take(granted(limit as int, ids(added).len())),
    ensures
        entities.len() == added.len(),
        forall|k: int| 0 <= k < added.len() ==> (#[trigger] entities[k])@ == added[k]@,
{
    law_ids_are_those_of_the_elements(added);
    law_ids_are_those_of_the_elements(entities);
    assert forall|k: int| 0 <= k < added.len() implies (#[trigger] entities[k])@ == added[k]@ by {
        assert(ids(entities)[k] == ids(added)[k]);
    }
}

} // verus!
