//! The metadata kept for one entity index.

use crate::identifiers::EntityGeneration;
use crate::tick::{law_check_moves_only_old_ticks, CheckChangeTicks, Tick, MAX_CHANGE_AGE};
use vstd::prelude::*;

verus! {

/// A place in source code.
#[derive(Copy, Clone, Debug)]
pub struct SourceLocation {
    pub file: &'static str,
    pub line: u32,
    pub column: u32,
}

/// A place in source code, where one was recorded.
#[derive(Copy, Clone, Debug)]
pub struct MaybeLocation {
    pub value: Option<SourceLocation>,
}

/// Where the components of an entity are stored.
#[derive(Copy, Clone, Debug, PartialEq, Eq, Structural, Hash)]
pub struct EntityLocation {
    pub archetype_id: u32,
    pub archetype_row: u32,
    pub table_id: u32,
    pub table_row: u32,
}

/// Tracks when and where an entity was last spawned or despawned.
#[derive(Copy, Clone, Debug)]
pub struct SpawnedOrDespawned {
    /// The source code location that triggered the spawn or despawn.
    pub by: MaybeLocation,
    /// The tick at which the spawn or despawn occurred.
    pub tick: Tick,
}

/// Metadata for a single entity index.
#[derive(Copy, Clone, Debug)]
pub struct EntityMeta {
    /// The current generation of the index.
    pub generation: EntityGeneration,
    /// The current location of the index.
    pub location: Option<EntityLocation>,
    /// Location and tick of the last spawn or despawn.
    pub spawned_or_despawned: SpawnedOrDespawned,
}

impl EntityMeta {
    pub open spec fn spec_fresh() -> Self {
        EntityMeta {
            generation: EntityGeneration::first(),
            location: None,
            spawned_or_despawned: SpawnedOrDespawned {
                by: MaybeLocation { value: None },
                tick: Tick { tick: 0 },
            },
        }
    }

    /// The metadata of a fresh entity: never spawned or despawned, no location.
    #[verifier::when_used_as_spec(spec_fresh)]
    pub fn fresh() -> (meta: Self)
        ensures
            meta == Self::spec_fresh(),
            meta.generation.bits == 0,
            meta.location is None,
            meta.spawned_or_despawned.by.value is None,
            meta.spawned_or_despawned.tick.tick == 0,
    {
        EntityMeta {
            generation: EntityGeneration::first(),
            location: None,
            spawned_or_despawned: SpawnedOrDespawned {
                by: MaybeLocation { value: None },
                tick: Tick::new(0),
            },
        }
    }

    /// The metadata after its tick was checked; nothing else changes.
    pub open spec fn checked(self, check: CheckChangeTicks) -> Self {
        EntityMeta {
            spawned_or_despawned: SpawnedOrDespawned {
                tick: self.spawned_or_despawned.tick.checked(check),
                ..self.spawned_or_despawned
            },
            ..self
        }
    }
}

/// Fresh metadata is blank, and no other metadata is.
pub proof fn law_fresh_is_blank(meta: EntityMeta)
    ensures
        meta == EntityMeta::fresh() <==> {
            &&& meta.generation.bits == 0
            &&& meta.location is None
            &&& meta.spawned_or_despawned.by.value is None
            &&& meta.spawned_or_despawned.tick.tick == 0
        },
{
}

/// A check leaves metadata alone unless its tick is too old. Of metadata whose tick is
/// too old it changes the tick only, which then has the greatest age that a tick may
/// have.
pub proof fn law_check_changes_only_old_ticks(meta: EntityMeta, check: CheckChangeTicks)
    ensures
        (check.present.tick - meta.spawned_or_despawned.tick.tick) % 0x1_0000_0000
            <= MAX_CHANGE_AGE ==> meta.checked(check) == meta,
        (check.present.tick - meta.spawned_or_despawned.tick.tick) % 0x1_0000_0000
            > MAX_CHANGE_AGE ==> (check.present.tick - meta.checked(
            check,
        ).spawned_or_despawned.tick.tick) % 0x1_0000_0000 == MAX_CHANGE_AGE,
        meta.checked(check).generation == meta.generation,
        meta.checked(check).location == meta.location,
        meta.checked(check).spawned_or_despawned.by == meta.spawned_or_despawned.by,
{
    law_check_moves_only_old_ticks(meta.spawned_or_despawned.tick, check);
}

} // verus!
