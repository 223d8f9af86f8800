//! Entity indices, generations and entities.

use nonmax::NonMaxU32;
use vstd::prelude::*;

verus! {

/// Passes `raw` through `nonmax::NonMaxU32::new` and reads the number back with
/// `nonmax::NonMaxU32::get`.
///
/// Trusted: `new` refuses `u32::MAX` and nothing else, and `get` returns the number
/// that the value was made from.
#[verifier::external_body]
fn non_max(raw: u32) -> (checked: Option<u32>)
    ensures
        checked == (if raw == u32::MAX { None } else { Some(raw) }),
{
    match NonMaxU32::new(raw) {
        Some(value) => Some(value.get()),
        None => None,
    }
}

/// The position of an entity in the metadata table.
///
/// Every `u32` but the largest is an index.
#[derive(Copy, Clone, Debug, PartialEq, Eq, Structural, Hash)]
pub struct EntityIndex {
    raw: u32,
}

impl View for EntityIndex {
    type V = u32;

    closed spec fn view(&self) -> u32 {
        self.raw
    }
}

impl EntityIndex {
    #[verifier::type_invariant]
    spec fn in_range(self) -> bool {
        self.raw != u32::MAX
    }

    /// Makes an index out of a number that is known to be one.
    pub fn new(raw: u32) -> (index: Self)
        requires
            raw != u32::MAX,
        ensures
            index@ == raw,
    {
        EntityIndex { raw }
    }

    /// Makes an index out of any number but `u32::MAX`, for which it returns `None`.
    pub fn from_raw_u32(raw: u32) -> (index: Option<Self>)
        ensures
            index is None <==> raw == u32::MAX,
            index matches Some(i) ==> i@ == raw,
    {
        match non_max(raw) {
            Some(value) => Some(EntityIndex::new(value)),
            None => None,
        }
    }

    /// The number behind the index.
    pub fn index(self) -> (raw: u32)
        ensures
            raw == self@,
            raw != u32::MAX,
    {
        proof {
            use_type_invariant(&self);
        }
        self.raw
    }
}

/// How many times an entity index was reused, modulo 2^32.
#[derive(Copy, Clone, Debug, PartialEq, Eq, Structural, Hash)]
pub struct EntityGeneration {
    /// The generation as a number.
    pub bits: u32,
}

impl EntityGeneration {
    pub open spec fn spec_first() -> Self {
        EntityGeneration { bits: 0 }
    }

    /// The generation of an index that was never reused.
    #[verifier::when_used_as_spec(spec_first)]
    pub fn first() -> (generation: Self)
        ensures
            generation == Self::spec_first(),
            generation.bits == 0,
    {
        EntityGeneration { bits: 0 }
    }

    /// The generation that comes `versions` reuses later, wrapping around at 2^32.
    pub fn after_versions(self, versions: u32) -> (generation: Self)
        ensures
            generation.bits == (self.bits + versions) % 0x1_0000_0000,
    {
        EntityGeneration { bits: self.bits.wrapping_add(versions) }
    }
}

/// What identifies an entity, as plain numbers.
pub struct EntityId {
    pub index: u32,
    pub generation: u32,
}

/// An entity: an index together with the generation of its current use.
#[derive(Copy, Clone, Debug, PartialEq, Eq, Structural, Hash)]
pub struct Entity {
    index: EntityIndex,
    generation: EntityGeneration,
}

impl View for Entity {
    type V = EntityId;

    closed spec fn view(&self) -> EntityId {
        EntityId { index: self.index@, generation: self.generation.bits }
    }
}

impl Entity {
    /// The entity that has the given index and generation.
    pub fn from_index_and_generation(
        index: EntityIndex,
        generation: EntityGeneration,
    ) -> (entity: Self)
        ensures
            entity@ == (EntityId { index: index@, generation: generation.bits }),
    {
        Entity { index, generation }
    }

    /// The entity at `index` in the first generation.
    pub fn from_index(index: EntityIndex) -> (entity: Self)
        ensures
            entity@ == (EntityId { index: index@, generation: 0 }),
    {
        Entity::from_index_and_generation(index, EntityGeneration::first())
    }

    /// The index of the entity.
    pub fn index(self) -> (index: EntityIndex)
        ensures
            index@ == self@.index,
    {
        self.index
    }

    /// The generation of the entity.
    pub fn generation(self) -> (generation: EntityGeneration)
        ensures
            generation.bits == self@.generation,
    {
        self.generation
    }
}

} // verus!
