# entity_store

Two data structures of an entity component system, with contracts that Verus proves:

* `EntityMetaTable`, a paged table from entity index to metadata. It is seen as a
  `TableModel`: the allocated pages by number, and the high-water mark of the indices.
* `RemoteEntityAllocator`, a buffer of entities that a remote authority assigned. It is
  seen as the sequence of identifiers in the order in which they will be handed out.

`src/table_laws.rs` and `src/allocator_laws.rs` state what holds across several calls.
`tests/` runs both on concrete values. `app/` holds the shared-reference allocator
interface, an allocating iterator and debug output.
