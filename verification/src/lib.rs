//! Storage and allocation of entity identifiers.
//!
//! * [`identifiers`] holds the identifiers themselves: index, generation and entity.
//! * [`tick`] holds change ticks and the clamp that keeps them comparable.
//! * [`paging`] splits an entity index into a page and a slot within it.
//! * [`meta`] is the metadata kept per entity index.
//! * [`entity_meta_table`] maps entity indices to metadata, page by page.
//! * [`remote_allocator`] hands out entities that a remote authority provisioned.
//! * [`table_laws`] and [`allocator_laws`] state what holds across several
//!   operations of the two.

pub mod allocator_laws;
pub mod entity_meta_table;
pub mod identifiers;
pub mod meta;
pub mod paging;
pub mod remote_allocator;
pub mod table_laws;
pub mod tick;
