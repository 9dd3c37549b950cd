//! A bump-pointer arena allocator, modelled over plain address arithmetic.
//!
//! The arena hands out memory by advancing a cursor through large chunks,
//! never tracking individual allocations, and reclaims everything in O(1)
//! on reset. Chunk placement, alignment arithmetic, the growth policy and
//! byte accounting are verified; backing regions are supplied by an
//! upstream [`ChunkSource`] that callers implement over a real allocator.

pub mod chunk;
pub mod growth;
pub mod laws;
pub mod layout;
pub mod local;
pub mod source;
pub mod sync;

pub use chunk::AllocError;
pub use chunk::Chunk;
pub use chunk::Region;
pub use layout::Layout;
pub use local::ArenaLocal;
pub use source::ChunkSource;
pub use source::FreshSource;
pub use sync::ArenaSync;
pub use sync::SharedSource;
