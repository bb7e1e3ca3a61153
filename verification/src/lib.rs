//! A bump-allocating memory arena whose backing storage is interchangeable
//! between an owned region and a borrowed one, and whose content can be
//! persisted to and restored from a file in a single bulk transfer.
//!
//! Allocation proceeds downward from the end of the content region toward its
//! start, rounding each new boundary down to the requested alignment, so every
//! allocation is naturally aligned without per-call padding bookkeeping.
//! Callers receive offset-based references instead of raw addresses, so the
//! references stay meaningful when an owned region is regrown.

pub mod arena;
pub mod arena_ref;
pub mod file;
pub mod persist;

pub use crate::arena::AllocFailed;
pub use crate::arena::Arena;
pub use crate::arena::Storage;
pub use crate::arena_ref::ArenaRefMut;
pub use crate::file::IoError;
pub use crate::file::MemFile;
