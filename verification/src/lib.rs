//! Decoding of sprite archives and tile maps, recovery of archive indices,
//! an in-memory asset cache, and the planning of map composition.

pub mod error;
pub mod header;
pub mod wire;
pub mod scanner;
pub mod index;
pub mod archive;
pub mod map;
pub mod cache;
pub mod compositor;
pub mod naming;
pub mod scene;
