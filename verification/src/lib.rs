//! Extraction of virtual-dispatch layout from the debug information embedded
//! in a compiled object file.
//!
//! The library loads an object file image, resolves the absolute relocations
//! of its debug-info sections, walks the hierarchical debug-entry tree, and
//! for every class-like entry with virtual methods produces an ordered
//! description of that class's virtual table: each slot's declared name, the
//! linkage symbol of its default implementation, and its byte offset within
//! the table.

pub mod entries;
pub mod error;
pub mod eval;
pub mod loader;
pub mod relocation;
pub mod vtable;
pub mod walker;

pub use vtable::ClassVTable;
pub use vtable::VTableCatalog;
pub use vtable::VTableElement;
