//! The operation families the kernel compiler generates device code for.

pub mod concat;
pub mod reindex;
pub mod select;
