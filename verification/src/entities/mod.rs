//! Rows of the catalog, as the core reads them.

pub mod market;
pub mod ticker;
