//! Lifetime-scoped registration of desktop entries and icons.
//!
//! The library decides: it validates what clients send, computes where each
//! resource is stored, keeps the catalog of registered resources per lifetime,
//! and says which files a removal leaves to delete. Reading and writing files,
//! the message bus and the liveness probe belong to the program around it.
pub mod catalog;
pub mod handle;
pub mod icon;
pub mod laws;
pub mod lifetime;
pub mod manager;
pub mod placement;
pub mod shelf;
pub mod validation;
