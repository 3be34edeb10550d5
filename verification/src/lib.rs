//! Gateway synchronization for DID-identified, content-addressed "spheres".
//!
//! A sphere is a versioned data space whose history is a chain of signed,
//! content-addressed revisions. A gateway mirrors the sphere of one
//! counterpart client and accepts pushes of new lineage from it. This crate
//! holds the verified core of that protocol: the capability model that gates
//! every push, the revision/mutation data model, chronological lineage
//! traversal, and the push handler itself.

pub mod alist;
pub mod authority;
pub mod data;
pub mod gateway;
pub mod revision;
pub mod store;
pub mod view;
