//! Name resolution for requirements that are given only by a locator.
//!
//! A requirement that points at a path or a URL has to be given a package
//! name before a dependency resolver can index it. This library holds the
//! rules by which that name is found: the package-name grammar, the
//! classification of a locator by its scheme, the readers of static project
//! metadata, the ordered fallback chain for one requirement, and the
//! bookkeeping of a bounded, order-preserving batch.

pub mod text;
pub mod name;
pub mod locator;
pub mod filename;
pub mod metadata;
pub mod pkg_info;
pub mod requirement;
pub mod chain;
pub mod batch;
