//! Port registry and allocator.


pub mod registry;
pub mod allocator;
