//! The spatial hash over bounding boxes and the lookup that keeps it current.

pub mod cache_grid;
pub mod collider;
pub mod collider_lookup;
pub mod store;

pub use cache_grid::{CacheGrid, CacheGridAxis, CacheGridData, CacheGridKey, CacheGridView, GridScale};
pub use collider::Collider;
pub use collider_lookup::ColliderLookup;
pub use store::EntitySet;
