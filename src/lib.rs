//! Persistent entity storage for a learning-platform backend: typed record
//! tables over stable memory regions, a monotonic identifier allocator, and
//! the lifecycle transitions that the request handlers drive.
pub mod codec;
pub mod error;
pub mod ids;
pub mod models;
pub mod record;
pub mod storage;
pub mod store;
pub mod text;

pub use error::{Fatal, StoreError};
pub use ids::{next_id, EntityKind, IdAllocator, IdCounters};
pub use record::Identity;
pub use store::Store;
