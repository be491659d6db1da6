//! The state-sync engine of a full node: it takes blocks and state diffs that a
//! central feeder serves, keeps them in an append-only store, and rolls the
//! store back when the feeder's chain departs from the stored one.
//!
//! The engine does no waiting and no input or output of its own. Its caller
//! asks the feeder, rests when told to, and hands each answer to the engine;
//! the engine decides and writes to its store.

pub mod block;
pub mod central;
pub mod config;
pub mod index_map;
pub mod laws;
pub mod state;
pub mod storage;
pub mod sync;

pub use crate::central::ApiContractClass;
pub use crate::central::CentralError;
pub use crate::central::CentralSourceConfig;
pub use crate::state::sort_state_diff;
pub use crate::sync::GenericStateSync;
pub use crate::sync::StateSync;
pub use crate::sync::StateSyncError;
pub use crate::sync::StateSyncResult;
pub use crate::sync::SyncConfig;
pub use crate::sync::SyncEvent;
