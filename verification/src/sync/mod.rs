//! Queues for many writers, and the borrow counter of a shared cell.

pub mod queue_exclusive_mpsw;
pub mod sync_cell;

pub use queue_exclusive_mpsw::{
    QueueExclusiveMPSC, QueueExclusiveMPSCWriter, QueueExclusiveMPSCWriterSource,
};
pub use sync_cell::SyncCellState;
