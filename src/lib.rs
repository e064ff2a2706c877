//! Host-side logic of a GPU agent simulation: the square dispatch grid, the
//! frame clock, the wire layouts uploaded to the device, the binding contracts
//! of the passes and the per-frame schedule that the frame driver runs.
pub mod grid;
pub mod timing;
pub mod storage;
pub mod pipeline;
pub mod driver;
