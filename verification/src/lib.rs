//! A to-do list kept as one binary blob under a fixed storage key.
//!
//! Every operation loads the whole list from the blob, changes it in memory and
//! writes the whole list back. The blob holds the list in bincode's fixed-width
//! little-endian encoding.

pub mod codec;
pub mod contract;
pub mod error;
pub mod format;
pub mod list;
pub mod msg;
pub mod response;
pub mod store;
pub mod task;
