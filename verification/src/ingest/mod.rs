//! Taking the model from a USB mass storage device: finding it, in a FAT32 file system or
//! raw, and reading it into memory.

pub mod fat32;
pub mod split_read;
pub mod search;
pub mod search_law;
pub mod chain;
pub mod chain_law;
pub mod raw;
pub mod step_law;
pub mod stick;
pub mod stick_law;
pub mod task;
pub mod tree;
pub mod tree_law;
