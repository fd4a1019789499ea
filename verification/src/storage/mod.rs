//! What is kept on the SATA disk: the model cache and the memory database.

pub mod ahci;
pub mod append;
pub mod boot_log;
pub mod contents;
pub mod database_law;
pub mod disk;
pub mod ends_law;
pub mod enumerate;
pub mod ensure;
pub mod erase;
pub mod format_law;
pub mod gpt;
pub mod layout;
pub mod load_model;
pub mod model_cache;
pub mod model_law;
pub mod write_model;
pub mod opening;
pub mod port_law;
pub mod read;
pub mod steps_law;
pub mod append_law;
pub mod read_law;
pub mod erase_law;
pub mod ensure_law;
pub mod many_law;
pub mod transfer_law;
