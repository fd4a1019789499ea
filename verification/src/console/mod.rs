//! Consoles: the screen, the serial port, the page shared with a hypervisor, and the log of
//! all that was written.

pub mod gop;
pub mod gop_law;
pub mod log;
pub mod memory;
pub mod serial;
