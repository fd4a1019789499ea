//! Verified logic of a bare-metal inference unikernel: the shell and its
//! persistent memory, the storage layout, the USB and network drivers' decisions
//! and the consoles.
//!
//! Nothing in this crate touches hardware. Whatever alternates decisions with
//! device accesses is a state machine: it is handed the outcome of the last
//! access and answers with the next one to perform.

use vstd::prelude::*;

pub mod align;
pub mod bytes;
pub mod console;
pub mod ingest;
pub mod keyboard;
pub mod loader;
pub mod net;
pub mod pci;
pub mod processor;
pub mod shell;
pub mod stdio;
pub mod storage;
pub mod usb;

verus! {

} // verus!
