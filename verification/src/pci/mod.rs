//! The PCI bus: what is on it, and which drivers take it.

pub mod bar;
pub mod describe;
pub mod error;
pub mod init;
pub mod irq;
pub mod names;
pub mod pci_law;
pub mod text;
