//! USB: the host controller, its devices and the network adapter on it.

pub mod adapter_law;
pub mod bus_law;
pub mod command;
pub mod config;
pub mod context;
pub mod ctrl;
pub mod control;
pub mod device;
pub mod device_law;
pub mod event_law;
pub mod dma;
pub mod err;
pub mod host_law;
pub mod init;
pub mod port;
pub mod r8152;
pub mod r8152_setup;
pub mod setup;
pub mod transfer;
pub mod trb;
pub mod walk;
pub mod xhci;
