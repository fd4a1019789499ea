[package]
name = "hermit_llm"
version = "0.1.0"
edition = "2021"
publish = false

[dependencies]
ahash = { version = "0.8", default-features = false }
align-address = "*"
async-trait = "0.1"
embedded-io = { version = "*", features = ["alloc"] }
free-list = "*"
hashbrown = "*"
hermit-entry = { version = "*", features = ["loader"] }
hermit-sync = "*"
memory_addresses = "*"
pci-ids = "0.2"
pci_types = "0.10"
smoltcp = { version = "0.12", default-features = false, features = ["alloc", "medium-ethernet", "proto-ipv4", "proto-ipv6", "proto-dhcpv4", "proto-dns", "socket-raw", "socket-icmp", "socket-udp", "socket-tcp", "socket-dhcpv4", "socket-dns", "async"] }
spin = "*"
thiserror = "2"
uart_16550 = "0.3"
uefi = "*"
uhyve-interface = "*"
volatile = { version = "0.6", features = ["derive"] }
x86_64 = { version = "0.15", default-features = false, features = ["instructions"] }
