//! Device discovery and virtio transport core for a minimal guest kernel:
//! flattened device-tree parsing, PCI BAR decoding and allocation, virtio
//! capability resolution, the virtio status handshake and split virtqueues.
//!
//! Every function here computes on plain values. Register and memory access
//! is left to the caller, which reads what the hardware holds and hands the
//! values in, and performs the writes that the functions describe.
pub mod allocator;
pub mod caps;
pub mod console;
pub mod drivers;
pub mod fdt;
pub mod pci;
pub mod transport;
pub mod virtqueue;
