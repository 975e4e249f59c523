pub mod balloon;
pub mod blk;
pub mod console;
pub mod entropy;
pub mod fs;
pub mod net;
pub mod nvme;
pub mod pci;
pub mod rng;
pub mod virtio;
pub mod vsock;
