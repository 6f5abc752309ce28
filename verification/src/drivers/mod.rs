//! Device drivers: the block-device interface, a RAM disk, and the command
//! sequences of a PIO-mode IDE drive.

pub mod ata;
pub mod block;
