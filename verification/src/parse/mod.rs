//! Parsers for raw provider outputs.

pub mod btrfs;
pub mod md;
pub mod lsblk;
pub mod lvm;
pub mod mounts;
pub mod sysfs;
