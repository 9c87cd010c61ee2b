//! Recognises which bootable system variant is installed on a FAT partition,
//! and picks the lowest-numbered partition of each variant among block devices.
//!
//! `layout` decides from a directory's entries, taken one at a time, whether
//! the marker file is to be read, and `subsystem` names the variant from its
//! content. `scan` selects candidate devices by name and keeps the lowest
//! index of each variant. Reading devices and filesystems is left to callers.

pub mod bytes;
pub mod layout;
pub mod scan;
pub mod subsystem;
