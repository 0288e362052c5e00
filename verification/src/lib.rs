//! Builder for DfuSe firmware-update container files.
//!
//! `DfuSe` is the STMicroelectronics extension of the USB Device Firmware
//! Upgrade (DFU) file format.  A container holds a fixed file header, one or
//! more named or unnamed images (each a sub-header followed by addressed
//! binary elements), a trailing metadata block, and a 32-bit checksum over
//! every preceding byte.
//!
//! The byte layout of every record is pinned down by specification
//! functions, and each encoder is proved to emit exactly those bytes.  The
//! checksum is the reflected 32-bit cyclic redundancy check with polynomial
//! `0x04C11DB7`, initial value `0xFFFFFFFF` and no final exclusive-or; the
//! header's total-size field, the sub-header's size and count fields, the
//! trailer fields and the checksum are little-endian, while element
//! addresses, element lengths and the sub-header's named flag are big-endian.

pub mod elements;
pub mod tools;

mod file;

pub use file::DfuseFile;
