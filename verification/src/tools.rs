//! Internal tools: the checksum engine and the checksumming byte sink.

pub mod crc;
pub mod crc_buffered;

pub use crc::CRC32;
pub use crc_buffered::BufWriterWithCRC;
