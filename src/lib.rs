//! CRC-32C (Castagnoli) checksums, computed incrementally, and a streaming
//! hasher built on them.

pub mod crc;

pub use crc::crc32c_mem;

pub mod hasher;

pub use hasher::{Crc32cBuildHasher, Crc32cHashMap, Crc32cHashSet, Crc32cHasher};
