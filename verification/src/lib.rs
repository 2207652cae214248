//! A pull scanner for XML 1.0 and XML 1.1 over a caller-owned byte buffer.

pub mod buffer;
pub mod scan;
pub mod scanner;
pub mod utf8;
