//! xxHash, the non-cryptographic hash family, in its 32-bit and 64-bit
//! widths: one-shot functions and streaming states, each proved to compute
//! the mathematical definition of the digest over every byte fed to it.

pub mod word;
pub mod xxh32;
pub mod xxh64;
pub mod laws;

pub use xxh32::XXH32;
pub use xxh64::XXH64;
