//! A read-only, user-space virtual filesystem engine that mirrors a backing
//! directory tree: it assigns stable opaque handles to backing paths,
//! translates host metadata into protocol attribute records, enumerates
//! directories, and mediates reads through a pluggable content transform.
//!
//! All host I/O (stat, directory listing, file reads, the kernel protocol
//! itself) is performed by the surrounding program, which hands this library
//! plain values and carries its replies back to the kernel.

pub mod attributes;
pub mod directory;
pub mod dispatch;
pub mod errors;
pub mod handles;
pub mod read;
