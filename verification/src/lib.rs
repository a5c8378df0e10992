//! A capability-style abstraction for a sandboxed, hierarchical byte store:
//! directories of named files, ranged reads, and a cursor-based write-command
//! protocol whose mutations become visible atomically when a writable stream
//! is closed.
//!
//! The crate is organised around the behavioural contract that every backend
//! must satisfy:
//!
//! - [`range`] resolves symbolic byte ranges against a file size,
//! - [`protocol`] gives the exact semantics of the write commands
//!   (write / seek / truncate) on a byte sequence,
//! - [`memory`] is the in-memory backend, the executable model of the
//!   contract, verified against [`range`] and [`protocol`].

use vstd::prelude::*;

pub mod memory;
pub mod protocol;
pub mod range;

verus! {

/// Marker trait for the capability types provided by this crate's backends.
pub trait Sealed {

}

/// Options for resolving a file name inside a directory: `create` makes a
/// missing entry instead of failing the lookup.
pub struct GetFileHandleOptions {
    pub create: bool,
}

/// Options for resolving a sub-directory name inside a directory: `create`
/// makes a missing entry instead of failing the lookup.
pub struct GetDirectoryHandleOptions {
    pub create: bool,
}

/// Options for opening a writable stream on a file: `keep_existing_data`
/// starts the stream from the current content rather than from an empty file.
pub struct CreateWritableOptions {
    pub keep_existing_data: bool,
}

/// Options for removing a directory entry: `recursive` allows removing a
/// non-empty directory together with its subtree.
pub struct FileSystemRemoveOptions {
    pub recursive: bool,
}

/// The kind of a generalized write command.
#[derive(Debug, Clone)]
pub enum WriteCommandType {
    Write,
    Seek,
    Truncate,
}

/// A generalized write-command descriptor. The `command_type` determines
/// which of the optional fields are meaningful: `Write` uses `data` and an
/// optional `position`, `Seek` uses `position`, `Truncate` uses `size`.
#[derive(Debug, Clone)]
pub struct WriteParams {
    pub command_type: WriteCommandType,
    pub data: Option<Vec<u8>>,
    pub position: Option<usize>,
    pub size: Option<usize>,
}

impl WriteParams {
    /// A descriptor is well formed when the field its command kind reads is
    /// present.
    pub open spec fn wf(&self) -> bool {
        match self.command_type {
            WriteCommandType::Write => self.data is Some,
            WriteCommandType::Seek => self.position is Some,
            WriteCommandType::Truncate => self.size is Some,
        }
    }
}

/// A directory child together with its kind: exactly one of a file handle or
/// a directory handle.
#[derive(Debug, Clone)]
pub enum DirectoryEntry<Directory, File> {
    File(File),
    Directory(Directory),
}

} // verus!
