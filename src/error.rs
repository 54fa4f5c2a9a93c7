use vstd::prelude::*;

verus! {

/// What can go wrong in a sync pass.
#[derive(Debug, Clone)]
pub enum Error {
    /// Walking a directory tree failed.
    WalkDir(String),
    /// The configuration file could not be read as a configuration.
    Deserialize(String),
    /// A two-character group of a digest's text is not a hex number.
    InvalidHex(String),
    /// An I/O operation failed: the message, then the path it concerned.
    IO(String, String),
    /// A symbolic link was met while hashing a tree.
    Symlink(String),
    /// The command line holds an argument that makes no sense here.
    InvalidArgument(String),
    /// An option that takes a value was given none.
    MissingOption(String),
    /// A tree holds more bytes than a digest context can take in.
    HashInputTooLarge,
    /// A digest was built from a number of bytes other than its width.
    BadHashSize,
    /// No target of this name is configured.
    InvalidGame(String),
    /// The target exists but is not enabled for sync.
    NotSyncable(String),
    /// Explicit backups are not supported for this target.
    BackupUnsupported(String),
}

} // verus!
