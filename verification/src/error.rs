use vstd::prelude::*;

verus! {

/// Why the store or its snapshot storage refused an operation.
#[derive(Debug, Clone, Copy, PartialEq, Eq, Structural)]
pub enum StoreError {
    /// An insert named a key that the table already holds.
    KeyExists,
    /// A lookup or an update named a key that the table does not hold.
    KeyNotFound,
    /// A load was asked for without a file name, and none was set before.
    NoPath,
    /// A snapshot was asked for before any file was opened by a load.
    NotOpen,
    /// The file's bytes are not a snapshot.
    CorruptData,
    /// The file system failed to open, read, write or sync the file.
    Io,
    /// The codec reported an error where a snapshot was asked of it. The
    /// contracts of this library rule that out for every table.
    Encode,
}

impl StoreError {
    /// The message shown to a user for this error.
    pub open spec fn text(self) -> Seq<char> {
        match self {
            StoreError::KeyExists => "Key already exists"@,
            StoreError::KeyNotFound => "Key not found"@,
            StoreError::NoPath => "No file path set."@,
            StoreError::NotOpen => "No file open to save data."@,
            StoreError::CorruptData => "Stored data is corrupt."@,
            StoreError::Io => "Failed to persist data."@,
            StoreError::Encode => "Failed to encode data."@,
        }
    }

    /// Returns the message shown to a user for this error.
    pub fn message(&self) -> (message: String)
        ensures
            message@ == self.text(),
    {
        match self {
            StoreError::KeyExists => "Key already exists".to_owned(),
            StoreError::KeyNotFound => "Key not found".to_owned(),
            StoreError::NoPath => "No file path set.".to_owned(),
            StoreError::NotOpen => "No file open to save data.".to_owned(),
            StoreError::CorruptData => "Stored data is corrupt.".to_owned(),
            StoreError::Io => "Failed to persist data.".to_owned(),
            StoreError::Encode => "Failed to encode data.".to_owned(),
        }
    }
}

} // verus!
