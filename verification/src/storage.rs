//! The snapshot storage: which file holds the database, whether it is open,
//! and what a load or a save of that file means.
//!
//! The storage never touches the file itself. The host opens, reads and
//! writes it; the storage decides the path, turns what was read into entries
//! and entries into the bytes to write.

use crate::error::StoreError;
use crate::kv_store::KV;
use crate::snapshot::{decode, decoded, encode, fits, law_snapshot_round_trip, snapshot_bytes};
use crate::table::Entry;
use vstd::prelude::*;

verus! {

/// The name of the database that is used where none is given.
pub const DEFAULT_DB_NAME: &'static str = "default_db";

/// What the host found when it opened the database file for reading and
/// writing, creating it where it was missing, and read it to its end.
pub enum FileRead {
    /// The file was opened and read; these are its bytes.
    Contents(Vec<u8>),
    /// The file could not be opened or created.
    OpenFailed,
    /// The file was opened, but reading it failed.
    ReadFailed,
}

/// The state of the snapshot storage: the path of the database file, if one
/// was named, and whether the host holds that file open.
///
/// A database is known by its name, and the name is the path of its file,
/// taken from the working directory. The storage starts unbound and is bound
/// by a load that could open the file; a save is refused before that.
#[derive(Debug)]
pub struct Storage {
    file_path: Option<String>,
    open: bool,
}

/// The text of an optional path.
pub open spec fn path_text(path: Option<&str>) -> Option<Seq<char>> {
    match path {
        Some(text) => Some(text@),
        None => None,
    }
}

/// The path that a load opens: the one it is given, else the one that was
/// set before.
pub open spec fn chosen_path(stored: Option<Seq<char>>, given: Option<Seq<char>>) -> Option<
    Seq<char>,
> {
    if given is Some {
        given
    } else {
        stored
    }
}

/// What a load answers for a file that the host tried to open and read.
pub open spec fn loaded(file: FileRead) -> Result<Seq<Entry>, StoreError> {
    match file {
        FileRead::Contents(bytes) => match decoded(bytes@) {
            Some(entries) => Ok(entries),
            None => Err(StoreError::CorruptData),
        },
        FileRead::OpenFailed => Err(StoreError::Io),
        FileRead::ReadFailed => Err(StoreError::Io),
    }
}

/// A file that holds the snapshot of a table loads as that table, entry for
/// entry.
pub proof fn law_saved_file_loads(entries: Seq<Entry>, content: Vec<u8>)
    requires
        fits(entries),
        content@ == snapshot_bytes(entries),
    ensures
        loaded(FileRead::Contents(content)) == Ok::<Seq<Entry>, StoreError>(entries),
{
    law_snapshot_round_trip(entries);
}

impl Storage {
    /// The path of the database file, if one was set.
    pub closed spec fn path(&self) -> Option<Seq<char>> {
        match self.file_path {
            Some(path) => Some(path@),
            None => None,
        }
    }

    /// The storage is bound: the host holds the database file open.
    pub closed spec fn bound(&self) -> bool {
        self.open
    }

    /// Creates a storage that is not bound to an open file yet, with the
    /// path given, if any.
    pub fn new(file_path: Option<&str>) -> (storage: Self)
        ensures
            storage.path() == path_text(file_path),
            !storage.bound(),
    {
        let file_path = match file_path {
            Some(path) => Some(path.to_owned()),
            None => None,
        };
        Storage { file_path, open: false }
    }

    /// Returns the path of the database file, if one was set.
    pub fn file_path(&self) -> (path: Option<&String>)
        ensures
            match path {
                Some(text) => self.path() == Some(text@),
                None => self.path() is None,
            },
    {
        self.file_path.as_ref()
    }

    /// Tells whether the host holds the database file open.
    pub fn is_open(&self) -> (open: bool)
        ensures
            open == self.bound(),
    {
        self.open
    }

    /// Returns the path that a load with `file_path` opens, or `None` where
    /// no path is given and none was set.
    pub fn target(&self, file_path: Option<&str>) -> (path: Option<String>)
        ensures
            match path {
                Some(text) => chosen_path(self.path(), path_text(file_path)) == Some(text@),
                None => chosen_path(self.path(), path_text(file_path)) is None,
            },
    {
        match file_path {
            Some(path) => Some(path.to_owned()),
            None => match &self.file_path {
                Some(path) => Some(path.clone()),
                None => None,
            },
        }
    }

    /// Loads the database file: `file` is what the host found at the path
    /// that `target` names for `file_path`.
    ///
    /// The path given becomes the storage's path. Without any path the load
    /// fails with `NoPath` and changes nothing. The storage is bound from the
    /// moment the host could open the file, whatever reading it gave. A file
    /// that could not be opened or read fails with `Io`; an empty file is the
    /// empty table; any other content is decoded, and fails with
    /// `CorruptData` where it is no snapshot.
    pub fn load_file(&mut self, file_path: Option<&str>, file: FileRead) -> (entries: Result<
        Vec<KV>,
        StoreError,
    >)
        ensures
            final(self).path() == chosen_path(old(self).path(), path_text(file_path)),
            final(self).path() is None ==> {
                &&& entries matches Err(e)
                &&& e == StoreError::NoPath
                &&& final(self).bound() == old(self).bound()
            },
            final(self).path() is Some ==> {
                &&& final(self).bound() == (old(self).bound() || !(file is OpenFailed))
                &&& match loaded(file) {
                    Ok(table) => (entries matches Ok(list) && list.deep_view() == table),
                    Err(error) => (entries matches Err(e) && e == error),
                }
            },
    {
        match file_path {
            Some(path) => {
                self.file_path = Some(path.to_owned());
            },
            None => {
                if self.file_path.is_none() {
                    return Err(StoreError::NoPath);
                }
            },
        }
        match file {
            FileRead::OpenFailed => Err(StoreError::Io),
            FileRead::ReadFailed => {
                self.open = true;
                Err(StoreError::Io)
            },
            FileRead::Contents(bytes) => {
                self.open = true;
                decode(bytes.as_slice())
            },
        }
    }

    /// Makes the snapshot of `data` that the host writes over the whole
    /// database file: it empties the file, writes these bytes from the start
    /// and syncs them.
    ///
    /// Fails with `NotOpen` where no load has bound the storage, and succeeds
    /// on every bound storage. The write is
    /// not atomic: a crash between emptying the file and the end of the write
    /// leaves a file that is empty or cut short.
    pub fn save_file(&self, data: &Vec<KV>) -> (snapshot: Result<Vec<u8>, StoreError>)
        ensures
            !self.bound() ==> (snapshot matches Err(e) && e == StoreError::NotOpen),
            self.bound() ==> (snapshot matches Ok(bytes) && bytes@ == snapshot_bytes(
                data.deep_view(),
            ) && decoded(bytes@) == Some(data.deep_view())),
    {
        if !self.open {
            return Err(StoreError::NotOpen);
        }
        encode(data)
    }
}

} // verus!
