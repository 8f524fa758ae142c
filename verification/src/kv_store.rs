//! The table of entries and the four commands on it.

use crate::error::StoreError;
use crate::snapshot::{decoded, snapshot_bytes};
use crate::storage::{chosen_path, loaded, path_text, FileRead, Storage};
use crate::table::{
    deleted, fetched, has_key, inserted, is_first_match, law_unique_keys_kept,
    lemma_first_match_is, unique_keys, updated, Entry,
};
use vstd::prelude::*;

verus! {

/// One entry of the table: a key and the value stored under it.
#[derive(Debug)]
pub struct KV {
    pub key: String,
    pub value: String,
}

impl View for KV {
    type V = Entry;

    open spec fn view(&self) -> Entry {
        (self.key@, self.value@)
    }
}

impl DeepView for KV {
    type V = Entry;

    open spec fn deep_view(&self) -> Entry {
        self@
    }
}

impl Clone for KV {
    fn clone(&self) -> (copy: Self)
        ensures
            copy == *self,
    {
        KV { key: self.key.clone(), value: self.value.clone() }
    }
}

/// What the last command did to the table, kept until the host has written
/// the snapshot, so that the command can be taken back.
#[derive(Debug)]
enum Change {
    /// An entry was added at the end.
    Pushed,
    /// The entry at `index` was replaced; it was `entry` before.
    Replaced { index: usize, entry: KV },
    /// The entry `entry` was removed from `index`.
    Removed { index: usize, entry: KV },
}

/// The table as it was before `change` was made to it.
spec fn undone(table: Seq<Entry>, change: Option<Change>) -> Seq<Entry> {
    match change {
        None => table,
        Some(Change::Pushed) => if table.len() > 0 {
            table.drop_last()
        } else {
            table
        },
        Some(Change::Replaced { index, entry }) => if index < table.len() {
            table.update(index as int, entry@)
        } else {
            table
        },
        Some(Change::Removed { index, entry }) => if index <= table.len() {
            table.insert(index as int, entry@)
        } else {
            table
        },
    }
}

/// How a command that wants to turn the table `before` into `wanted` ends.
///
/// On a bound storage it ends with a snapshot: the table is `wanted` and the
/// snapshot is the one of `wanted`, which stands for it when it is loaded
/// again. On a storage that is not bound it ends with `NotOpen`, and the
/// table is `before`.
pub open spec fn change_outcome(
    bound: bool,
    before: Seq<Entry>,
    wanted: Seq<Entry>,
    after: Seq<Entry>,
    snapshot: Result<Vec<u8>, StoreError>,
) -> bool {
    match snapshot {
        Ok(bytes) => {
            &&& bound
            &&& after == wanted
            &&& bytes@ == snapshot_bytes(wanted)
            &&& decoded(bytes@) == Some(wanted)
        },
        Err(e) => {
            &&& !bound
            &&& after == before
            &&& e == StoreError::NotOpen
        },
    }
}

/// The key-value store: the table in memory and the storage of its
/// snapshots.
///
/// A command that changes the table hands back the snapshot that the host
/// must write over the database file. The host then tells the store with
/// `settle` whether the write went through; where it did not, the store takes
/// the change back, so that the table and the file never differ. A command
/// that is still open when the next one starts counts as settled.
#[derive(Debug)]
pub struct Store {
    data: Vec<KV>,
    storage: Storage,
    undo: Option<Change>,
}

impl View for Store {
    type V = Seq<Entry>;

    closed spec fn view(&self) -> Seq<Entry> {
        self.data.deep_view()
    }
}

impl Store {
    /// The table that `rollback` restores: the table as it was before the
    /// last command, or the table itself once that command is settled.
    pub closed spec fn checkpoint(&self) -> Seq<Entry> {
        undone(self@, self.undo)
    }

    /// The invariant of the table: no two entries share a key, neither in the
    /// table nor in the table that `rollback` restores.
    pub open spec fn well_formed(&self) -> bool {
        unique_keys(self@) && unique_keys(self.checkpoint())
    }

    /// The state of the storage that the store keeps its snapshots in.
    pub closed spec fn storage_state(&self) -> Storage {
        self.storage
    }

    /// Creates an empty store whose storage has no path and is not bound.
    pub fn new() -> (store: Self)
        ensures
            store@ == Seq::<Entry>::empty(),
            store.checkpoint() == store@,
            store.well_formed(),
            store.storage_state().path() is None,
            !store.storage_state().bound(),
    {
        let store = Store { data: Vec::new(), storage: Storage::new(None), undo: None };
        assert(store@ =~= Seq::<Entry>::empty());
        store
    }

    /// Returns the entries of the table in their order.
    pub fn entries(&self) -> (entries: &Vec<KV>)
        ensures
            entries.deep_view() == self@,
    {
        &self.data
    }

    /// Returns the storage that the store keeps its snapshots in.
    pub fn storage(&self) -> (storage: &Storage)
        ensures
            *storage == self.storage_state(),
    {
        &self.storage
    }

    /// Makes `entries`, as a load gave them, the content of the table.
    pub fn hydrate(&mut self, entries: Vec<KV>)
        ensures
            final(self)@ == entries.deep_view(),
            final(self).checkpoint() == final(self)@,
            final(self).storage_state() == old(self).storage_state(),
            unique_keys(entries.deep_view()) ==> final(self).well_formed(),
    {
        self.data = entries;
        self.undo = None;
    }

    /// Loads the database file into the table: `file` is what the host found
    /// at the path that the storage's `target` names for `file_path`.
    ///
    /// The storage changes as in its `load_file`. A load that succeeds
    /// replaces the table by the loaded entries; one that fails leaves the
    /// table as it is, which is empty in a new store.
    pub fn load(&mut self, file_path: Option<&str>, file: FileRead) -> (outcome: Result<
        (),
        StoreError,
    >)
        ensures
            final(self).storage_state().path() == chosen_path(
                old(self).storage_state().path(),
                path_text(file_path),
            ),
            final(self).storage_state().path() is None ==> {
                &&& outcome == Err::<(), StoreError>(StoreError::NoPath)
                &&& final(self).storage_state().bound() == old(self).storage_state().bound()
                &&& final(self)@ == old(self)@
                &&& final(self).checkpoint() == old(self).checkpoint()
            },
            final(self).storage_state().path() is Some ==> {
                &&& final(self).storage_state().bound() == (old(self).storage_state().bound() || !(file
                    is OpenFailed))
                &&& match loaded(file) {
                    Ok(table) => {
                        &&& outcome == Ok::<(), StoreError>(())
                        &&& final(self)@ == table
                        &&& final(self).checkpoint() == table
                    },
                    Err(error) => {
                        &&& outcome == Err::<(), StoreError>(error)
                        &&& final(self)@ == old(self)@
                        &&& final(self).checkpoint() == old(self).checkpoint()
                    },
                }
            },
            old(self).well_formed() && (loaded(file) matches Ok(table) ==> unique_keys(table))
                ==> final(self).well_formed(),
    {
        match self.storage.load_file(file_path, file) {
            Ok(entries) => {
                self.hydrate(entries);
                Ok(())
            },
            Err(e) => Err(e),
        }
    }

    /// Finds the first entry with the key `key` and returns its position.
    pub fn position(&self, key: &str) -> (found: Option<usize>)
        ensures
            match found {
                Some(i) => is_first_match(self@, key@, i as int),
                None => !has_key(self@, key@),
            },
    {
        let wanted = key.to_owned();
        let mut i: usize = 0;
        while i < self.data.len()
            invariant
                i <= self.data.len(),
                wanted@ == key@,
                forall|j: int| 0 <= j < i ==> (#[trigger] self@[j]).0 != key@,
            decreases self.data.len() - i,
        {
            if self.data[i].key == wanted {
                return Some(i);
            }
            i += 1;
        }
        None
    }

    /// Looks the key up and returns the first entry that has it, or fails
    /// with `KeyNotFound`. The store is not changed.
    pub fn get(&self, key: &str) -> (entry: Result<&KV, StoreError>)
        ensures
            match entry {
                Ok(found) => fetched(self@, key@) == Ok::<Entry, StoreError>(found@),
                Err(e) => fetched(self@, key@) == Err::<Entry, StoreError>(e),
            },
    {
        match self.position(key) {
            Some(i) => {
                proof {
                    lemma_first_match_is(self@, key@, i as int);
                }
                Ok(&self.data[i])
            },
            None => Err(StoreError::KeyNotFound),
        }
    }

    /// Adds the entry `(key, value)` at the end of the table and returns the
    /// snapshot to write.
    ///
    /// Fails with `KeyExists` where the table has the key already, and with
    /// `NotOpen` where it has not and the storage is not bound; succeeds
    /// otherwise. A failed insert leaves the table as it was.
    pub fn insert(&mut self, key: &str, value: &str) -> (snapshot: Result<Vec<u8>, StoreError>)
        ensures
            match inserted(old(self)@, key@, value@) {
                Ok(wanted) => change_outcome(
                    old(self).storage_state().bound(),
                    old(self)@,
                    wanted,
                    final(self)@,
                    snapshot,
                ),
                Err(error) => {
                    &&& snapshot matches Err(e)
                    &&& e == error
                    &&& final(self)@ == old(self)@
                },
            },
            final(self).checkpoint() == old(self)@,
            final(self).storage_state() == old(self).storage_state(),
            old(self).well_formed() ==> final(self).well_formed(),
    {
        self.undo = None;
        proof {
            if unique_keys(old(self)@) {
                law_unique_keys_kept(old(self)@, key@, value@);
            }
        }
        if self.position(key).is_some() {
            return Err(StoreError::KeyExists);
        }
        self.data.push(KV { key: key.to_owned(), value: value.to_owned() });
        self.undo = Some(Change::Pushed);
        proof {
            assert(self@ =~= old(self)@.push((key@, value@)));
            assert(self@.drop_last() =~= old(self)@);
        }
        let snapshot = self.persist_data();
        self.conclude(snapshot)
    }

    /// Gives the first entry with the key `key` the value `value` and
    /// returns the snapshot to write.
    ///
    /// Fails with `KeyNotFound` where the table has no such key, and with
    /// `NotOpen` where it has one and the storage is not bound; succeeds
    /// otherwise. A failed update leaves the table as it was.
    pub fn update(&mut self, key: &str, value: &str) -> (snapshot: Result<Vec<u8>, StoreError>)
        ensures
            match updated(old(self)@, key@, value@) {
                Ok(wanted) => change_outcome(
                    old(self).storage_state().bound(),
                    old(self)@,
                    wanted,
                    final(self)@,
                    snapshot,
                ),
                Err(error) => {
                    &&& snapshot matches Err(e)
                    &&& e == error
                    &&& final(self)@ == old(self)@
                },
            },
            final(self).checkpoint() == old(self)@,
            final(self).storage_state() == old(self).storage_state(),
            old(self).well_formed() ==> final(self).well_formed(),
    {
        self.undo = None;
        proof {
            if unique_keys(old(self)@) {
                law_unique_keys_kept(old(self)@, key@, value@);
            }
        }
        match self.position(key) {
            None => Err(StoreError::KeyNotFound),
            Some(index) => {
                proof {
                    lemma_first_match_is(self@, key@, index as int);
                }
                let previous = self.data[index].clone();
                self.data[index] = KV { key: key.to_owned(), value: value.to_owned() };
                self.undo = Some(Change::Replaced { index, entry: previous });
                proof {
                    assert(self@ =~= old(self)@.update(index as int, (key@, value@)));
                    assert(self@.update(index as int, previous@) =~= old(self)@);
                }
                let snapshot = self.persist_data();
                self.conclude(snapshot)
            },
        }
    }

    /// Removes the first entry with the key `key` and returns the snapshot
    /// to write, or `None` where the table has no such key: then nothing has
    /// changed and nothing is to be written.
    ///
    /// Fails with `NotOpen` where an entry is to be removed and the storage
    /// is not bound, and in no other case. A failed delete leaves the table
    /// as it was.
    pub fn delete(&mut self, key: &str) -> (snapshot: Result<Option<Vec<u8>>, StoreError>)
        ensures
            !has_key(old(self)@, key@) ==> {
                &&& snapshot matches Ok(written)
                &&& written is None
                &&& final(self)@ == old(self)@
            },
            has_key(old(self)@, key@) ==> match snapshot {
                Ok(written) => {
                    &&& written matches Some(bytes)
                    &&& change_outcome(
                        old(self).storage_state().bound(),
                        old(self)@,
                        deleted(old(self)@, key@),
                        final(self)@,
                        Ok(bytes),
                    )
                },
                Err(e) => change_outcome(
                    old(self).storage_state().bound(),
                    old(self)@,
                    deleted(old(self)@, key@),
                    final(self)@,
                    Err(e),
                ),
            },
            final(self).checkpoint() == old(self)@,
            final(self).storage_state() == old(self).storage_state(),
            old(self).well_formed() ==> final(self).well_formed(),
    {
        self.undo = None;
        proof {
            if unique_keys(old(self)@) {
                law_unique_keys_kept(old(self)@, key@, key@);
            }
        }
        match self.position(key) {
            None => Ok(None),
            Some(index) => {
                proof {
                    lemma_first_match_is(self@, key@, index as int);
                }
                let removed = self.data.remove(index);
                self.undo = Some(Change::Removed { index, entry: removed });
                proof {
                    assert(self@ =~= old(self)@.remove(index as int));
                    assert(self@.insert(index as int, removed@) =~= old(self)@);
                }
                let snapshot = self.persist_data();
                match self.conclude(snapshot) {
                    Ok(bytes) => Ok(Some(bytes)),
                    Err(e) => Err(e),
                }
            },
        }
    }

    /// Makes the snapshot of the table as it is now.
    ///
    /// Fails with `NotOpen` where the storage is not bound, and succeeds on
    /// every bound storage.
    pub fn persist_data(&self) -> (snapshot: Result<Vec<u8>, StoreError>)
        ensures
            change_outcome(self.storage_state().bound(), self@, self@, self@, snapshot),
    {
        self.storage.save_file(&self.data)
    }

    /// Ends a command whose change is already made, given the snapshot that
    /// was or was not made of it: with a snapshot the change stays, open to
    /// a later `rollback`; without one it is taken back at once.
    pub fn conclude(&mut self, snapshot: Result<Vec<u8>, StoreError>) -> (outcome: Result<
        Vec<u8>,
        StoreError,
    >)
        ensures
            outcome == snapshot,
            snapshot is Ok ==> final(self)@ == old(self)@,
            snapshot is Err ==> final(self)@ == old(self).checkpoint(),
            final(self).checkpoint() == old(self).checkpoint(),
            final(self).storage_state() == old(self).storage_state(),
            old(self).well_formed() ==> final(self).well_formed(),
    {
        match snapshot {
            Ok(bytes) => Ok(bytes),
            Err(e) => {
                self.rollback();
                Err(e)
            },
        }
    }

    /// Settles the last command: the table stays as it is, and there is
    /// nothing left to take back.
    pub fn commit(&mut self)
        ensures
            final(self)@ == old(self)@,
            final(self).checkpoint() == final(self)@,
            final(self).storage_state() == old(self).storage_state(),
            old(self).well_formed() ==> final(self).well_formed(),
    {
        self.undo = None;
    }

    /// Takes the last command back, unless it is settled already: the table
    /// is again what it was before that command.
    pub fn rollback(&mut self)
        ensures
            final(self)@ == old(self).checkpoint(),
            final(self).checkpoint() == final(self)@,
            final(self).storage_state() == old(self).storage_state(),
            old(self).well_formed() ==> final(self).well_formed(),
    {
        match self.undo.take() {
            None => {},
            Some(Change::Pushed) => {
                let _ = self.data.pop();
                proof {
                    if old(self)@.len() > 0 {
                        assert(self@ =~= old(self)@.drop_last());
                    }
                }
            },
            Some(Change::Replaced { index, entry }) => {
                if index < self.data.len() {
                    self.data[index] = entry;
                    proof {
                        assert(self@ =~= old(self)@.update(index as int, entry@));
                    }
                }
            },
            Some(Change::Removed { index, entry }) => {
                if index <= self.data.len() {
                    let ghost restored = entry@;
                    self.data.insert(index, entry);
                    proof {
                        assert(self@ =~= old(self)@.insert(index as int, restored));
                    }
                }
            },
        }
    }

    /// Hears from the host whether the snapshot of the last command was
    /// written. A written snapshot settles the command. One that was not
    /// written takes the command back and fails with `Io`.
    pub fn settle(&mut self, written: bool) -> (outcome: Result<(), StoreError>)
        ensures
            written ==> outcome == Ok::<(), StoreError>(()) && final(self)@ == old(self)@,
            !written ==> outcome == Err::<(), StoreError>(StoreError::Io) && final(self)@ == old(
                self,
            ).checkpoint(),
            final(self).checkpoint() == final(self)@,
            final(self).storage_state() == old(self).storage_state(),
            old(self).well_formed() ==> final(self).well_formed(),
    {
        if written {
            self.commit();
            Ok(())
        } else {
            self.rollback();
            Err(StoreError::Io)
        }
    }
}

} // verus!
