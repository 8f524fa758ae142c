//! The mathematical model of the table: a sequence of entries, and what the
//! four commands mean on it.

use crate::error::StoreError;
use vstd::prelude::*;

verus! {

/// The model of one entry: its key, then its value.
pub type Entry = (Seq<char>, Seq<char>);

/// Some entry of `entries` has the key `key`.
pub open spec fn has_key(entries: Seq<Entry>, key: Seq<char>) -> bool {
    exists|i: int| 0 <= i < entries.len() && (#[trigger] entries[i]).0 == key
}

/// The entry at `i` has the key `key`, and no entry before it has.
pub open spec fn is_first_match(entries: Seq<Entry>, key: Seq<char>, i: int) -> bool {
    &&& 0 <= i < entries.len()
    &&& entries[i].0 == key
    &&& forall|j: int| 0 <= j < i ==> (#[trigger] entries[j]).0 != key
}

/// The position of the first entry with the key `key`, where there is one.
pub open spec fn first_match(entries: Seq<Entry>, key: Seq<char>) -> int {
    choose|i: int| is_first_match(entries, key, i)
}

/// No two entries share a key: the invariant of a table.
pub open spec fn unique_keys(entries: Seq<Entry>) -> bool {
    forall|i: int, j: int|
        0 <= i < j < entries.len() ==> (#[trigger] entries[i]).0 != (#[trigger] entries[j]).0
}

/// What `get` answers on the table `entries`: the first entry with the key.
pub open spec fn fetched(entries: Seq<Entry>, key: Seq<char>) -> Result<Entry, StoreError> {
    if has_key(entries, key) {
        Ok(entries[first_match(entries, key)])
    } else {
        Err(StoreError::KeyNotFound)
    }
}

/// The table that `insert` leaves: the new entry comes last, and a key that
/// is already there is refused.
pub open spec fn inserted(entries: Seq<Entry>, key: Seq<char>, value: Seq<char>) -> Result<
    Seq<Entry>,
    StoreError,
> {
    if has_key(entries, key) {
        Err(StoreError::KeyExists)
    } else {
        Ok(entries.push((key, value)))
    }
}

/// The table that `update` leaves: the first entry with the key gets the new
/// value and keeps its place.
pub open spec fn updated(entries: Seq<Entry>, key: Seq<char>, value: Seq<char>) -> Result<
    Seq<Entry>,
    StoreError,
> {
    if has_key(entries, key) {
        Ok(entries.update(first_match(entries, key), (key, value)))
    } else {
        Err(StoreError::KeyNotFound)
    }
}

/// The table that `delete` leaves: the first entry with the key is gone, and
/// a table without the key stays as it is.
pub open spec fn deleted(entries: Seq<Entry>, key: Seq<char>) -> Seq<Entry> {
    if has_key(entries, key) {
        entries.remove(first_match(entries, key))
    } else {
        entries
    }
}

/// A position that holds the key has a first match at or before it.
proof fn lemma_first_match_before(entries: Seq<Entry>, key: Seq<char>, i: int)
    requires
        0 <= i < entries.len(),
        entries[i].0 == key,
    ensures
        exists|k: int| 0 <= k <= i && is_first_match(entries, key, k),
    decreases i,
{
    if exists|j: int| 0 <= j < i && (#[trigger] entries[j]).0 == key {
        let j = choose|j: int| 0 <= j < i && (#[trigger] entries[j]).0 == key;
        lemma_first_match_before(entries, key, j);
    } else {
        assert(is_first_match(entries, key, i));
    }
}

/// A table that has the key has a first match for it, and `first_match`
/// names it.
pub proof fn lemma_has_key_first_match(entries: Seq<Entry>, key: Seq<char>)
    requires
        has_key(entries, key),
    ensures
        is_first_match(entries, key, first_match(entries, key)),
{
    let i = choose|i: int| 0 <= i < entries.len() && (#[trigger] entries[i]).0 == key;
    lemma_first_match_before(entries, key, i);
}

/// There is at most one first match, so a position that is one is the one
/// that `first_match` names.
pub proof fn lemma_first_match_is(entries: Seq<Entry>, key: Seq<char>, i: int)
    requires
        is_first_match(entries, key, i),
    ensures
        has_key(entries, key),
        first_match(entries, key) == i,
{
    let k = first_match(entries, key);
    assert(is_first_match(entries, key, k));
    if k < i {
        assert(entries[k].0 != key);
    } else if i < k {
        assert(entries[i].0 != key);
    }
}

/// In a table with unique keys there is nothing to choose between: every
/// position that holds the key is its first match.
pub proof fn law_unique_match_is_first(entries: Seq<Entry>, key: Seq<char>, i: int)
    requires
        unique_keys(entries),
        0 <= i < entries.len(),
        entries[i].0 == key,
    ensures
        is_first_match(entries, key, i),
{
    assert forall|j: int| 0 <= j < i implies (#[trigger] entries[j]).0 != key by {
        assert(entries[j].0 != entries[i].0);
    }
}

/// An insert that succeeds is seen by the next `get` of the same key, which
/// answers the inserted value unchanged.
pub proof fn law_insert_then_get(entries: Seq<Entry>, key: Seq<char>, value: Seq<char>)
    requires
        inserted(entries, key, value) is Ok,
    ensures
        fetched(inserted(entries, key, value)->Ok_0, key) == Ok::<Entry, StoreError>((key, value)),
{
    let after = entries.push((key, value));
    let last = entries.len() as int;
    assert(after[last] == (key, value));
    assert forall|j: int| 0 <= j < last implies (#[trigger] after[j]).0 != key by {
        assert(after[j] == entries[j]);
    }
    lemma_first_match_is(after, key, last);
}

/// An insert of a key that is already there is refused with `KeyExists`,
/// whatever the value, and so leaves no new table.
pub proof fn law_insert_existing_refused(entries: Seq<Entry>, key: Seq<char>, value: Seq<char>)
    requires
        has_key(entries, key),
    ensures
        inserted(entries, key, value) == Err::<Seq<Entry>, StoreError>(StoreError::KeyExists),
{
}

/// On a key that the table does not hold, `get` and `update` fail with
/// `KeyNotFound` and `delete` leaves the table as it is.
pub proof fn law_missing_key(entries: Seq<Entry>, key: Seq<char>, value: Seq<char>)
    requires
        !has_key(entries, key),
    ensures
        fetched(entries, key) == Err::<Entry, StoreError>(StoreError::KeyNotFound),
        updated(entries, key, value) == Err::<Seq<Entry>, StoreError>(StoreError::KeyNotFound),
        deleted(entries, key) == entries,
{
}

/// An update that succeeds is seen by the next `get` of the same key.
pub proof fn law_update_then_get(entries: Seq<Entry>, key: Seq<char>, value: Seq<char>)
    requires
        updated(entries, key, value) is Ok,
    ensures
        fetched(updated(entries, key, value)->Ok_0, key) == Ok::<Entry, StoreError>((key, value)),
{
    lemma_has_key_first_match(entries, key);
    let at = first_match(entries, key);
    let after = entries.update(at, (key, value));
    assert(after[at] == (key, value));
    assert forall|j: int| 0 <= j < at implies (#[trigger] after[j]).0 != key by {
        assert(after[j] == entries[j]);
    }
    lemma_first_match_is(after, key, at);
}

/// After a delete the key is absent from a table with unique keys, and a
/// second delete of the same key changes nothing more.
pub proof fn law_delete_idempotent(entries: Seq<Entry>, key: Seq<char>)
    requires
        unique_keys(entries),
    ensures
        !has_key(deleted(entries, key), key),
        fetched(deleted(entries, key), key) == Err::<Entry, StoreError>(StoreError::KeyNotFound),
        deleted(deleted(entries, key), key) == deleted(entries, key),
{
    if has_key(entries, key) {
        lemma_has_key_first_match(entries, key);
        let at = first_match(entries, key);
        let after = entries.remove(at);
        assert forall|j: int| 0 <= j < after.len() implies (#[trigger] after[j]).0 != key by {
            if j < at {
                assert(after[j] == entries[j]);
            } else {
                assert(after[j] == entries[j + 1]);
                assert(entries[at].0 != entries[j + 1].0);
            }
        }
    }
}

/// A command on one key leaves what `get` answers for every other key as it
/// was.
pub proof fn law_other_keys_untouched(
    entries: Seq<Entry>,
    key: Seq<char>,
    value: Seq<char>,
    other: Seq<char>,
)
    requires
        other != key,
    ensures
        inserted(entries, key, value) matches Ok(after) ==> fetched(after, other) == fetched(
            entries,
            other,
        ),
        updated(entries, key, value) matches Ok(after) ==> fetched(after, other) == fetched(
            entries,
            other,
        ),
        fetched(deleted(entries, key), other) == fetched(entries, other),
{
    if !has_key(entries, key) {
        lemma_same_answer_pushed(entries, (key, value), other);
    } else {
        lemma_has_key_first_match(entries, key);
        let at = first_match(entries, key);
        lemma_same_answer_updated(entries, at, (key, value), other);
        lemma_same_answer_removed(entries, at, other);
    }
}

/// Adding an entry with another key at the end changes no answer for `other`.
proof fn lemma_same_answer_pushed(entries: Seq<Entry>, entry: Entry, other: Seq<char>)
    requires
        entry.0 != other,
    ensures
        fetched(entries.push(entry), other) == fetched(entries, other),
{
    let after = entries.push(entry);
    if has_key(entries, other) {
        lemma_has_key_first_match(entries, other);
        let at = first_match(entries, other);
        assert(after[at] == entries[at]);
        assert forall|j: int| 0 <= j < at implies (#[trigger] after[j]).0 != other by {
            assert(after[j] == entries[j]);
        }
        lemma_first_match_is(after, other, at);
    } else {
        assert forall|j: int| 0 <= j < after.len() implies (#[trigger] after[j]).0 != other by {
            if j < entries.len() {
                assert(after[j] == entries[j]);
            }
        }
    }
}

/// Replacing an entry by one with the same key changes no answer for another
/// key.
proof fn lemma_same_answer_updated(entries: Seq<Entry>, at: int, entry: Entry, other: Seq<char>)
    requires
        0 <= at < entries.len(),
        entries[at].0 != other,
        entry.0 != other,
    ensures
        fetched(entries.update(at, entry), other) == fetched(entries, other),
{
    let after = entries.update(at, entry);
    if has_key(entries, other) {
        lemma_has_key_first_match(entries, other);
        let first = first_match(entries, other);
        assert(after[first] == entries[first]);
        assert forall|j: int| 0 <= j < first implies (#[trigger] after[j]).0 != other by {
            if j != at {
                assert(after[j] == entries[j]);
            }
        }
        lemma_first_match_is(after, other, first);
    } else {
        assert forall|j: int| 0 <= j < after.len() implies (#[trigger] after[j]).0 != other by {
            if j != at {
                assert(after[j] == entries[j]);
            }
        }
    }
}

/// Removing an entry changes no answer for a key other than its own.
proof fn lemma_same_answer_removed(entries: Seq<Entry>, at: int, other: Seq<char>)
    requires
        0 <= at < entries.len(),
        entries[at].0 != other,
    ensures
        fetched(entries.remove(at), other) == fetched(entries, other),
{
    let after = entries.remove(at);
    if has_key(entries, other) {
        lemma_has_key_first_match(entries, other);
        let first = first_match(entries, other);
        let moved = if first < at {
            first
        } else {
            first - 1
        };
        assert(after[moved] == entries[first]);
        assert forall|j: int| 0 <= j < moved implies (#[trigger] after[j]).0 != other by {
            if j < at {
                assert(after[j] == entries[j]);
            } else {
                assert(after[j] == entries[j + 1]);
            }
        }
        lemma_first_match_is(after, other, moved);
    } else {
        assert forall|j: int| 0 <= j < after.len() implies (#[trigger] after[j]).0 != other by {
            if j < at {
                assert(after[j] == entries[j]);
            } else {
                assert(after[j] == entries[j + 1]);
            }
        }
    }
}

/// The three mutating commands keep the keys of a table unique.
pub proof fn law_unique_keys_kept(entries: Seq<Entry>, key: Seq<char>, value: Seq<char>)
    requires
        unique_keys(entries),
    ensures
        inserted(entries, key, value) matches Ok(after) ==> unique_keys(after),
        updated(entries, key, value) matches Ok(after) ==> unique_keys(after),
        unique_keys(deleted(entries, key)),
{
    if !has_key(entries, key) {
        let after = entries.push((key, value));
        assert forall|i: int, j: int| 0 <= i < j < after.len() implies (#[trigger] after[i]).0
            != (#[trigger] after[j]).0 by {
            assert(after[i] == entries[i]);
            if j < entries.len() {
                assert(after[j] == entries[j]);
            }
        }
    } else {
        lemma_has_key_first_match(entries, key);
        let at = first_match(entries, key);
        let changed = entries.update(at, (key, value));
        assert forall|i: int, j: int| 0 <= i < j < changed.len() implies (#[trigger] changed[i]).0
            != (#[trigger] changed[j]).0 by {
            assert(changed[i].0 == entries[i].0);
            assert(changed[j].0 == entries[j].0);
        }
        let shorter = entries.remove(at);
        assert forall|i: int, j: int| 0 <= i < j < shorter.len() implies (#[trigger] shorter[i]).0
            != (#[trigger] shorter[j]).0 by {
            let from_i = if i < at {
                i
            } else {
                i + 1
            };
            let from_j = if j < at {
                j
            } else {
                j + 1
            };
            assert(shorter[i] == entries[from_i]);
            assert(shorter[j] == entries[from_j]);
        }
    }
}

} // verus!
