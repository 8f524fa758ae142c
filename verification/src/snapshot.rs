//! The snapshot format: how a table is laid out in the bytes of the database
//! file, and why those bytes give the table back.
//!
//! A snapshot is the number of entries, then each entry's key and value. A
//! number takes eight bytes, lowest byte first; a text is the number of its
//! UTF-8 bytes, then the bytes.

use crate::error::StoreError;
use crate::kv_store::KV;
use crate::table::{fetched, Entry};
use vstd::bytes::{
    lemma_auto_spec_u64_to_from_le_bytes, spec_u64_from_le_bytes, spec_u64_to_le_bytes,
};
use vstd::prelude::*;
use vstd::utf8::{encode_utf8, encode_utf8_decode_utf8};

verus! {

/// The eight bytes that stand for the length `n`.
pub open spec fn length_bytes(n: nat) -> Seq<u8> {
    spec_u64_to_le_bytes(n as u64)
}

/// A text in a snapshot: the length of its UTF-8 form, then that form.
pub open spec fn text_bytes(text: Seq<char>) -> Seq<u8> {
    length_bytes(encode_utf8(text).len()) + encode_utf8(text)
}

/// An entry in a snapshot: its key, then its value.
pub open spec fn entry_bytes(entry: Entry) -> Seq<u8> {
    text_bytes(entry.0) + text_bytes(entry.1)
}

/// The entries of a snapshot, one after another in the table's order.
pub open spec fn entries_bytes(entries: Seq<Entry>) -> Seq<u8>
    decreases entries.len(),
{
    if entries.len() == 0 {
        Seq::empty()
    } else {
        entry_bytes(entries.first()) + entries_bytes(entries.drop_first())
    }
}

/// The snapshot of a table: the number of its entries, then the entries.
pub open spec fn snapshot_bytes(entries: Seq<Entry>) -> Seq<u8> {
    length_bytes(entries.len()) + entries_bytes(entries)
}

/// The UTF-8 form of the text is short enough for its length to be written
/// in eight bytes.
pub open spec fn text_fits(text: Seq<char>) -> bool {
    encode_utf8(text).len() <= u64::MAX
}

/// Every length that the snapshot of `entries` writes down fits its eight
/// bytes. This holds of every table that a machine can hold in memory.
pub open spec fn fits(entries: Seq<Entry>) -> bool {
    &&& entries.len() <= u64::MAX
    &&& forall|i: int|
        0 <= i < entries.len() ==> text_fits((#[trigger] entries[i]).0) && text_fits(entries[i].1)
}

/// The bytes begin with the snapshot of `entries`; what follows it, if
/// anything, is not looked at.
pub open spec fn begins_with_snapshot(bytes: Seq<u8>, entries: Seq<Entry>) -> bool {
    fits(entries) && snapshot_bytes(entries).is_prefix_of(bytes)
}

/// The table that a file with the content `bytes` stands for: an empty file
/// is the empty table, any other file is the table whose snapshot it begins
/// with, and a file that begins with no snapshot stands for nothing.
pub open spec fn decoded(bytes: Seq<u8>) -> Option<Seq<Entry>> {
    if bytes.len() == 0 {
        Some(Seq::empty())
    } else if exists|entries: Seq<Entry>| begins_with_snapshot(bytes, entries) {
        Some(choose|entries: Seq<Entry>| begins_with_snapshot(bytes, entries))
    } else {
        None
    }
}

/// Where the front part of a sequence is a prefix, so is the whole, cut into
/// the front and what follows it.
proof fn lemma_prefix_split(front: Seq<u8>, back: Seq<u8>, bytes: Seq<u8>)
    requires
        (front + back).is_prefix_of(bytes),
    ensures
        front.is_prefix_of(bytes),
        back.is_prefix_of(bytes.skip(front.len() as int)),
{
    let whole = front + back;
    assert(front =~= whole.subrange(0, front.len() as int));
    assert(back =~= whole.subrange(front.len() as int, whole.len() as int));
}

/// Two lengths whose eight bytes begin the same bytes are the same length.
proof fn lemma_length_unique(bytes: Seq<u8>, m: nat, n: nat)
    requires
        m <= u64::MAX,
        n <= u64::MAX,
        length_bytes(m).is_prefix_of(bytes),
        length_bytes(n).is_prefix_of(bytes),
    ensures
        m == n,
{
    lemma_auto_spec_u64_to_from_le_bytes();
    assert(length_bytes(m) =~= length_bytes(n));
    assert(spec_u64_from_le_bytes(spec_u64_to_le_bytes(m as u64)) == m as u64);
    assert(spec_u64_from_le_bytes(spec_u64_to_le_bytes(n as u64)) == n as u64);
}

/// Two texts whose snapshot forms begin the same bytes are the same text.
proof fn lemma_text_unique(bytes: Seq<u8>, a: Seq<char>, b: Seq<char>)
    requires
        text_fits(a),
        text_fits(b),
        text_bytes(a).is_prefix_of(bytes),
        text_bytes(b).is_prefix_of(bytes),
    ensures
        a == b,
{
    lemma_auto_spec_u64_to_from_le_bytes();
    let a_utf8 = encode_utf8(a);
    let b_utf8 = encode_utf8(b);
    lemma_prefix_split(length_bytes(a_utf8.len()), a_utf8, bytes);
    lemma_prefix_split(length_bytes(b_utf8.len()), b_utf8, bytes);
    lemma_length_unique(bytes, a_utf8.len(), b_utf8.len());
    assert(a_utf8 =~= b_utf8);
    encode_utf8_decode_utf8(a);
    encode_utf8_decode_utf8(b);
}

/// Two lists of equally many entries whose snapshot forms begin the same
/// bytes are the same list.
proof fn lemma_entries_unique(bytes: Seq<u8>, a: Seq<Entry>, b: Seq<Entry>)
    requires
        a.len() == b.len(),
        fits(a),
        fits(b),
        entries_bytes(a).is_prefix_of(bytes),
        entries_bytes(b).is_prefix_of(bytes),
    ensures
        a == b,
    decreases a.len(),
{
    if a.len() == 0 {
        assert(a =~= b);
    } else {
        let a_rest = a.drop_first();
        let b_rest = b.drop_first();
        let a_key = text_bytes(a[0].0);
        let b_key = text_bytes(b[0].0);
        lemma_prefix_split(entry_bytes(a[0]), entries_bytes(a_rest), bytes);
        lemma_prefix_split(entry_bytes(b[0]), entries_bytes(b_rest), bytes);
        lemma_prefix_split(a_key, text_bytes(a[0].1), bytes);
        lemma_prefix_split(b_key, text_bytes(b[0].1), bytes);
        lemma_text_unique(bytes, a[0].0, b[0].0);
        lemma_text_unique(bytes.skip(a_key.len() as int), a[0].1, b[0].1);
        assert(a[0] == b[0]);
        assert forall|i: int| 0 <= i < a_rest.len() implies text_fits((#[trigger] a_rest[i]).0)
            && text_fits(a_rest[i].1) by {
            assert(a_rest[i] == a[i + 1]);
        }
        assert forall|i: int| 0 <= i < b_rest.len() implies text_fits((#[trigger] b_rest[i]).0)
            && text_fits(b_rest[i].1) by {
            assert(b_rest[i] == b[i + 1]);
        }
        lemma_entries_unique(bytes.skip(entry_bytes(a[0]).len() as int), a_rest, b_rest);
        assert(a =~= seq![a[0]] + a_rest);
        assert(b =~= seq![b[0]] + b_rest);
    }
}

/// Bytes begin with the snapshot of at most one table.
pub proof fn lemma_snapshot_unique(bytes: Seq<u8>, a: Seq<Entry>, b: Seq<Entry>)
    requires
        begins_with_snapshot(bytes, a),
        begins_with_snapshot(bytes, b),
    ensures
        a == b,
{
    lemma_auto_spec_u64_to_from_le_bytes();
    lemma_prefix_split(length_bytes(a.len()), entries_bytes(a), bytes);
    lemma_prefix_split(length_bytes(b.len()), entries_bytes(b), bytes);
    lemma_length_unique(bytes, a.len(), b.len());
    lemma_entries_unique(bytes.skip(8), a, b);
}

/// Bytes that begin with the snapshot of a table stand for that table.
pub proof fn lemma_decoded_is(bytes: Seq<u8>, entries: Seq<Entry>)
    requires
        begins_with_snapshot(bytes, entries),
    ensures
        decoded(bytes) == Some(entries),
{
    assert(bytes.len() >= 8) by {
        lemma_auto_spec_u64_to_from_le_bytes();
    }
    let chosen = choose|entries: Seq<Entry>| begins_with_snapshot(bytes, entries);
    lemma_snapshot_unique(bytes, chosen, entries);
}

/// Loading what was saved gives the saved table back: the snapshot of a
/// table stands for exactly that table, so every key that the table holds is
/// answered after a reload with the value it had before, and no other key is
/// answered at all.
pub proof fn law_snapshot_round_trip(entries: Seq<Entry>)
    requires
        fits(entries),
    ensures
        decoded(snapshot_bytes(entries)) == Some(entries),
        forall|key: Seq<char>|
            fetched(decoded(snapshot_bytes(entries))->Some_0, key) == #[trigger] fetched(
                entries,
                key,
            ),
{
    let bytes = snapshot_bytes(entries);
    assert(bytes.subrange(0, bytes.len() as int) =~= bytes);
    lemma_decoded_is(bytes, entries);
}

/// The error that the codec reports. Nothing is read from it: the library
/// answers with an error of its own.
#[verifier::external_type_specification]
#[verifier::external_body]
pub struct ExCodecError(bincode::ErrorKind);

/// Calls `bincode::serialize` on a list of key and value pairs.
///
/// Trusted: the codec answers with bytes, and they are the snapshot of the
/// pairs as `snapshot_bytes` lays it out: the number of pairs as a `u64`,
/// lowest byte first, then each text as the `u64` number of its UTF-8 bytes
/// and the bytes. For a list of pairs of texts the codec has no way to fail:
/// it sets no limit on the bytes, a list gives the length that it asks for,
/// and it writes into a byte vector in memory.
#[verifier::external_body]
fn codec_serialize(pairs: &Vec<(String, String)>) -> (encoded: Result<Vec<u8>, bincode::Error>)
    ensures
        encoded is Ok,
        encoded matches Ok(bytes) ==> bytes@ == snapshot_bytes(pairs.deep_view()),
{
    bincode::serialize(pairs)
}

/// Calls `bincode::deserialize` for a list of key and value pairs.
///
/// Trusted: the codec reads a snapshot from the front of the bytes and
/// ignores what follows it. Where it answers with pairs, the bytes begin with
/// their snapshot; where it answers with an error, the bytes begin with the
/// snapshot of no table.
#[verifier::external_body]
fn codec_deserialize(bytes: &[u8]) -> (pairs: Result<Vec<(String, String)>, bincode::Error>)
    ensures
        match pairs {
            Ok(list) => begins_with_snapshot(bytes@, list.deep_view()),
            Err(_) => forall|entries: Seq<Entry>| !begins_with_snapshot(bytes@, entries),
        },
{
    bincode::deserialize(bytes)
}

/// Copies a text, having seen that the length of its UTF-8 form is one that
/// the machine can count, and so fits a snapshot.
fn checked_text(text: &String) -> (copy: String)
    ensures
        copy@ == text@,
        text_fits(text@),
{
    let _width: usize = text.as_str().as_bytes().len();
    text.clone()
}

/// Copies the entries into the pairs that the codec takes.
fn to_pairs(entries: &Vec<KV>) -> (pairs: Vec<(String, String)>)
    ensures
        pairs.deep_view() == entries.deep_view(),
        fits(entries.deep_view()),
{
    let mut pairs: Vec<(String, String)> = Vec::new();
    let mut i: usize = 0;
    while i < entries.len()
        invariant
            i <= entries.len(),
            pairs.len() == i,
            forall|j: int| 0 <= j < i ==> (#[trigger] pairs[j]).deep_view() == entries[j]@,
            forall|j: int|
                0 <= j < i ==> text_fits((#[trigger] entries[j]).key@) && text_fits(
                    entries[j].value@,
                ),
        decreases entries.len() - i,
    {
        let entry = &entries[i];
        let key = checked_text(&entry.key);
        let value = checked_text(&entry.value);
        pairs.push((key, value));
        i += 1;
    }
    assert(pairs.deep_view() =~= entries.deep_view());
    pairs
}

/// Moves the pairs that the codec gave into entries.
fn from_pairs(pairs: Vec<(String, String)>) -> (entries: Vec<KV>)
    ensures
        entries.deep_view() == pairs.deep_view(),
{
    let ghost all = pairs.deep_view();
    let mut entries: Vec<KV> = Vec::new();
    for pair in iter: pairs
        invariant
            iter.seq().len() == all.len(),
            forall|j: int| 0 <= j < all.len() ==> (#[trigger] iter.seq()[j]).deep_view() == all[j],
            entries.len() == iter.index(),
            forall|j: int| 0 <= j < entries.len() ==> (#[trigger] entries[j])@ == all[j],
    {
        let (key, value) = pair;
        entries.push(KV { key, value });
    }
    assert(entries.deep_view() =~= all);
    entries
}

/// Encodes a table as the snapshot that replaces the database file.
///
/// Every table has a snapshot: the answer is always `Ok`. Its bytes are the
/// snapshot of the table, and stand for that table when they are loaded
/// again.
pub fn encode(entries: &Vec<KV>) -> (snapshot: Result<Vec<u8>, StoreError>)
    ensures
        snapshot matches Ok(bytes) && bytes@ == snapshot_bytes(entries.deep_view()) && decoded(
            bytes@,
        ) == Some(entries.deep_view()),
{
    let pairs = to_pairs(entries);
    match codec_serialize(&pairs) {
        Ok(bytes) => {
            proof {
                law_snapshot_round_trip(entries.deep_view());
            }
            Ok(bytes)
        },
        Err(_) => Err(StoreError::Encode),
    }
}

/// Decodes the content of the database file into the table it stands for.
///
/// An empty file is the empty table. Any other content is read as a
/// snapshot, and refused with `CorruptData` where it begins with none.
pub fn decode(bytes: &[u8]) -> (entries: Result<Vec<KV>, StoreError>)
    ensures
        match entries {
            Ok(list) => decoded(bytes@) == Some(list.deep_view()),
            Err(e) => e == StoreError::CorruptData && decoded(bytes@) is None,
        },
{
    if bytes.len() == 0 {
        let empty: Vec<KV> = Vec::new();
        assert(empty.deep_view() =~= Seq::<Entry>::empty());
        return Ok(empty);
    }
    match codec_deserialize(bytes) {
        Ok(pairs) => {
            proof {
                lemma_decoded_is(bytes@, pairs.deep_view());
            }
            Ok(from_pairs(pairs))
        },
        Err(_) => Err(StoreError::CorruptData),
    }
}

} // verus!
