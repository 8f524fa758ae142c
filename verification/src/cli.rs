//! The commands of the interactive shell: what each one does to the store
//! and what it tells the user.
//!
//! The shell itself, which reads a line, splits it into words and prints,
//! belongs to the host. It hands a parsed command to `respond`, writes the
//! snapshot that comes back, and shows the text.

use crate::error::StoreError;
use crate::kv_store::{change_outcome, Store};
use crate::table::{deleted, fetched, has_key, inserted, updated, Entry};
use vstd::prelude::*;
use vstd::string::StringExecFns;

verus! {

/// One command of the shell, with its arguments.
#[derive(Debug)]
pub enum Command {
    /// Add a new entry.
    Insert { key: String, value: String },
    /// Show the value stored under a key.
    Get { key: String },
    /// Give an entry a new value.
    Update { key: String, value: String },
    /// Remove an entry.
    Delete { key: String },
    /// Leave the shell.
    Quit,
    /// A command that the shell does not know.
    Other { name: String },
}

/// The answer to a command.
#[derive(Debug)]
pub struct Reply {
    /// The text to show to the user.
    pub text: String,
    /// Whether the shell ends after this command.
    pub quit: bool,
    /// The snapshot to write over the database file before the text is
    /// shown, where the command changed the table.
    pub snapshot: Option<Vec<u8>>,
}

/// The line shown after an insert.
pub open spec fn inserted_text(key: Seq<char>, value: Seq<char>) -> Seq<char> {
    "Inserted entry {'"@ + key + "': '"@ + value + "'}\n"@
}

/// The line shown after an update.
pub open spec fn updated_text(key: Seq<char>, value: Seq<char>) -> Seq<char> {
    "Updated entry {'"@ + key + "' : '"@ + value + "'}\n"@
}

/// The line that shows an entry.
pub open spec fn entry_text(key: Seq<char>, value: Seq<char>) -> Seq<char> {
    "Entry: {\""@ + key + "\" : \""@ + value + "\"}\n"@
}

/// The line shown after a delete.
pub open spec fn deleted_text() -> Seq<char> {
    "Entry deleted successfully\n"@
}

/// The text shown when the shell is left.
pub open spec fn quit_text() -> Seq<char> {
    "Exiting ..."@
}

/// The line shown for a command that the shell does not know.
pub open spec fn unknown_text(name: Seq<char>) -> Seq<char> {
    "Method ["@ + name + "] Not implmeneted\n"@
}

/// The line shown when a command that changes the table fails.
pub open spec fn failure_text(error: StoreError) -> Seq<char> {
    "Error "@ + error.text() + "\n"@
}

/// The line shown when a lookup fails.
pub open spec fn lookup_failure_text(error: StoreError) -> Seq<char> {
    "Error: "@ + error.text() + "\n"@
}

/// The reply asks for nothing to be written and the table is as it was.
pub open spec fn answers_unchanged(before: Seq<Entry>, after: Seq<Entry>, reply: Reply) -> bool {
    after == before && reply.snapshot is None
}

/// How the reply to a command that changes the table is made up: `wanted`
/// is the table that the command is to leave, or the reason why it is
/// refused, and `done` is the line shown where it went through.
pub open spec fn answers_change(
    wanted: Result<Seq<Entry>, StoreError>,
    bound: bool,
    before: Seq<Entry>,
    after: Seq<Entry>,
    reply: Reply,
    done: Seq<char>,
) -> bool {
    match wanted {
        Err(refused) => answers_unchanged(before, after, reply) && reply.text@ == failure_text(
            refused,
        ),
        Ok(table) => match reply.snapshot {
            Some(bytes) => {
                &&& change_outcome(bound, before, table, after, Ok(bytes))
                &&& reply.text@ == done
            },
            None => {
                &&& !bound
                &&& after == before
                &&& reply.text@ == failure_text(StoreError::NotOpen)
            },
        },
    }
}

/// Puts a text of the caller's between two pieces of text.
fn wrapped(open: &str, inner: &str, close: &str) -> (text: String)
    ensures
        text@ == open@ + inner@ + close@,
{
    let mut text = open.to_owned();
    text.append(inner);
    text.append(close);
    text
}

/// Puts two texts of the caller's between three pieces of text.
fn framed(open: &str, first: &str, middle: &str, second: &str, close: &str) -> (text: String)
    ensures
        text@ == open@ + first@ + middle@ + second@ + close@,
{
    let mut text = open.to_owned();
    text.append(first);
    text.append(middle);
    text.append(second);
    text.append(close);
    text
}

/// Returns the line shown when a command that changes the table fails.
pub fn failure_line(error: StoreError) -> (text: String)
    ensures
        text@ == failure_text(error),
{
    let message = error.message();
    wrapped("Error ", message.as_str(), "\n")
}

/// Returns the line shown when a lookup fails.
pub fn lookup_failure_line(error: StoreError) -> (text: String)
    ensures
        text@ == lookup_failure_text(error),
{
    let message = error.message();
    wrapped("Error: ", message.as_str(), "\n")
}

/// Makes the reply to a command that changes the table from what the store
/// answered: the snapshot to write and the line `done`, or the line that
/// names the failure.
fn change_reply(snapshot: Result<Vec<u8>, StoreError>, done: String) -> (reply: Reply)
    ensures
        !reply.quit,
        match snapshot {
            Ok(bytes) => reply.snapshot == Some(bytes) && reply.text@ == done@,
            Err(e) => reply.snapshot is None && reply.text@ == failure_text(e),
        },
{
    match snapshot {
        Ok(bytes) => Reply { text: done, quit: false, snapshot: Some(bytes) },
        Err(e) => Reply { text: failure_line(e), quit: false, snapshot: None },
    }
}

/// Carries out one command on the store and says what to show, whether to
/// leave the shell, and which snapshot to write first.
///
/// A command that changes the table is not settled yet: the host writes the
/// snapshot and hands the reply to `settled_text`.
pub fn respond(store: &mut Store, command: &Command) -> (reply: Reply)
    ensures
        reply.quit == (*command is Quit),
        final(store).storage_state() == old(store).storage_state(),
        (*command is Insert || *command is Update || *command is Delete) ==> final(store).checkpoint()
            == old(store)@,
        old(store).well_formed() ==> final(store).well_formed(),
        match *command {
            Command::Insert { key, value } => answers_change(
                inserted(old(store)@, key@, value@),
                old(store).storage_state().bound(),
                old(store)@,
                final(store)@,
                reply,
                inserted_text(key@, value@),
            ),
            Command::Update { key, value } => answers_change(
                updated(old(store)@, key@, value@),
                old(store).storage_state().bound(),
                old(store)@,
                final(store)@,
                reply,
                updated_text(key@, value@),
            ),
            Command::Delete { key } => if has_key(old(store)@, key@) {
                answers_change(
                    Ok(deleted(old(store)@, key@)),
                    old(store).storage_state().bound(),
                    old(store)@,
                    final(store)@,
                    reply,
                    deleted_text(),
                )
            } else {
                answers_unchanged(old(store)@, final(store)@, reply) && reply.text@
                    == deleted_text()
            },
            Command::Get { key } => {
                &&& *final(store) == *old(store)
                &&& reply.snapshot is None
                &&& reply.text@ == match fetched(old(store)@, key@) {
                    Ok(entry) => entry_text(key@, entry.1),
                    Err(e) => lookup_failure_text(e),
                }
            },
            Command::Quit => {
                &&& *final(store) == *old(store)
                &&& reply.snapshot is None
                &&& reply.text@ == quit_text()
            },
            Command::Other { name } => {
                &&& *final(store) == *old(store)
                &&& reply.snapshot is None
                &&& reply.text@ == unknown_text(name@)
            },
        },
{
    match command {
        Command::Insert { key, value } => {
            let done = framed("Inserted entry {'", key.as_str(), "': '", value.as_str(), "'}\n");
            let snapshot = store.insert(key.as_str(), value.as_str());
            change_reply(snapshot, done)
        },
        Command::Update { key, value } => {
            let done = framed("Updated entry {'", key.as_str(), "' : '", value.as_str(), "'}\n");
            let snapshot = store.update(key.as_str(), value.as_str());
            change_reply(snapshot, done)
        },
        Command::Delete { key } => {
            let done = "Entry deleted successfully\n".to_owned();
            match store.delete(key.as_str()) {
                Ok(Some(bytes)) => change_reply(Ok(bytes), done),
                Ok(None) => Reply { text: done, quit: false, snapshot: None },
                Err(e) => change_reply(Err(e), done),
            }
        },
        Command::Get { key } => {
            let text = match store.get(key.as_str()) {
                Ok(entry) => framed("Entry: {\"", key.as_str(), "\" : \"", entry.value.as_str(), "\"}\n"),
                Err(e) => lookup_failure_line(e),
            };
            Reply { text, quit: false, snapshot: None }
        },
        Command::Quit => Reply { text: "Exiting ...".to_owned(), quit: true, snapshot: None },
        Command::Other { name } => {
            let text = wrapped("Method [", name.as_str(), "] Not implmeneted\n");
            Reply { text, quit: false, snapshot: None }
        },
    }
}

/// Settles a command once the host has tried to write its snapshot, and
/// returns the text to show: the reply's own where the snapshot was written,
/// else the line that names the failed write, with the change taken back.
pub fn settled_text(store: &mut Store, reply: Reply, written: bool) -> (text: String)
    ensures
        written ==> text@ == reply.text@ && final(store)@ == old(store)@,
        !written ==> text@ == failure_text(StoreError::Io) && final(store)@ == old(
            store,
        ).checkpoint(),
        final(store).checkpoint() == final(store)@,
        final(store).storage_state() == old(store).storage_state(),
        old(store).well_formed() ==> final(store).well_formed(),
{
    match store.settle(written) {
        Ok(()) => reply.text,
        Err(e) => failure_line(e),
    }
}

} // verus!
