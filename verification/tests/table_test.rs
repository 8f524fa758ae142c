use safina_db::cli::{failure_line, lookup_failure_line, respond, settled_text, Command};
use safina_db::error::StoreError;
use safina_db::kv_store::{Store, KV};
use safina_db::storage::FileRead;

/// A store bound to a database file with the content `bytes`.
fn store_from(bytes: Vec<u8>) -> Store {
    let mut store = Store::new();
    store.load(Some("db"), FileRead::Contents(bytes)).unwrap();
    store
}

/// A store bound to a database file that was just created.
fn fresh_store() -> Store {
    store_from(Vec::new())
}

fn table(store: &Store) -> Vec<(String, String)> {
    store
        .entries()
        .iter()
        .map(|e| (e.key.clone(), e.value.clone()))
        .collect()
}

fn pair(key: &str, value: &str) -> (String, String) {
    (key.to_string(), value.to_string())
}

#[test]
fn new_store_is_empty_and_unbound() {
    let store = Store::new();
    assert!(store.entries().is_empty());
    assert!(!store.storage().is_open());
    assert_eq!(store.storage().file_path(), None);
}

#[test]
fn insert_then_get_returns_the_value() {
    let mut store = fresh_store();
    store.insert("name", "Safina").unwrap();
    let found = store.get("name").unwrap();
    assert_eq!(found.key, "name");
    assert_eq!(found.value, "Safina");
}

#[test]
fn insert_returns_the_snapshot_of_the_new_table() {
    let mut store = fresh_store();
    let bytes = store.insert("a", "1").unwrap();
    assert_eq!(
        bytes,
        vec![
            1, 0, 0, 0, 0, 0, 0, 0, //
            1, 0, 0, 0, 0, 0, 0, 0, b'a', //
            1, 0, 0, 0, 0, 0, 0, 0, b'1',
        ]
    );
}

#[test]
fn insert_appends_at_the_end() {
    let mut store = fresh_store();
    store.insert("b", "2").unwrap();
    store.insert("a", "1").unwrap();
    store.insert("c", "3").unwrap();
    assert_eq!(
        table(&store),
        vec![pair("b", "2"), pair("a", "1"), pair("c", "3")]
    );
}

#[test]
fn insert_of_a_present_key_changes_nothing() {
    let mut store = fresh_store();
    store.insert("k", "v").unwrap();
    let second = store.insert("k", "v2");
    assert_eq!(second.err(), Some(StoreError::KeyExists));
    assert_eq!(store.get("k").unwrap().value, "v");
    assert_eq!(table(&store), vec![pair("k", "v")]);
}

#[test]
fn insert_on_an_unbound_store_fails_and_changes_nothing() {
    let mut store = Store::new();
    assert_eq!(store.insert("a", "1").err(), Some(StoreError::NotOpen));
    assert!(store.entries().is_empty());
    assert_eq!(store.get("a").err(), Some(StoreError::KeyNotFound));
}

#[test]
fn update_on_an_unbound_store_fails_and_changes_nothing() {
    let mut store = Store::new();
    store.hydrate(vec![KV {
        key: "a".to_string(),
        value: "1".to_string(),
    }]);
    assert_eq!(store.update("a", "2").err(), Some(StoreError::NotOpen));
    assert_eq!(table(&store), vec![pair("a", "1")]);
}

#[test]
fn delete_on_an_unbound_store_fails_only_where_an_entry_would_go() {
    let mut store = Store::new();
    store.hydrate(vec![KV {
        key: "a".to_string(),
        value: "1".to_string(),
    }]);
    assert_eq!(store.delete("a").err(), Some(StoreError::NotOpen));
    assert_eq!(table(&store), vec![pair("a", "1")]);
    assert_eq!(store.delete("missing"), Ok(None));
}

#[test]
fn commands_on_a_key_never_inserted() {
    let mut store = fresh_store();
    store.insert("other", "x").unwrap();
    assert_eq!(store.get("ghost").err(), Some(StoreError::KeyNotFound));
    assert_eq!(
        store.update("ghost", "v").err(),
        Some(StoreError::KeyNotFound)
    );
    assert_eq!(store.delete("ghost"), Ok(None));
    assert_eq!(table(&store), vec![pair("other", "x")]);
}

#[test]
fn update_keeps_the_place_of_the_entry() {
    let mut store = fresh_store();
    store.insert("a", "1").unwrap();
    store.insert("b", "2").unwrap();
    store.insert("c", "3").unwrap();
    store.update("b", "20").unwrap();
    assert_eq!(
        table(&store),
        vec![pair("a", "1"), pair("b", "20"), pair("c", "3")]
    );
}

#[test]
fn delete_removes_the_entry_and_keeps_the_order() {
    let mut store = fresh_store();
    store.insert("a", "1").unwrap();
    store.insert("b", "2").unwrap();
    store.insert("c", "3").unwrap();
    let written = store.delete("b").unwrap();
    assert!(written.is_some());
    assert_eq!(table(&store), vec![pair("a", "1"), pair("c", "3")]);
}

#[test]
fn delete_twice_gives_the_same_table() {
    let mut store = fresh_store();
    store.insert("a", "1").unwrap();
    store.insert("b", "2").unwrap();
    store.delete("a").unwrap();
    let after_first = table(&store);
    assert_eq!(store.delete("a"), Ok(None));
    assert_eq!(table(&store), after_first);
    assert_eq!(store.get("a").err(), Some(StoreError::KeyNotFound));
}

#[test]
fn empty_key_and_empty_value_are_ordinary() {
    let mut store = fresh_store();
    store.insert("", "").unwrap();
    assert_eq!(store.get("").unwrap().value, "");
    assert_eq!(store.insert("", "x").err(), Some(StoreError::KeyExists));
    store.update("", "filled").unwrap();
    assert_eq!(store.get("").unwrap().value, "filled");
    store.update("", "").unwrap();
    assert_eq!(store.get("").unwrap().value, "");
    assert!(store.delete("").unwrap().is_some());
    assert_eq!(store.get("").err(), Some(StoreError::KeyNotFound));
    assert_eq!(store.delete(""), Ok(None));
}

#[test]
fn scenario_four_commands_and_a_reload() {
    let mut store = fresh_store();
    store.insert("a", "1").unwrap();
    store.insert("b", "2").unwrap();
    store.update("a", "9").unwrap();
    let last = store.delete("b").unwrap().unwrap();
    assert_eq!(table(&store), vec![pair("a", "9")]);
    assert_eq!(store.get("b").err(), Some(StoreError::KeyNotFound));

    let reloaded = store_from(last);
    assert_eq!(table(&reloaded), vec![pair("a", "9")]);
    assert_eq!(reloaded.get("a").unwrap().value, "9");
    assert_eq!(reloaded.get("b").err(), Some(StoreError::KeyNotFound));
}

#[test]
fn scenario_second_insert_is_refused() {
    let mut store = fresh_store();
    store.insert("k", "v").unwrap();
    assert_eq!(store.insert("k", "v2").err(), Some(StoreError::KeyExists));
    assert_eq!(store.get("k").unwrap().value, "v");
}

#[test]
fn scenario_load_of_a_new_file_gives_an_empty_store() {
    let mut store = Store::new();
    let loaded = store.load(Some("never-seen-before"), FileRead::Contents(Vec::new()));
    assert_eq!(loaded, Ok(()));
    assert!(store.entries().is_empty());
    assert!(store.storage().is_open());
    assert_eq!(store.get("any").err(), Some(StoreError::KeyNotFound));
    assert_eq!(store.get("").err(), Some(StoreError::KeyNotFound));
}

#[test]
fn reload_answers_every_key_as_before() {
    let mut store = fresh_store();
    let mut last = Vec::new();
    for (key, value) in [("a", "1"), ("", "empty"), ("ключ", "значение"), ("d", "")] {
        last = store.insert(key, value).unwrap();
        store.settle(true).unwrap();
    }
    last = store.update("a", "one").unwrap();
    store.settle(true).unwrap();
    if let Some(bytes) = store.delete("d").unwrap() {
        last = bytes;
    }
    store.settle(true).unwrap();

    let reloaded = store_from(last);
    assert_eq!(table(&reloaded), table(&store));
    for entry in store.entries() {
        assert_eq!(reloaded.get(&entry.key).unwrap().value, entry.value);
    }
    assert_eq!(reloaded.get("d").err(), Some(StoreError::KeyNotFound));
}

#[test]
fn failed_load_leaves_the_table() {
    let mut store = fresh_store();
    store.insert("a", "1").unwrap();
    assert_eq!(
        store.load(None, FileRead::Contents(vec![9, 9, 9])),
        Err(StoreError::CorruptData)
    );
    assert_eq!(table(&store), vec![pair("a", "1")]);
    assert_eq!(store.load(None, FileRead::ReadFailed), Err(StoreError::Io));
    assert_eq!(table(&store), vec![pair("a", "1")]);
}

#[test]
fn load_without_a_path_fails_with_no_path() {
    let mut store = Store::new();
    assert_eq!(
        store.load(None, FileRead::Contents(Vec::new())),
        Err(StoreError::NoPath)
    );
    assert!(!store.storage().is_open());
}

#[test]
fn load_that_cannot_open_leaves_the_store_unbound() {
    let mut store = Store::new();
    assert_eq!(
        store.load(Some("db"), FileRead::OpenFailed),
        Err(StoreError::Io)
    );
    assert!(!store.storage().is_open());
    assert_eq!(store.insert("a", "1").err(), Some(StoreError::NotOpen));
}

#[test]
fn store_started_empty_after_corrupt_data_can_persist() {
    let mut store = Store::new();
    assert_eq!(
        store.load(Some("db"), FileRead::Contents(vec![1, 2, 3])),
        Err(StoreError::CorruptData)
    );
    assert!(store.entries().is_empty());
    assert!(store.storage().is_open());
    assert!(store.insert("a", "1").is_ok());
}

#[test]
fn loaded_table_with_a_repeated_key_answers_with_the_first() {
    let mut store = Store::new();
    store.hydrate(vec![
        KV {
            key: "k".to_string(),
            value: "first".to_string(),
        },
        KV {
            key: "k".to_string(),
            value: "second".to_string(),
        },
    ]);
    assert_eq!(store.position("k"), Some(0));
    assert_eq!(store.get("k").unwrap().value, "first");
}

#[test]
fn position_is_the_first_match() {
    let mut store = fresh_store();
    store.insert("a", "1").unwrap();
    store.insert("b", "2").unwrap();
    assert_eq!(store.position("a"), Some(0));
    assert_eq!(store.position("b"), Some(1));
    assert_eq!(store.position("c"), None);
}

#[test]
fn unwritten_insert_is_taken_back() {
    let mut store = fresh_store();
    store.insert("a", "1").unwrap();
    store.settle(true).unwrap();
    store.insert("b", "2").unwrap();
    assert_eq!(store.settle(false), Err(StoreError::Io));
    assert_eq!(table(&store), vec![pair("a", "1")]);
}

#[test]
fn unwritten_update_is_taken_back() {
    let mut store = fresh_store();
    store.insert("a", "1").unwrap();
    store.insert("b", "2").unwrap();
    store.settle(true).unwrap();
    store.update("a", "9").unwrap();
    assert_eq!(store.get("a").unwrap().value, "9");
    assert_eq!(store.settle(false), Err(StoreError::Io));
    assert_eq!(table(&store), vec![pair("a", "1"), pair("b", "2")]);
}

#[test]
fn unwritten_delete_is_taken_back() {
    let mut store = fresh_store();
    store.insert("a", "1").unwrap();
    store.insert("b", "2").unwrap();
    store.insert("c", "3").unwrap();
    store.settle(true).unwrap();
    store.delete("b").unwrap();
    assert_eq!(store.settle(false), Err(StoreError::Io));
    assert_eq!(
        table(&store),
        vec![pair("a", "1"), pair("b", "2"), pair("c", "3")]
    );
}

#[test]
fn written_command_stays_after_a_later_rollback() {
    let mut store = fresh_store();
    store.insert("a", "1").unwrap();
    assert_eq!(store.settle(true), Ok(()));
    store.rollback();
    assert_eq!(table(&store), vec![pair("a", "1")]);
}

#[test]
fn rollback_takes_back_only_the_last_command() {
    let mut store = fresh_store();
    store.insert("a", "1").unwrap();
    store.insert("b", "2").unwrap();
    store.rollback();
    assert_eq!(table(&store), vec![pair("a", "1")]);
    store.rollback();
    assert_eq!(table(&store), vec![pair("a", "1")]);
}

#[test]
fn commit_settles_the_last_command() {
    let mut store = fresh_store();
    store.insert("a", "1").unwrap();
    store.commit();
    store.rollback();
    assert_eq!(table(&store), vec![pair("a", "1")]);
}

#[test]
fn refused_command_settles_the_one_before() {
    let mut store = fresh_store();
    store.insert("a", "1").unwrap();
    assert_eq!(store.insert("a", "2").err(), Some(StoreError::KeyExists));
    store.rollback();
    assert_eq!(table(&store), vec![pair("a", "1")]);
}

#[test]
fn conclude_keeps_or_takes_back() {
    let mut store = fresh_store();
    store.insert("a", "1").unwrap();
    assert_eq!(store.conclude(Ok(vec![1, 2])), Ok(vec![1, 2]));
    assert_eq!(table(&store), vec![pair("a", "1")]);
    assert_eq!(
        store.conclude(Err(StoreError::Encode)),
        Err(StoreError::Encode)
    );
    assert!(store.entries().is_empty());
}

#[test]
fn hydrate_replaces_the_table() {
    let mut store = fresh_store();
    store.insert("a", "1").unwrap();
    store.hydrate(vec![KV {
        key: "x".to_string(),
        value: "y".to_string(),
    }]);
    assert_eq!(table(&store), vec![pair("x", "y")]);
    store.rollback();
    assert_eq!(table(&store), vec![pair("x", "y")]);
}

#[test]
fn kv_clone_is_equal() {
    let kv = KV {
        key: "k".to_string(),
        value: "v".to_string(),
    };
    let copy = kv.clone();
    assert_eq!(copy.key, "k");
    assert_eq!(copy.value, "v");
}

#[test]
fn respond_insert_and_get() {
    let mut store = fresh_store();
    let reply = respond(
        &mut store,
        &Command::Insert {
            key: "k".to_string(),
            value: "v".to_string(),
        },
    );
    assert_eq!(reply.text, "Inserted entry {'k': 'v'}\n");
    assert!(!reply.quit);
    assert!(reply.snapshot.is_some());
    assert_eq!(settled_text(&mut store, reply, true), "Inserted entry {'k': 'v'}\n");

    let reply = respond(
        &mut store,
        &Command::Get {
            key: "k".to_string(),
        },
    );
    assert_eq!(reply.text, "Entry: {\"k\" : \"v\"}\n");
    assert!(reply.snapshot.is_none());
    assert!(!reply.quit);
}

#[test]
fn respond_failures() {
    let mut store = fresh_store();
    store.insert("k", "v").unwrap();
    let reply = respond(
        &mut store,
        &Command::Insert {
            key: "k".to_string(),
            value: "w".to_string(),
        },
    );
    assert_eq!(reply.text, "Error Key already exists\n");
    assert!(reply.snapshot.is_none());
    let reply = respond(
        &mut store,
        &Command::Update {
            key: "none".to_string(),
            value: "w".to_string(),
        },
    );
    assert_eq!(reply.text, "Error Key not found\n");
    let reply = respond(
        &mut store,
        &Command::Get {
            key: "none".to_string(),
        },
    );
    assert_eq!(reply.text, "Error: Key not found\n");

    let mut unbound = Store::new();
    let reply = respond(
        &mut unbound,
        &Command::Insert {
            key: "k".to_string(),
            value: "v".to_string(),
        },
    );
    assert_eq!(reply.text, "Error No file open to save data.\n");
    assert!(unbound.entries().is_empty());
}

#[test]
fn respond_update_delete_quit_and_unknown() {
    let mut store = fresh_store();
    store.insert("k", "v").unwrap();
    let reply = respond(
        &mut store,
        &Command::Update {
            key: "k".to_string(),
            value: "w".to_string(),
        },
    );
    assert_eq!(reply.text, "Updated entry {'k' : 'w'}\n");
    assert!(reply.snapshot.is_some());
    assert_eq!(store.get("k").unwrap().value, "w");

    let reply = respond(
        &mut store,
        &Command::Delete {
            key: "k".to_string(),
        },
    );
    assert_eq!(reply.text, "Entry deleted successfully\n");
    assert_eq!(reply.snapshot, Some(vec![0u8; 8]));
    let reply = respond(
        &mut store,
        &Command::Delete {
            key: "k".to_string(),
        },
    );
    assert_eq!(reply.text, "Entry deleted successfully\n");
    assert_eq!(reply.snapshot, None);

    let reply = respond(&mut store, &Command::Quit);
    assert_eq!(reply.text, "Exiting ...");
    assert!(reply.quit);
    assert!(reply.snapshot.is_none());

    let reply = respond(
        &mut store,
        &Command::Other {
            name: "list".to_string(),
        },
    );
    assert_eq!(reply.text, "Method [list] Not implmeneted\n");
    assert!(!reply.quit);
}

#[test]
fn settled_text_names_a_failed_write_and_takes_the_change_back() {
    let mut store = fresh_store();
    let reply = respond(
        &mut store,
        &Command::Insert {
            key: "k".to_string(),
            value: "v".to_string(),
        },
    );
    assert_eq!(
        settled_text(&mut store, reply, false),
        "Error Failed to persist data.\n"
    );
    assert!(store.entries().is_empty());
}

#[test]
fn failure_lines() {
    assert_eq!(failure_line(StoreError::KeyExists), "Error Key already exists\n");
    assert_eq!(
        lookup_failure_line(StoreError::KeyNotFound),
        "Error: Key not found\n"
    );
}

#[test]
fn every_admitted_command_on_a_bound_store_succeeds() {
    let mut store = fresh_store();
    assert!(store.insert("", "").is_ok());
    assert!(store.insert("k", "").is_ok());
    assert!(store.insert("ключ", "значение").is_ok());
    assert!(store.update("k", "v").is_ok());
    assert!(store.update("", "").is_ok());
    assert!(store.persist_data().is_ok());
    assert!(matches!(store.delete("k"), Ok(Some(_))));
    assert!(matches!(store.delete(""), Ok(Some(_))));
}
