use kv_explorer::error::KvError;
use kv_explorer::json::{Json, JsonMember, JsonNumber};
use kv_explorer::local::catalog::{CatalogRow, DirEntry};
use kv_explorer::local::delete::{DeleteAction, DeleteBatch, DeleteEvent};
use kv_explorer::local::listing::{BlobFile, CatalogScan, FolderScan};
use kv_explorer::local::store::{copy_rows, remove_rows, LocalStore, StoredDir};
use kv_explorer::local::update::{
    plan_write, BlobWrite, UpdateAction, UpdateEntry, UpdateEvent,
};

fn row(key: &str, blob_id: &str) -> CatalogRow {
    CatalogRow { key: key.to_string(), blob_id: blob_id.to_string(), expiration: None, metadata: None }
}

fn blob(name: &str, content: &[u8]) -> BlobFile {
    BlobFile { name: name.to_string(), content: Some(content.to_vec()) }
}

fn store() -> LocalStore {
    LocalStore {
        dirs: Some(vec![
            StoredDir {
                entry: DirEntry { name: "abc123".to_string(), is_dir: true },
                blobs: vec![blob("blob1", b"\x01\x02\x03\x04{\"x\":1}"), blob("blob2", b"[2]")],
            },
            StoredDir {
                entry: DirEntry { name: "miniflare-KVNamespaceObject".to_string(), is_dir: true },
                blobs: vec![],
            },
            StoredDir {
                entry: DirEntry { name: "other".to_string(), is_dir: true },
                blobs: vec![blob("blob1", b"{\"other\":true}")],
            },
        ]),
        catalog: CatalogScan {
            files: vec!["db.sqlite".to_string()],
            rows: Some(vec![row("k1", "blob1"), row("k2", "blob2"), row("k3", "blob3")]),
        },
    }
}

fn object(name: &str, value: Json) -> Json {
    Json::Object(vec![JsonMember { name: name.to_string(), value }])
}

fn keys(names: &[&str]) -> Vec<String> {
    names.iter().map(|n| n.to_string()).collect()
}

fn blob_names(store: &LocalStore, dir: usize) -> Vec<String> {
    store.dirs.as_ref().unwrap()[dir].blobs.iter().map(|b| b.name.clone()).collect()
}

fn row_keys(store: &LocalStore) -> Vec<String> {
    store.catalog.rows.as_ref().unwrap().iter().map(|r| r.key.clone()).collect()
}

#[test]
fn store_lists_every_namespace_with_the_shared_catalog() {
    let namespaces = store().list_namespaces(1).unwrap();
    assert_eq!(namespaces.len(), 2);
    assert_eq!(namespaces[0].name, "ABC123");
    assert_eq!(namespaces[0].count, Some(3));
    assert_eq!(
        namespaces[0].entries[0].value,
        Some(object("x", Json::Number(JsonNumber::PosInt(1))))
    );
    assert_eq!(namespaces[0].entries[2].value, None);
    assert_eq!(namespaces[1].id, "folder-1-ns-other");
    assert_eq!(namespaces[1].entries[0].value, Some(object("other", Json::Bool(true))));
    assert_eq!(namespaces[1].entries[1].value, None);
}

#[test]
fn store_without_kv_directory() {
    let empty = LocalStore { dirs: None, catalog: CatalogScan { files: vec![], rows: None } };
    assert_eq!(empty.scan(), FolderScan::Missing);
    assert_eq!(empty.list_namespaces(1), Err(KvError::NotAKvRoot));
}

#[test]
fn update_then_list_shows_the_new_value() {
    let mut state = store();
    assert_eq!(
        state.update_entry("folder-1-ns-abc123", "k1", "{\"y\": [1, 2]}"),
        Ok(())
    );
    let namespaces = state.list_namespaces(1).unwrap();
    let entry = namespaces[0].entries.iter().find(|e| e.key == "k1").unwrap();
    assert_eq!(entry.value, Json::from_text("{\"y\": [1, 2]}"));
    assert_eq!(
        entry.value,
        Some(object(
            "y",
            Json::Array(vec![
                Json::Number(JsonNumber::PosInt(1)),
                Json::Number(JsonNumber::PosInt(2)),
            ])
        ))
    );
    assert_eq!(
        state.dirs.as_ref().unwrap()[0].blobs[0],
        blob("blob1", b"{\"y\": [1, 2]}")
    );
}

#[test]
fn update_changes_the_blob_and_nothing_else() {
    let mut state = store();
    assert_eq!(state.update_entry("abc123", "k2", "[]"), Ok(()));
    let mut expected = store();
    expected.dirs.as_mut().unwrap()[0].blobs[1] = blob("blob2", b"[]");
    assert_eq!(state, expected);
}

#[test]
fn update_with_text_that_is_not_json_changes_nothing() {
    let mut state = store();
    assert_eq!(
        state.update_entry("folder-1-ns-abc123", "k1", "{broken"),
        Err(KvError::InvalidJson)
    );
    assert_eq!(state, store());
}

#[test]
fn update_of_a_scalar_is_written_and_then_shown_without_value() {
    let mut state = store();
    assert_eq!(state.update_entry("folder-1-ns-abc123", "k1", "\"hello\""), Ok(()));
    let namespaces = state.list_namespaces(1).unwrap();
    assert_eq!(namespaces[0].entries[0].value, None);
}

#[test]
fn update_checks_in_order() {
    let mut state = store();
    assert_eq!(
        state.update_entry("folder-1-abc123", "k1", "{}"),
        Err(KvError::InvalidNamespaceId)
    );
    assert_eq!(
        state.update_entry("folder-1-ns-abc123", "nope", "{broken"),
        Err(KvError::KeyNotFound("nope".to_string()))
    );
    assert_eq!(
        state.update_entry("folder-1-ns-abc123", "k3", "{broken"),
        Err(KvError::BlobMissing)
    );
    assert_eq!(
        state.update_entry("folder-1-ns-nowhere", "k1", "{}"),
        Err(KvError::BlobMissing)
    );
    assert_eq!(state, store());

    let mut no_catalog = store();
    no_catalog.catalog.files = vec!["db.txt".to_string()];
    assert_eq!(
        no_catalog.update_entry("folder-1-ns-abc123", "k1", "{}"),
        Err(KvError::CatalogMissing)
    );
    let mut closed = store();
    closed.catalog.rows = None;
    assert_eq!(
        closed.update_entry("folder-1-ns-abc123", "k1", "{}"),
        Err(KvError::CatalogUnavailable)
    );
}

#[test]
fn write_is_planned_only_for_a_blob_that_is_there() {
    assert_eq!(
        plan_write("abc123", "blob1", true, "{\"x\":2}"),
        Ok(BlobWrite {
            path: vec!["abc123".to_string(), "blobs".to_string(), "blob1".to_string()],
            content: b"{\"x\":2}".to_vec(),
        })
    );
    assert_eq!(plan_write("abc123", "blob1", false, "{\"x\":2}"), Err(KvError::BlobMissing));
    assert_eq!(plan_write("abc123", "blob1", false, "nope"), Err(KvError::BlobMissing));
    assert_eq!(plan_write("abc123", "blob1", true, "nope"), Err(KvError::InvalidJson));
}

#[test]
fn delete_removes_rows_and_blobs() {
    let mut state = store();
    assert_eq!(state.delete_entries("folder-1-ns-abc123", keys(&["k2", "k3"])), Ok(()));
    assert_eq!(row_keys(&state), keys(&["k1"]));
    assert_eq!(blob_names(&state, 0), keys(&["blob1"]));
    assert_eq!(blob_names(&state, 2), keys(&["blob1"]));
}

#[test]
fn delete_with_a_missing_key_rolls_the_catalog_back() {
    let mut state = store();
    assert_eq!(
        state.delete_entries("folder-1-ns-abc123", keys(&["k1", "missing"])),
        Err(KvError::KeyNotFound("missing".to_string()))
    );
    assert_eq!(state.catalog, store().catalog);
    assert_eq!(row_keys(&state), keys(&["k1", "k2", "k3"]));
    assert_eq!(blob_names(&state, 0), keys(&["blob2"]));
}

#[test]
fn delete_of_a_key_twice_fails_at_the_second() {
    let mut state = store();
    assert_eq!(
        state.delete_entries("abc123", keys(&["k2", "k2"])),
        Err(KvError::KeyNotFound("k2".to_string()))
    );
    assert_eq!(state.catalog, store().catalog);
    assert_eq!(blob_names(&state, 0), keys(&["blob1"]));
}

#[test]
fn delete_of_no_keys_changes_nothing() {
    let mut state = store();
    assert_eq!(state.delete_entries("abc123", vec![]), Ok(()));
    assert_eq!(state, store());
}

#[test]
fn delete_fails_before_it_begins() {
    let mut state = store();
    assert_eq!(
        state.delete_entries("folder-x-ns-abc123", keys(&["k1"])),
        Err(KvError::InvalidNamespaceId)
    );
    state.catalog.files = vec![];
    assert_eq!(state.delete_entries("abc123", keys(&["k1"])), Err(KvError::CatalogMissing));
    let mut closed = store();
    closed.catalog.rows = None;
    assert_eq!(closed.delete_entries("abc123", keys(&["k1"])), Err(KvError::CatalogUnavailable));
}

#[test]
fn rows_are_copied_and_removed() {
    let rows = vec![row("a", "1"), row("b", "2"), row("a", "3"), row("c", "4")];
    assert_eq!(copy_rows(&rows), rows);
    assert_eq!(remove_rows(&rows, "a"), vec![row("b", "2"), row("c", "4")]);
    assert_eq!(remove_rows(&rows, "z"), rows);
}

#[test]
fn blob_file_is_removed_if_it_is_there() {
    let mut state = store();
    state.remove_blob_file("abc123", "blob1");
    assert_eq!(blob_names(&state, 0), keys(&["blob2"]));
    state.remove_blob_file("abc123", "blob1");
    state.remove_blob_file("nowhere", "blob2");
    assert_eq!(blob_names(&state, 0), keys(&["blob2"]));
    assert_eq!(state.locate_blob("other", "blob1"), Some((2, 0)));
    assert_eq!(state.locate_blob("other", "blob2"), None);
}

fn drive(batch: &mut DeleteBatch, events: Vec<DeleteEvent>) -> Vec<DeleteAction> {
    let mut actions = vec![batch.next_action()];
    for event in events {
        batch.record(event);
        actions.push(batch.next_action());
    }
    actions
}

fn path(blob_id: &str) -> Vec<String> {
    vec!["abc123".to_string(), "blobs".to_string(), blob_id.to_string()]
}

fn catalog_found() -> DeleteEvent {
    DeleteEvent::Files(keys(&["db.sqlite-wal", "db.sqlite", "other.sqlite"]))
}

fn begun() -> Vec<DeleteEvent> {
    vec![catalog_found(), DeleteEvent::Done, DeleteEvent::Done]
}

#[test]
fn batch_commits_after_every_key() {
    let mut batch = DeleteBatch::new("abc123".to_string(), keys(&["k1", "k2"]));
    let mut events = begun();
    events.extend(vec![
        DeleteEvent::Found("b1".to_string()),
        DeleteEvent::Done,
        DeleteEvent::Done,
        DeleteEvent::Found("b2".to_string()),
        DeleteEvent::Done,
        DeleteEvent::Done,
        DeleteEvent::Done,
    ]);
    let actions = drive(&mut batch, events);
    assert_eq!(
        actions,
        vec![
            DeleteAction::ListCatalog,
            DeleteAction::OpenCatalog { file: "db.sqlite".to_string() },
            DeleteAction::Begin,
            DeleteAction::FindBlob { key: "k1".to_string() },
            DeleteAction::DeleteRow { key: "k1".to_string() },
            DeleteAction::RemoveBlob { path: path("b1") },
            DeleteAction::FindBlob { key: "k2".to_string() },
            DeleteAction::DeleteRow { key: "k2".to_string() },
            DeleteAction::RemoveBlob { path: path("b2") },
            DeleteAction::Commit,
            DeleteAction::Finish(Ok(())),
        ]
    );
    assert!(batch.is_finished());
}

#[test]
fn batch_rolls_back_on_a_missing_key() {
    let mut batch = DeleteBatch::new("abc123".to_string(), keys(&["k1", "k2"]));
    let mut events = begun();
    events.extend(vec![
        DeleteEvent::Found("b1".to_string()),
        DeleteEvent::Done,
        DeleteEvent::Done,
        DeleteEvent::NotFound,
        DeleteEvent::Failed,
    ]);
    let actions = drive(&mut batch, events);
    assert_eq!(actions[7], DeleteAction::Rollback);
    assert_eq!(
        actions[8],
        DeleteAction::Finish(Err(KvError::KeyNotFound("k2".to_string())))
    );
    assert!(!actions.contains(&DeleteAction::Commit));
}

#[test]
fn batch_rolls_back_on_every_failure_inside_the_transaction() {
    let cases: Vec<(Vec<DeleteEvent>, KvError)> = vec![
        (vec![DeleteEvent::NotFound], KvError::KeyNotFound("k1".to_string())),
        (vec![DeleteEvent::Failed], KvError::CatalogUnavailable),
        (
            vec![DeleteEvent::Found("b".to_string()), DeleteEvent::Failed],
            KvError::RowDeleteFailed("k1".to_string()),
        ),
        (
            vec![DeleteEvent::Found("b".to_string()), DeleteEvent::Done, DeleteEvent::Failed],
            KvError::BlobDeleteFailed("k1".to_string()),
        ),
        (
            vec![
                DeleteEvent::Found("b".to_string()),
                DeleteEvent::Done,
                DeleteEvent::Done,
                DeleteEvent::Failed,
            ],
            KvError::CommitFailed,
        ),
    ];
    for (steps, failure) in cases {
        let mut batch = DeleteBatch::new("abc123".to_string(), keys(&["k1"]));
        let mut events = begun();
        events.extend(steps);
        let mut actions = drive(&mut batch, events);
        assert_eq!(actions.pop(), Some(DeleteAction::Rollback));
        batch.record(DeleteEvent::Done);
        assert_eq!(batch.next_action(), DeleteAction::Finish(Err(failure)));
    }
}

#[test]
fn batch_that_cannot_begin_ends_without_rollback() {
    let cases: Vec<(Vec<DeleteEvent>, KvError)> = vec![
        (vec![DeleteEvent::Files(keys(&["notes.txt"]))], KvError::CatalogMissing),
        (vec![DeleteEvent::Failed], KvError::CatalogMissing),
        (vec![catalog_found(), DeleteEvent::Failed], KvError::CatalogUnavailable),
        (
            vec![catalog_found(), DeleteEvent::Done, DeleteEvent::Failed],
            KvError::TransactionFailed,
        ),
    ];
    for (events, failure) in cases {
        let mut batch = DeleteBatch::new("abc123".to_string(), keys(&["k1"]));
        let actions = drive(&mut batch, events);
        assert!(!actions.contains(&DeleteAction::Rollback));
        assert_eq!(actions.last(), Some(&DeleteAction::Finish(Err(failure.clone()))));
        batch.record(DeleteEvent::Done);
        assert_eq!(batch.next_action(), DeleteAction::Finish(Err(failure)));
    }
}

#[test]
fn batch_without_keys_commits_at_once() {
    let mut batch = DeleteBatch::new("abc123".to_string(), vec![]);
    let mut events = begun();
    events.push(DeleteEvent::Done);
    let actions = drive(&mut batch, events);
    assert_eq!(
        actions[2..],
        [DeleteAction::Begin, DeleteAction::Commit, DeleteAction::Finish(Ok(()))]
    );
}

fn follow(update: &mut UpdateEntry, events: Vec<UpdateEvent>) -> Vec<UpdateAction> {
    let mut actions = vec![update.next_action()];
    for event in events {
        update.record(event);
        actions.push(update.next_action());
    }
    actions
}

fn new_update(value: &str) -> UpdateEntry {
    UpdateEntry::new("abc123".to_string(), "k1".to_string(), value.to_string())
}

fn names_found() -> UpdateEvent {
    UpdateEvent::Files(keys(&["x.txt", "db.sqlite"]))
}

#[test]
fn update_writes_after_every_check() {
    let mut update = new_update("{\"x\":2}");
    let actions = follow(
        &mut update,
        vec![
            names_found(),
            UpdateEvent::Found("blob1".to_string()),
            UpdateEvent::Present,
            UpdateEvent::Done,
        ],
    );
    assert_eq!(
        actions,
        vec![
            UpdateAction::ListCatalog,
            UpdateAction::FindBlob { file: "db.sqlite".to_string(), key: "k1".to_string() },
            UpdateAction::ProbeBlob { path: path("blob1") },
            UpdateAction::WriteBlob {
                write: BlobWrite { path: path("blob1"), content: b"{\"x\":2}".to_vec() },
            },
            UpdateAction::Finish(Ok(())),
        ]
    );
}

#[test]
fn update_stops_at_the_first_check_that_fails() {
    let found = || UpdateEvent::Found("blob1".to_string());
    let cases: Vec<(&str, Vec<UpdateEvent>, KvError)> = vec![
        ("{}", vec![UpdateEvent::Files(vec![])], KvError::CatalogMissing),
        ("{}", vec![UpdateEvent::Failed], KvError::CatalogMissing),
        ("{}", vec![names_found(), UpdateEvent::Failed], KvError::CatalogUnavailable),
        ("{}", vec![names_found(), UpdateEvent::NotFound], KvError::KeyNotFound("k1".to_string())),
        ("{}", vec![names_found(), found(), UpdateEvent::Absent], KvError::BlobMissing),
        ("{}", vec![names_found(), found(), UpdateEvent::Failed], KvError::BlobMissing),
        ("no", vec![names_found(), found(), UpdateEvent::Absent], KvError::BlobMissing),
        ("no", vec![names_found(), found(), UpdateEvent::Present], KvError::InvalidJson),
        (
            "{}",
            vec![names_found(), found(), UpdateEvent::Present, UpdateEvent::Failed],
            KvError::BlobWriteFailed,
        ),
    ];
    for (value, events, failure) in cases {
        let mut update = new_update(value);
        let actions = follow(&mut update, events);
        assert_eq!(actions.last(), Some(&UpdateAction::Finish(Err(failure.clone()))));
        let writes = actions.iter().filter(|a| matches!(a, UpdateAction::WriteBlob { .. })).count();
        assert_eq!(writes, if failure == KvError::BlobWriteFailed { 1 } else { 0 });
        update.record(UpdateEvent::Done);
        assert_eq!(update.next_action(), UpdateAction::Finish(Err(failure)));
    }
}
