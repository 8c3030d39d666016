use kv_explorer::error::KvError;
use kv_explorer::json::{Json, JsonMember, JsonNumber};
use kv_explorer::local::catalog::{
    blob_file_path, blob_id_for_key, blobs_dir_path, catalog_dir, find_catalog_file,
    kv_root_path, list_namespace_dirs, names_catalog, names_namespace, open_catalog,
    CatalogRow, DirEntry, KvListing, NamespaceDir,
};
use kv_explorer::local::listing::{
    build_entry, list_namespaces, read_blob_value, survey, BlobFile, CatalogScan, FolderScan,
    NamespaceScan, SkippedNamespace,
};
use kv_explorer::models::kv::{KVEntry, KVNamespace, NamespaceKind};

fn dir(name: &str) -> DirEntry {
    DirEntry { name: name.to_string(), is_dir: true }
}

fn file(name: &str) -> DirEntry {
    DirEntry { name: name.to_string(), is_dir: false }
}

fn row(key: &str, blob_id: &str) -> CatalogRow {
    CatalogRow { key: key.to_string(), blob_id: blob_id.to_string(), expiration: None, metadata: None }
}

fn blob(name: &str, content: &[u8]) -> BlobFile {
    BlobFile { name: name.to_string(), content: Some(content.to_vec()) }
}

fn catalog(rows: Vec<CatalogRow>) -> CatalogScan {
    CatalogScan { files: vec!["db.sqlite".to_string()], rows: Some(rows) }
}

fn x_is_one() -> Json {
    Json::Object(vec![JsonMember {
        name: "x".to_string(),
        value: Json::Number(JsonNumber::PosInt(1)),
    }])
}

fn prefixed_blob() -> Vec<u8> {
    let mut raw = vec![0x01u8, 0x02, 0x03, 0x04];
    raw.extend_from_slice(b"{\"x\":1}");
    raw
}

#[test]
fn state_lies_below_the_root() {
    assert_eq!(kv_root_path(), vec![".wrangler", "state", "v3", "kv"]);
    assert_eq!(catalog_dir(), "miniflare-KVNamespaceObject");
    assert_eq!(blobs_dir_path("abc123"), vec!["abc123", "blobs"]);
    assert_eq!(blob_file_path("abc123", "blob1"), vec!["abc123", "blobs", "blob1"]);
}

#[test]
fn namespace_is_a_directory_that_is_not_internal() {
    assert!(names_namespace(&dir("abc123")));
    assert!(names_namespace(&dir("miniflare")));
    assert!(names_namespace(&dir("x-miniflare-y")));
    assert!(!names_namespace(&dir("miniflare-KVNamespaceObject")));
    assert!(!names_namespace(&dir("miniflare-")));
    assert!(!names_namespace(&file("abc123")));
}

#[test]
fn catalog_file_ends_in_sqlite() {
    assert!(names_catalog("a.sqlite"));
    assert!(names_catalog("a.b.sqlite"));
    assert!(!names_catalog(".sqlite"));
    assert!(!names_catalog("a.sqlite-wal"));
    assert!(!names_catalog("a.sqlite3"));
    assert!(!names_catalog("sqlite"));
    assert!(!names_catalog("a.SQLITE"));
    assert!(!names_catalog(""));
}

#[test]
fn catalog_is_the_first_sqlite_file() {
    let names = vec![
        "x.sqlite-shm".to_string(),
        "first.sqlite".to_string(),
        "second.sqlite".to_string(),
    ];
    assert_eq!(find_catalog_file(&names), Some(1));
    assert_eq!(open_catalog(&names), Ok("first.sqlite".to_string()));
}

#[test]
fn catalog_is_missing_without_a_sqlite_file() {
    assert_eq!(find_catalog_file(&vec![]), None);
    assert_eq!(open_catalog(&vec!["notes.txt".to_string()]), Err(KvError::CatalogMissing));
}

#[test]
fn namespace_dirs_of_a_missing_root() {
    assert_eq!(list_namespace_dirs(&KvListing::Missing), Err(KvError::NotAKvRoot));
    assert_eq!(list_namespace_dirs(&KvListing::Unreadable), Err(KvError::KvRootUnreadable));
}

#[test]
fn namespace_dirs_are_listed_in_order() {
    let listing = KvListing::Entries(vec![
        dir("beta"),
        dir("miniflare-KVNamespaceObject"),
        file("README"),
        dir("alpha"),
    ]);
    assert_eq!(
        list_namespace_dirs(&listing),
        Ok(vec![
            NamespaceDir {
                raw_name: "beta".to_string(),
                blobs_dir: vec!["beta".to_string(), "blobs".to_string()],
            },
            NamespaceDir {
                raw_name: "alpha".to_string(),
                blobs_dir: vec!["alpha".to_string(), "blobs".to_string()],
            },
        ])
    );
}

#[test]
fn blob_id_is_that_of_the_first_row_for_the_key() {
    let rows = vec![row("k1", "b1"), row("k2", "b2"), row("k1", "b3")];
    assert_eq!(blob_id_for_key(&rows, "k1"), Ok("b1".to_string()));
    assert_eq!(blob_id_for_key(&rows, "k2"), Ok("b2".to_string()));
    assert_eq!(blob_id_for_key(&rows, "k3"), Err(KvError::KeyNotFound("k3".to_string())));
}

#[test]
fn blob_value_is_decoded() {
    let blobs = vec![
        blob("blob1", &prefixed_blob()),
        blob("blob2", b"no json here"),
        BlobFile { name: "blob3".to_string(), content: None },
    ];
    assert_eq!(read_blob_value(&blobs, "blob1"), Some(x_is_one()));
    assert_eq!(read_blob_value(&blobs, "blob2"), None);
    assert_eq!(read_blob_value(&blobs, "blob3"), None);
    assert_eq!(read_blob_value(&blobs, "blob4"), None);
}

#[test]
fn entry_is_built_from_its_row() {
    let entry = build_entry(
        "folder-1-ns-abc",
        &CatalogRow {
            key: "k1".to_string(),
            blob_id: "blob1".to_string(),
            expiration: Some(1700000000),
            metadata: Some("{\"m\":1}".to_string()),
        },
        &vec![blob("blob1", b"[]")],
    );
    assert_eq!(
        entry,
        KVEntry {
            id: "folder-1-ns-abc-blob1".to_string(),
            key: "k1".to_string(),
            blob_id: "blob1".to_string(),
            expiration: Some(1700000000),
            metadata: Some("{\"m\":1}".to_string()),
            value: Some(Json::Array(vec![])),
        }
    );
}

#[test]
fn root_without_kv_directory_is_refused() {
    assert_eq!(list_namespaces(1, &FolderScan::Missing), Err(KvError::NotAKvRoot));
    assert_eq!(survey(1, &FolderScan::Missing), Err(KvError::NotAKvRoot));
    assert_eq!(list_namespaces(1, &FolderScan::Unreadable), Err(KvError::KvRootUnreadable));
}

#[test]
fn one_namespace_with_one_prefixed_blob() {
    let scan = FolderScan::Found(vec![
        NamespaceScan {
            entry: dir("abc123"),
            catalog: catalog(vec![row("k1", "blob1")]),
            blobs: vec![blob("blob1", &prefixed_blob())],
        },
        NamespaceScan {
            entry: dir("miniflare-KVNamespaceObject"),
            catalog: catalog(vec![row("k1", "blob1")]),
            blobs: vec![],
        },
    ]);
    let namespaces = list_namespaces(3, &scan).unwrap();
    assert_eq!(
        namespaces,
        vec![KVNamespace {
            id: "folder-3-ns-abc123".to_string(),
            entries: vec![KVEntry {
                id: "folder-3-ns-abc123-blob1".to_string(),
                key: "k1".to_string(),
                blob_id: "blob1".to_string(),
                expiration: None,
                metadata: None,
                value: Some(x_is_one()),
            }],
            name: "ABC123".to_string(),
            kind: NamespaceKind::Local,
            account_id: None,
            folder_id: Some(3),
            count: Some(1),
        }]
    );
}

#[test]
fn namespace_without_catalog_is_left_out_and_others_stay() {
    let scan = FolderScan::Found(vec![
        NamespaceScan {
            entry: dir("first"),
            catalog: CatalogScan { files: vec!["notes.txt".to_string()], rows: None },
            blobs: vec![],
        },
        NamespaceScan {
            entry: dir("second"),
            catalog: catalog(vec![row("k", "b")]),
            blobs: vec![],
        },
        NamespaceScan {
            entry: dir("third"),
            catalog: CatalogScan { files: vec!["db.sqlite".to_string()], rows: None },
            blobs: vec![],
        },
        NamespaceScan { entry: file("fourth"), catalog: catalog(vec![]), blobs: vec![] },
    ]);
    let found = survey(9, &scan).unwrap();
    assert_eq!(found.namespaces.len(), 1);
    assert_eq!(found.namespaces[0].id, "folder-9-ns-second");
    assert_eq!(found.namespaces[0].name, "SECOND");
    assert_eq!(found.namespaces[0].count, Some(1));
    assert_eq!(found.namespaces[0].entries[0].value, None);
    assert_eq!(
        found.skipped,
        vec![
            SkippedNamespace { raw_name: "first".to_string(), reason: KvError::CatalogMissing },
            SkippedNamespace { raw_name: "third".to_string(), reason: KvError::CatalogUnavailable },
        ]
    );
    assert_eq!(list_namespaces(9, &scan), Ok(found.namespaces));
}

#[test]
fn listing_of_an_empty_kv_directory() {
    assert_eq!(list_namespaces(1, &FolderScan::Found(vec![])), Ok(vec![]));
}

#[test]
fn namespace_name_is_upper_case() {
    let scan = FolderScan::Found(vec![NamespaceScan {
        entry: dir("my_kv-stra\u{df}e"),
        catalog: catalog(vec![]),
        blobs: vec![],
    }]);
    let namespaces = list_namespaces(1, &scan).unwrap();
    assert_eq!(namespaces[0].name, "MY_KV-STRASSE");
    assert_eq!(namespaces[0].id, "folder-1-ns-my_kv-stra\u{df}e");
    assert_eq!(namespaces[0].count, Some(0));
}
