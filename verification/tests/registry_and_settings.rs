use kv_explorer::error::KvError;
use kv_explorer::gateway::{route, Route};
use kv_explorer::models::kv::{LocalFolder, LocalFolderInfo, RemoteConnection};
use kv_explorer::registry::{
    extract_folder_name, folder_name_or_default, ConnectionRecord, FolderRecord, Registry,
};
use kv_explorer::settings::{current_marker, next_marker_step, MarkerStep, SCHEMA_VERSION};

fn shown(registry: &Registry) -> Vec<(i64, String, String)> {
    registry.list_folders().into_iter().map(|f| (f.id, f.path, f.name)).collect()
}

fn accounts(registry: &Registry) -> Vec<(String, String)> {
    registry.list_connections().into_iter().map(|c| (c.account_id, c.api_token)).collect()
}

fn triple(id: i64, path: &str, name: &str) -> (i64, String, String) {
    (id, path.to_string(), name.to_string())
}

#[test]
fn new_registry_knows_nothing() {
    let registry = Registry::new();
    assert!(registry.list_folders().is_empty());
    assert!(registry.list_connections().is_empty());
    assert_eq!(registry.folder(1).map(|f| f.id), Err(KvError::FolderNotFound));
    assert_eq!(
        registry.connection("a").map(|c| c.account_id),
        Err(KvError::ConnectionNotFound)
    );
}

#[test]
fn folder_is_added_and_found() {
    let mut registry = Registry::new();
    assert_eq!(registry.add_folder(Ok(1), "/tmp/proj", "proj", 100), Ok(1));
    assert_eq!(registry.add_folder(Ok(2), "/tmp/other", "other", 101), Ok(2));
    assert_eq!(shown(&registry), vec![triple(1, "/tmp/proj", "proj"), triple(2, "/tmp/other", "other")]);
    let folder = registry.folder(2).unwrap();
    assert_eq!((folder.id, folder.path.as_str(), folder.name.as_str()), (2, "/tmp/other", "other"));
}

#[test]
fn same_path_is_not_known_twice() {
    let mut registry = Registry::new();
    registry.add_folder(Ok(1), "/tmp/proj", "proj", 100).unwrap();
    registry.add_folder(Ok(2), "/tmp/other", "other", 101).unwrap();
    assert_eq!(registry.add_folder(Ok(1), "/tmp/proj", "proj", 200), Ok(1));
    assert_eq!(shown(&registry), vec![triple(2, "/tmp/other", "other"), triple(1, "/tmp/proj", "proj")]);
    assert_eq!(registry.add_folder(Ok(7), "/tmp/proj", "again", 300), Ok(7));
    assert_eq!(shown(&registry), vec![triple(2, "/tmp/other", "other"), triple(7, "/tmp/proj", "again")]);
    assert_eq!(registry.folder(1).map(|f| f.id), Err(KvError::FolderNotFound));
}

#[test]
fn same_id_is_not_known_twice() {
    let mut registry = Registry::new();
    registry.add_folder(Ok(1), "/a", "a", 1).unwrap();
    registry.add_folder(Ok(1), "/b", "b", 2).unwrap();
    assert_eq!(shown(&registry), vec![triple(1, "/b", "b")]);
}

#[test]
fn refused_save_adds_no_folder() {
    let mut registry = Registry::new();
    assert_eq!(
        registry.add_folder(Err("disk full".to_string()), "/tmp/proj", "proj", 100),
        Err(KvError::PersistenceFailed("disk full".to_string()))
    );
    assert!(registry.list_folders().is_empty());
}

#[test]
fn folder_is_removed_only_when_the_store_removed_it() {
    let mut registry = Registry::new();
    registry.add_folder(Ok(1), "/a", "a", 1).unwrap();
    registry.add_folder(Ok(2), "/b", "b", 2).unwrap();
    assert_eq!(
        registry.remove_folder(Err("locked".to_string()), 1),
        Err(KvError::PersistenceFailed("locked".to_string()))
    );
    assert_eq!(shown(&registry).len(), 2);
    assert_eq!(registry.remove_folder(Ok(()), 1), Ok(()));
    assert_eq!(shown(&registry), vec![triple(2, "/b", "b")]);
    assert_eq!(registry.remove_folder(Ok(()), 1), Ok(()));
    assert_eq!(shown(&registry), vec![triple(2, "/b", "b")]);
}

#[test]
fn touch_is_not_fatal() {
    let mut registry = Registry::new();
    registry.add_folder(Ok(1), "/a", "a", 1).unwrap();
    registry.add_connection(Ok(()), "acct", "token", 1).unwrap();
    assert_eq!(registry.touch_folder(Ok(()), 1, 50), None);
    assert_eq!(registry.touch_folder(Ok(()), 9, 50), None);
    assert_eq!(
        registry.touch_folder(Err("busy".to_string()), 1, 60),
        Some(KvError::PersistenceFailed("busy".to_string()))
    );
    assert_eq!(registry.touch_connection(Ok(()), "acct", 50), None);
    assert_eq!(
        registry.touch_connection(Err("busy".to_string()), "acct", 60),
        Some(KvError::PersistenceFailed("busy".to_string()))
    );
    assert_eq!(shown(&registry), vec![triple(1, "/a", "a")]);
    assert_eq!(accounts(&registry), vec![("acct".to_string(), "token".to_string())]);
}

#[test]
fn connection_is_added_once_per_account() {
    let mut registry = Registry::new();
    assert_eq!(registry.add_connection(Ok(()), "acct1", "t1", 1), Ok(()));
    assert_eq!(registry.add_connection(Ok(()), "acct2", "t2", 2), Ok(()));
    assert_eq!(registry.add_connection(Ok(()), "acct1", "t3", 3), Ok(()));
    assert_eq!(
        accounts(&registry),
        vec![("acct1".to_string(), "t3".to_string()), ("acct2".to_string(), "t2".to_string())]
    );
    let found = registry.connection("acct1").unwrap();
    assert_eq!(found.api_token, "t3");
}

#[test]
fn refused_save_adds_no_connection() {
    let mut registry = Registry::new();
    assert_eq!(
        registry.add_connection(Err("no".to_string()), "acct1", "t1", 1),
        Err(KvError::PersistenceFailed("no".to_string()))
    );
    assert!(registry.list_connections().is_empty());
}

#[test]
fn disconnect_forgets_every_connection() {
    let mut registry = Registry::new();
    registry.add_folder(Ok(1), "/a", "a", 1).unwrap();
    registry.add_connection(Ok(()), "acct1", "t1", 1).unwrap();
    registry.add_connection(Ok(()), "acct2", "t2", 2).unwrap();
    assert_eq!(
        registry.disconnect_all(Err("no".to_string())),
        Err(KvError::PersistenceFailed("no".to_string()))
    );
    assert_eq!(registry.list_connections().len(), 2);
    assert_eq!(registry.disconnect_all(Ok(())), Ok(()));
    assert!(registry.list_connections().is_empty());
    assert_eq!(shown(&registry), vec![triple(1, "/a", "a")]);
}

#[test]
fn registry_is_loaded_from_the_stored_records() {
    let folder = |id: i64, path: &str, name: &str| FolderRecord {
        folder: LocalFolder { id, path: path.to_string(), name: name.to_string() },
        last_used: 5,
    };
    let connection = |account: &str, token: &str| ConnectionRecord {
        connection: RemoteConnection {
            account_id: account.to_string(),
            api_token: token.to_string(),
        },
        last_used: 6,
    };
    let registry = Registry::load(
        vec![folder(1, "/a", "a"), folder(2, "/b", "b"), folder(3, "/a", "a2")],
        vec![connection("x", "1"), connection("y", "2"), connection("x", "3")],
    );
    assert_eq!(shown(&registry), vec![triple(2, "/b", "b"), triple(3, "/a", "a2")]);
    assert_eq!(
        accounts(&registry),
        vec![("x".to_string(), "3".to_string()), ("y".to_string(), "2".to_string())]
    );
}

#[test]
fn folder_info_is_made_from_a_folder() {
    let folder = LocalFolder { id: 4, path: "/p".to_string(), name: "n".to_string() };
    let info = LocalFolderInfo::from(&folder);
    assert_eq!((info.id, info.path.as_str(), info.name.as_str()), (4, "/p", "n"));
    let copy = folder.clone();
    assert_eq!((copy.id, copy.path, copy.name), (4, "/p".to_string(), "n".to_string()));
}

#[test]
fn folder_name_is_the_final_component() {
    assert_eq!(extract_folder_name("/tmp/proj"), "proj");
    assert_eq!(extract_folder_name("proj"), "proj");
    assert_eq!(extract_folder_name("/tmp/.."), "Unknown Folder");
    assert_eq!(extract_folder_name(""), "Unknown Folder");
    assert_eq!(folder_name_or_default(Some("x".to_string())), "x");
    assert_eq!(folder_name_or_default(None), "Unknown Folder");
}

#[test]
fn marker_is_inserted_updated_or_kept() {
    assert_eq!(SCHEMA_VERSION, 1);
    assert_eq!(current_marker(), "1");
    assert_eq!(next_marker_step(None), MarkerStep::Insert);
    for kept in ["1", "2", "+1", "001", "2147483647"] {
        assert_eq!(next_marker_step(Some(kept)), MarkerStep::Keep, "{}", kept);
    }
    for updated in ["0", "", "+", "-1", "abc", "1.0", " 1", "2147483648", "99999999999999999999999"] {
        assert_eq!(next_marker_step(Some(updated)), MarkerStep::Update, "{}", updated);
    }
}

#[test]
fn route_leads_to_the_folder_or_to_the_connection() {
    let mut registry = Registry::new();
    registry.add_folder(Ok(4), "/tmp/proj", "proj", 1).unwrap();
    registry.add_connection(Ok(()), "acct", "token", 1).unwrap();

    match route(&registry, "folder-4-ns-my-kv", "acct") {
        Ok(Route::Local { folder, raw_name }) => {
            assert_eq!((folder.id, folder.path.as_str()), (4, "/tmp/proj"));
            assert_eq!(raw_name, "my-kv");
        }
        other => panic!("{:?}", other),
    }
    match route(&registry, "0f2ac74b", "acct") {
        Ok(Route::Remote { connection, namespace_id }) => {
            assert_eq!(connection.api_token, "token");
            assert_eq!(namespace_id, "0f2ac74b");
        }
        other => panic!("{:?}", other),
    }
    assert_eq!(route(&registry, "folder-5-ns-x", "acct").err(), Some(KvError::FolderNotFound));
    assert_eq!(route(&registry, "folder-x", "acct").err(), Some(KvError::InvalidNamespaceId));
    assert_eq!(route(&registry, "0f2ac74b", "nobody").err(), Some(KvError::ConnectionNotFound));
}
