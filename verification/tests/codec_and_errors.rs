use kv_explorer::codec::{decode, encode, find_json_start};
use kv_explorer::error::{ErrorKind, KvError};
use kv_explorer::json::{Json, JsonMember, JsonNumber};

fn x_is_one() -> Json {
    Json::Object(vec![JsonMember {
        name: "x".to_string(),
        value: Json::Number(JsonNumber::PosInt(1)),
    }])
}

#[test]
fn decode_skips_a_prefix_that_is_not_json() {
    let mut raw = vec![0x00u8, 0xff, 0x01, 0x80];
    raw.extend_from_slice(b"{\"x\":1}");
    assert_eq!(find_json_start(&raw), Some(4));
    assert_eq!(decode(&raw), Some(x_is_one()));
}

#[test]
fn decode_reads_arrays_too() {
    assert_eq!(
        decode(b"v1;[true]"),
        Some(Json::Array(vec![Json::Bool(true)]))
    );
}

#[test]
fn decode_without_opener_is_none() {
    assert_eq!(find_json_start(b"\"hello\""), None);
    assert_eq!(decode(b"\"hello\""), None);
    assert_eq!(decode(b"42"), None);
    assert_eq!(decode(b""), None);
}

#[test]
fn decode_of_broken_json_is_none() {
    assert_eq!(decode(b"xx{\"x\":"), None);
    assert_eq!(decode(b"{\"x\":1} trailing"), None);
    assert_eq!(decode(b"[ {\"x\":1}"), None);
}

#[test]
fn decode_starts_at_the_first_opener() {
    assert_eq!(find_json_start(b"a[b{c"), Some(1));
    assert_eq!(decode(b"a[b{c"), None);
    assert_eq!(decode(b"\"{}\""), None);
}

#[test]
fn encode_keeps_valid_text_as_it_is() {
    assert_eq!(encode(" {\"x\": 1}\n"), Ok(b" {\"x\": 1}\n".to_vec()));
    assert_eq!(encode("\"s\""), Ok(b"\"s\"".to_vec()));
}

#[test]
fn encode_refuses_text_that_is_not_json() {
    assert_eq!(encode("not json"), Err(KvError::InvalidJson));
    assert_eq!(encode(""), Err(KvError::InvalidJson));
    assert_eq!(encode("{\"x\":}"), Err(KvError::InvalidJson));
}

#[test]
fn every_error_has_its_kind() {
    let cases = vec![
        (KvError::NotAKvRoot, ErrorKind::NotFound),
        (KvError::FolderNotFound, ErrorKind::NotFound),
        (KvError::CatalogMissing, ErrorKind::NotFound),
        (KvError::KeyNotFound("k".to_string()), ErrorKind::NotFound),
        (KvError::BlobMissing, ErrorKind::NotFound),
        (KvError::ConnectionNotFound, ErrorKind::NotFound),
        (KvError::InvalidJson, ErrorKind::InvalidInput),
        (KvError::InvalidNamespaceId, ErrorKind::InvalidInput),
        (KvError::KvRootUnreadable, ErrorKind::BackendUnavailable),
        (KvError::CatalogUnavailable, ErrorKind::BackendUnavailable),
        (KvError::BlobWriteFailed, ErrorKind::BackendUnavailable),
        (KvError::RowDeleteFailed("k".to_string()), ErrorKind::BackendUnavailable),
        (KvError::BlobDeleteFailed("k".to_string()), ErrorKind::BackendUnavailable),
        (KvError::TransactionFailed, ErrorKind::BackendUnavailable),
        (KvError::CommitFailed, ErrorKind::BackendUnavailable),
        (KvError::Transport("t".to_string()), ErrorKind::RemoteFailure),
        (KvError::AuthFailed(401), ErrorKind::RemoteFailure),
        (KvError::RequestFailed(500), ErrorKind::RemoteFailure),
        (KvError::MalformedResponse, ErrorKind::RemoteFailure),
        (KvError::ApiError("e".to_string()), ErrorKind::RemoteFailure),
        (KvError::PersistenceFailed("p".to_string()), ErrorKind::PersistenceFailure),
    ];
    for (error, kind) in cases {
        assert_eq!(error.kind(), kind, "{:?}", error);
    }
}

#[test]
fn every_error_has_its_message() {
    let cases = vec![
        (KvError::NotAKvRoot, "No Wrangler KV storage found at this location"),
        (KvError::KvRootUnreadable, "Failed to read KV directory"),
        (KvError::FolderNotFound, "Folder not found"),
        (KvError::CatalogMissing, "SQLite database not found"),
        (KvError::CatalogUnavailable, "Failed to open SQLite database"),
        (KvError::KeyNotFound("k2".to_string()), "Key not found: k2"),
        (KvError::BlobMissing, "Blob file not found"),
        (KvError::InvalidJson, "Invalid JSON value"),
        (KvError::InvalidNamespaceId, "Invalid namespace ID format"),
        (KvError::BlobWriteFailed, "Failed to write to blob file"),
        (KvError::RowDeleteFailed("a".to_string()), "Failed to delete key: a"),
        (KvError::BlobDeleteFailed("b".to_string()), "Failed to delete blob file for key: b"),
        (KvError::TransactionFailed, "Failed to start transaction"),
        (KvError::CommitFailed, "Failed to commit transaction"),
        (KvError::ConnectionNotFound, "Connection not found"),
        (KvError::Transport("timed out".to_string()), "API request failed: timed out"),
        (KvError::AuthFailed(403), "API authentication failed with status: 403"),
        (KvError::RequestFailed(404), "API request failed with status: 404"),
        (KvError::MalformedResponse, "Failed to parse API response"),
        (KvError::ApiError("10000: bad".to_string()), "API request failed: 10000: bad"),
        (
            KvError::PersistenceFailed("disk full".to_string()),
            "Failed to save to the settings store: disk full",
        ),
    ];
    for (error, message) in cases {
        assert_eq!(error.message(), message);
        assert_eq!(error.clone(), error);
    }
}
