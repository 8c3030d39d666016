//! The errors of both backends and of the registry, as structured kinds
//! with a readable message each.

use crate::text::{decimal, push_decimal, push_str, string_of};
use crate::views::views;
use vstd::prelude::*;

verus! {

/// The five families that every error belongs to.
#[derive(Debug, Clone, Copy, PartialEq, Eq, Structural)]
pub enum ErrorKind {
    NotFound,
    InvalidInput,
    BackendUnavailable,
    RemoteFailure,
    PersistenceFailure,
}

/// What can go wrong in an operation on either backend or on the registry.
#[derive(Debug, PartialEq, Eq)]
pub enum KvError {
    /// The root holds no `kv` state directory.
    NotAKvRoot,
    /// The `kv` state directory is there and cannot be listed.
    KvRootUnreadable,
    /// No folder is registered under the id.
    FolderNotFound,
    /// No catalog database file was found.
    CatalogMissing,
    /// The catalog database cannot be opened or queried.
    CatalogUnavailable,
    /// The catalog has no row for the key.
    KeyNotFound(String),
    /// The catalog names a blob file that is not there.
    BlobMissing,
    /// The text offered as a value is not JSON.
    InvalidJson,
    /// A namespace id with the local marker and not of the local shape.
    InvalidNamespaceId,
    /// The blob file could not be written.
    BlobWriteFailed,
    /// The catalog row of the key could not be deleted.
    RowDeleteFailed(String),
    /// The blob file of the key could not be removed.
    BlobDeleteFailed(String),
    /// The catalog transaction could not be started.
    TransactionFailed,
    /// The catalog transaction could not be committed.
    CommitFailed,
    /// No remote connection is held for the account.
    ConnectionNotFound,
    /// The request never got an answer; the text says why.
    Transport(String),
    /// The token probe was answered with a status outside 2xx.
    AuthFailed(u16),
    /// A request was answered with a status outside 2xx.
    RequestFailed(u16),
    /// The answer is not the envelope that the provider promises.
    MalformedResponse,
    /// The provider's envelope reports failure; the text joins its errors.
    ApiError(String),
    /// The settings store refused a write; the text says why.
    PersistenceFailed(String),
}

/// Mathematical model of a [`KvError`].
pub enum KvErrorView {
    NotAKvRoot,
    KvRootUnreadable,
    FolderNotFound,
    CatalogMissing,
    CatalogUnavailable,
    KeyNotFound(Seq<char>),
    BlobMissing,
    InvalidJson,
    InvalidNamespaceId,
    BlobWriteFailed,
    RowDeleteFailed(Seq<char>),
    BlobDeleteFailed(Seq<char>),
    TransactionFailed,
    CommitFailed,
    ConnectionNotFound,
    Transport(Seq<char>),
    AuthFailed(u16),
    RequestFailed(u16),
    MalformedResponse,
    ApiError(Seq<char>),
    PersistenceFailed(Seq<char>),
}

impl View for KvError {
    type V = KvErrorView;

    open spec fn view(&self) -> KvErrorView {
        match *self {
            KvError::NotAKvRoot => KvErrorView::NotAKvRoot,
            KvError::KvRootUnreadable => KvErrorView::KvRootUnreadable,
            KvError::FolderNotFound => KvErrorView::FolderNotFound,
            KvError::CatalogMissing => KvErrorView::CatalogMissing,
            KvError::CatalogUnavailable => KvErrorView::CatalogUnavailable,
            KvError::KeyNotFound(key) => KvErrorView::KeyNotFound(key@),
            KvError::BlobMissing => KvErrorView::BlobMissing,
            KvError::InvalidJson => KvErrorView::InvalidJson,
            KvError::InvalidNamespaceId => KvErrorView::InvalidNamespaceId,
            KvError::BlobWriteFailed => KvErrorView::BlobWriteFailed,
            KvError::RowDeleteFailed(key) => KvErrorView::RowDeleteFailed(key@),
            KvError::BlobDeleteFailed(key) => KvErrorView::BlobDeleteFailed(key@),
            KvError::TransactionFailed => KvErrorView::TransactionFailed,
            KvError::CommitFailed => KvErrorView::CommitFailed,
            KvError::ConnectionNotFound => KvErrorView::ConnectionNotFound,
            KvError::Transport(why) => KvErrorView::Transport(why@),
            KvError::AuthFailed(status) => KvErrorView::AuthFailed(status),
            KvError::RequestFailed(status) => KvErrorView::RequestFailed(status),
            KvError::MalformedResponse => KvErrorView::MalformedResponse,
            KvError::ApiError(errors) => KvErrorView::ApiError(errors@),
            KvError::PersistenceFailed(why) => KvErrorView::PersistenceFailed(why@),
        }
    }
}

impl KvErrorView {
    /// The family of the error.
    pub open spec fn kind(self) -> ErrorKind {
        match self {
            KvErrorView::NotAKvRoot
            | KvErrorView::FolderNotFound
            | KvErrorView::CatalogMissing
            | KvErrorView::KeyNotFound(_)
            | KvErrorView::BlobMissing
            | KvErrorView::ConnectionNotFound => ErrorKind::NotFound,
            KvErrorView::InvalidJson | KvErrorView::InvalidNamespaceId => ErrorKind::InvalidInput,
            KvErrorView::KvRootUnreadable
            | KvErrorView::CatalogUnavailable
            | KvErrorView::BlobWriteFailed
            | KvErrorView::RowDeleteFailed(_)
            | KvErrorView::BlobDeleteFailed(_)
            | KvErrorView::TransactionFailed
            | KvErrorView::CommitFailed => ErrorKind::BackendUnavailable,
            KvErrorView::Transport(_)
            | KvErrorView::AuthFailed(_)
            | KvErrorView::RequestFailed(_)
            | KvErrorView::MalformedResponse
            | KvErrorView::ApiError(_) => ErrorKind::RemoteFailure,
            KvErrorView::PersistenceFailed(_) => ErrorKind::PersistenceFailure,
        }
    }

    /// The sentence that tells a person what went wrong.
    pub open spec fn message(self) -> Seq<char> {
        match self {
            KvErrorView::NotAKvRoot => "No Wrangler KV storage found at this location"@,
            KvErrorView::KvRootUnreadable => "Failed to read KV directory"@,
            KvErrorView::FolderNotFound => "Folder not found"@,
            KvErrorView::CatalogMissing => "SQLite database not found"@,
            KvErrorView::CatalogUnavailable => "Failed to open SQLite database"@,
            KvErrorView::KeyNotFound(key) => "Key not found: "@ + key,
            KvErrorView::BlobMissing => "Blob file not found"@,
            KvErrorView::InvalidJson => "Invalid JSON value"@,
            KvErrorView::InvalidNamespaceId => "Invalid namespace ID format"@,
            KvErrorView::BlobWriteFailed => "Failed to write to blob file"@,
            KvErrorView::RowDeleteFailed(key) => "Failed to delete key: "@ + key,
            KvErrorView::BlobDeleteFailed(key) => "Failed to delete blob file for key: "@ + key,
            KvErrorView::TransactionFailed => "Failed to start transaction"@,
            KvErrorView::CommitFailed => "Failed to commit transaction"@,
            KvErrorView::ConnectionNotFound => "Connection not found"@,
            KvErrorView::Transport(why) => "API request failed: "@ + why,
            KvErrorView::AuthFailed(status) => "API authentication failed with status: "@
                + decimal(status as nat),
            KvErrorView::RequestFailed(status) => "API request failed with status: "@ + decimal(
                status as nat,
            ),
            KvErrorView::MalformedResponse => "Failed to parse API response"@,
            KvErrorView::ApiError(errors) => "API request failed: "@ + errors,
            KvErrorView::PersistenceFailed(why) => "Failed to save to the settings store: "@ + why,
        }
    }
}

/// `head` followed by `tail`, as one string.
fn sentence(head: &str, tail: &str) -> (s: String)
    ensures
        s@ == head@ + tail@,
{
    let mut out: Vec<char> = Vec::new();
    push_str(&mut out, head);
    push_str(&mut out, tail);
    string_of(&out)
}

/// `head` followed by `status` in base ten, as one string.
fn sentence_with_status(head: &str, status: u16) -> (s: String)
    ensures
        s@ == head@ + decimal(status as nat),
{
    let mut out: Vec<char> = Vec::new();
    push_str(&mut out, head);
    push_decimal(&mut out, status as u64);
    string_of(&out)
}

impl KvError {
    /// The family of the error.
    pub fn kind(&self) -> (kind: ErrorKind)
        ensures
            kind == self@.kind(),
    {
        match self {
            KvError::NotAKvRoot
            | KvError::FolderNotFound
            | KvError::CatalogMissing
            | KvError::KeyNotFound(_)
            | KvError::BlobMissing
            | KvError::ConnectionNotFound => ErrorKind::NotFound,
            KvError::InvalidJson | KvError::InvalidNamespaceId => ErrorKind::InvalidInput,
            KvError::KvRootUnreadable
            | KvError::CatalogUnavailable
            | KvError::BlobWriteFailed
            | KvError::RowDeleteFailed(_)
            | KvError::BlobDeleteFailed(_)
            | KvError::TransactionFailed
            | KvError::CommitFailed => ErrorKind::BackendUnavailable,
            KvError::Transport(_)
            | KvError::AuthFailed(_)
            | KvError::RequestFailed(_)
            | KvError::MalformedResponse
            | KvError::ApiError(_) => ErrorKind::RemoteFailure,
            KvError::PersistenceFailed(_) => ErrorKind::PersistenceFailure,
        }
    }

    /// The sentence that tells a person what went wrong.
    pub fn message(&self) -> (text: String)
        ensures
            text@ == self@.message(),
    {
        match self {
            KvError::NotAKvRoot => "No Wrangler KV storage found at this location".to_owned(),
            KvError::KvRootUnreadable => "Failed to read KV directory".to_owned(),
            KvError::FolderNotFound => "Folder not found".to_owned(),
            KvError::CatalogMissing => "SQLite database not found".to_owned(),
            KvError::CatalogUnavailable => "Failed to open SQLite database".to_owned(),
            KvError::KeyNotFound(key) => sentence("Key not found: ", key.as_str()),
            KvError::BlobMissing => "Blob file not found".to_owned(),
            KvError::InvalidJson => "Invalid JSON value".to_owned(),
            KvError::InvalidNamespaceId => "Invalid namespace ID format".to_owned(),
            KvError::BlobWriteFailed => "Failed to write to blob file".to_owned(),
            KvError::RowDeleteFailed(key) => sentence("Failed to delete key: ", key.as_str()),
            KvError::BlobDeleteFailed(key) => sentence(
                "Failed to delete blob file for key: ",
                key.as_str(),
            ),
            KvError::TransactionFailed => "Failed to start transaction".to_owned(),
            KvError::CommitFailed => "Failed to commit transaction".to_owned(),
            KvError::ConnectionNotFound => "Connection not found".to_owned(),
            KvError::Transport(why) => sentence("API request failed: ", why.as_str()),
            KvError::AuthFailed(status) => sentence_with_status(
                "API authentication failed with status: ",
                *status,
            ),
            KvError::RequestFailed(status) => sentence_with_status(
                "API request failed with status: ",
                *status,
            ),
            KvError::MalformedResponse => "Failed to parse API response".to_owned(),
            KvError::ApiError(errors) => sentence("API request failed: ", errors.as_str()),
            KvError::PersistenceFailed(why) => sentence(
                "Failed to save to the settings store: ",
                why.as_str(),
            ),
        }
    }
}

impl Clone for KvError {
    fn clone(&self) -> (copy: Self)
        ensures
            copy@ == self@,
    {
        match self {
            KvError::NotAKvRoot => KvError::NotAKvRoot,
            KvError::KvRootUnreadable => KvError::KvRootUnreadable,
            KvError::FolderNotFound => KvError::FolderNotFound,
            KvError::CatalogMissing => KvError::CatalogMissing,
            KvError::CatalogUnavailable => KvError::CatalogUnavailable,
            KvError::KeyNotFound(key) => KvError::KeyNotFound(key.clone()),
            KvError::BlobMissing => KvError::BlobMissing,
            KvError::InvalidJson => KvError::InvalidJson,
            KvError::InvalidNamespaceId => KvError::InvalidNamespaceId,
            KvError::BlobWriteFailed => KvError::BlobWriteFailed,
            KvError::RowDeleteFailed(key) => KvError::RowDeleteFailed(key.clone()),
            KvError::BlobDeleteFailed(key) => KvError::BlobDeleteFailed(key.clone()),
            KvError::TransactionFailed => KvError::TransactionFailed,
            KvError::CommitFailed => KvError::CommitFailed,
            KvError::ConnectionNotFound => KvError::ConnectionNotFound,
            KvError::Transport(why) => KvError::Transport(why.clone()),
            KvError::AuthFailed(status) => KvError::AuthFailed(*status),
            KvError::RequestFailed(status) => KvError::RequestFailed(*status),
            KvError::MalformedResponse => KvError::MalformedResponse,
            KvError::ApiError(errors) => KvError::ApiError(errors.clone()),
            KvError::PersistenceFailed(why) => KvError::PersistenceFailed(why.clone()),
        }
    }
}


/// The view of what an operation gave: of its value or of its error.
pub open spec fn result_view<T: View>(outcome: Result<T, KvError>) -> Result<T::V, KvErrorView> {
    match outcome {
        Ok(value) => Ok(value@),
        Err(e) => Err(e@),
    }
}

/// The view of what an operation without a value gave.
pub open spec fn unit_result_view(outcome: Result<(), KvError>) -> Result<(), KvErrorView> {
    match outcome {
        Ok(_) => Ok(()),
        Err(e) => Err(e@),
    }
}

/// The view of what an operation that lists gave: the views of the items,
/// or that of the error.
pub open spec fn list_result_view<T: View>(outcome: Result<Vec<T>, KvError>) -> Result<
    Seq<T::V>,
    KvErrorView,
> {
    match outcome {
        Ok(items) => Ok(views(items@)),
        Err(e) => Err(e@),
    }
}

} // verus!
