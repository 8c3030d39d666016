//! Namespaces, entries, folders and remote connections.

use crate::json::{Json, JsonView};
use crate::views::{option_view, views};
use vstd::prelude::*;

verus! {

/// One authenticated remote account.
#[derive(Debug)]
pub struct RemoteConnection {
    pub account_id: String,
    pub api_token: String,
}

/// Mathematical model of a [`RemoteConnection`].
pub struct ConnectionView {
    pub account_id: Seq<char>,
    pub api_token: Seq<char>,
}

impl View for RemoteConnection {
    type V = ConnectionView;

    open spec fn view(&self) -> ConnectionView {
        ConnectionView { account_id: self.account_id@, api_token: self.api_token@ }
    }
}

impl Clone for RemoteConnection {
    fn clone(&self) -> (copy: Self)
        ensures
            copy == *self,
    {
        RemoteConnection { account_id: self.account_id.clone(), api_token: self.api_token.clone() }
    }
}

/// One registered local folder.
#[derive(Debug)]
pub struct LocalFolder {
    pub id: i64,
    pub path: String,
    pub name: String,
}

/// Mathematical model of a [`LocalFolder`] and of a [`LocalFolderInfo`].
pub struct FolderView {
    pub id: i64,
    pub path: Seq<char>,
    pub name: Seq<char>,
}

impl View for LocalFolder {
    type V = FolderView;

    open spec fn view(&self) -> FolderView {
        FolderView { id: self.id, path: self.path@, name: self.name@ }
    }
}

impl Clone for LocalFolder {
    fn clone(&self) -> (copy: Self)
        ensures
            copy == *self,
    {
        LocalFolder { id: self.id, path: self.path.clone(), name: self.name.clone() }
    }
}

/// A registered local folder as it is shown to a caller.
#[derive(Debug)]
pub struct LocalFolderInfo {
    pub id: i64,
    pub path: String,
    pub name: String,
}

impl View for LocalFolderInfo {
    type V = FolderView;

    open spec fn view(&self) -> FolderView {
        FolderView { id: self.id, path: self.path@, name: self.name@ }
    }
}

impl Clone for LocalFolderInfo {
    fn clone(&self) -> (copy: Self)
        ensures
            copy == *self,
    {
        LocalFolderInfo { id: self.id, path: self.path.clone(), name: self.name.clone() }
    }
}

impl<'a> From<&'a LocalFolder> for LocalFolderInfo {
    fn from(folder: &'a LocalFolder) -> (info: LocalFolderInfo) {
        LocalFolderInfo { id: folder.id, path: folder.path.clone(), name: folder.name.clone() }
    }
}

impl<'a> vstd::std_specs::convert::FromSpecImpl<&'a LocalFolder> for LocalFolderInfo {
    open spec fn obeys_from_spec() -> bool {
        true
    }

    open spec fn from_spec(folder: &'a LocalFolder) -> LocalFolderInfo {
        LocalFolderInfo { id: folder.id, path: folder.path, name: folder.name }
    }
}

/// Which backend a namespace lives in.
#[derive(Debug, Clone, Copy, PartialEq, Eq, Structural)]
pub enum NamespaceKind {
    Local,
    Remote,
}

impl NamespaceKind {
    /// The word that names the backend: `local` or `remote`.
    pub open spec fn spec_label(self) -> Seq<char> {
        match self {
            NamespaceKind::Local => "local"@,
            NamespaceKind::Remote => "remote"@,
        }
    }

    /// The word that names the backend: `local` or `remote`.
    pub fn label(&self) -> (word: String)
        ensures
            word@ == self.spec_label(),
    {
        match self {
            NamespaceKind::Local => "local".to_owned(),
            NamespaceKind::Remote => "remote".to_owned(),
        }
    }
}

/// The backend word of a namespace that names none: `local`.
pub fn default_namespace_type() -> (word: String)
    ensures
        word@ == NamespaceKind::Local.spec_label(),
{
    NamespaceKind::Local.label()
}

/// One keyed value of a namespace.
#[derive(Debug, PartialEq, Eq)]
pub struct KVEntry {
    pub id: String,
    pub key: String,
    pub blob_id: String,
    /// Unix seconds after which the entry is gone.
    pub expiration: Option<i64>,
    /// Opaque JSON text.
    pub metadata: Option<String>,
    /// `None` when the value was not fetched or cannot be read as JSON.
    pub value: Option<Json>,
}

/// Mathematical model of a [`KVEntry`].
pub struct EntryView {
    pub id: Seq<char>,
    pub key: Seq<char>,
    pub blob_id: Seq<char>,
    pub expiration: Option<i64>,
    pub metadata: Option<Seq<char>>,
    pub value: Option<JsonView>,
}

impl View for KVEntry {
    type V = EntryView;

    open spec fn view(&self) -> EntryView {
        EntryView {
            id: self.id@,
            key: self.key@,
            blob_id: self.blob_id@,
            expiration: self.expiration,
            metadata: option_view(self.metadata),
            value: option_view(self.value),
        }
    }
}

/// A namespace with the entries that were read from it.
#[derive(Debug, PartialEq, Eq)]
pub struct KVNamespace {
    pub id: String,
    pub entries: Vec<KVEntry>,
    pub name: String,
    pub kind: NamespaceKind,
    pub account_id: Option<String>,
    pub folder_id: Option<i64>,
    pub count: Option<usize>,
}

/// Mathematical model of a [`KVNamespace`].
pub struct NamespaceView {
    pub id: Seq<char>,
    pub entries: Seq<EntryView>,
    pub name: Seq<char>,
    pub kind: NamespaceKind,
    pub account_id: Option<Seq<char>>,
    pub folder_id: Option<i64>,
    pub count: Option<usize>,
}

impl View for KVNamespace {
    type V = NamespaceView;

    open spec fn view(&self) -> NamespaceView {
        NamespaceView {
            id: self.id@,
            entries: views(self.entries@),
            name: self.name@,
            kind: self.kind,
            account_id: option_view(self.account_id),
            folder_id: self.folder_id,
            count: self.count,
        }
    }
}

impl NamespaceView {
    /// A local namespace belongs to a folder and to no account, a remote one
    /// to an account and to no folder.
    pub open spec fn well_formed(self) -> bool {
        match self.kind {
            NamespaceKind::Local => self.folder_id is Some && self.account_id is None,
            NamespaceKind::Remote => self.account_id is Some && self.folder_id is None,
        }
    }
}

} // verus!
