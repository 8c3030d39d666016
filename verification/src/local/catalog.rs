//! Where the emulator keeps its state below a root, which directories are
//! namespaces, which file is the catalog, and what the catalog says of a
//! key.

use crate::error::{list_result_view, result_view, KvError, KvErrorView};
use crate::text::{chars_of, starts_with, str_eq};
use crate::views::{lemma_views_push, views};
use vstd::prelude::*;

verus! {

/// One entry of a directory that could be read.
#[derive(Debug, PartialEq, Eq)]
pub struct DirEntry {
    pub name: String,
    pub is_dir: bool,
}

/// Mathematical model of a [`DirEntry`].
pub struct DirEntryView {
    pub name: Seq<char>,
    pub is_dir: bool,
}

impl View for DirEntry {
    type V = DirEntryView;

    open spec fn view(&self) -> DirEntryView {
        DirEntryView { name: self.name@, is_dir: self.is_dir }
    }
}

/// One row of the catalog table `_mf_entries`.
#[derive(Debug, PartialEq, Eq)]
pub struct CatalogRow {
    pub key: String,
    pub blob_id: String,
    pub expiration: Option<i64>,
    pub metadata: Option<String>,
}

/// Mathematical model of a [`CatalogRow`].
pub struct RowView {
    pub key: Seq<char>,
    pub blob_id: Seq<char>,
    pub expiration: Option<i64>,
    pub metadata: Option<Seq<char>>,
}

impl View for CatalogRow {
    type V = RowView;

    open spec fn view(&self) -> RowView {
        RowView {
            key: self.key@,
            blob_id: self.blob_id@,
            expiration: self.expiration,
            metadata: match self.metadata {
                Some(metadata) => Some(metadata@),
                None => None,
            },
        }
    }
}

impl Clone for CatalogRow {
    fn clone(&self) -> (copy: Self)
        ensures
            copy == *self,
    {
        CatalogRow {
            key: self.key.clone(),
            blob_id: self.blob_id.clone(),
            expiration: self.expiration,
            metadata: match &self.metadata {
                Some(metadata) => Some(metadata.clone()),
                None => None,
            },
        }
    }
}

/// What a look at the `kv` directory below a root found.
#[derive(Debug, PartialEq, Eq)]
pub enum KvListing {
    /// There is no such directory.
    Missing,
    /// The directory is there and cannot be listed.
    Unreadable,
    /// The entries of the directory that could be read, in directory order.
    Entries(Vec<DirEntry>),
}

/// A namespace directory and where its blob files lie below the `kv`
/// directory.
#[derive(Debug, PartialEq, Eq)]
pub struct NamespaceDir {
    pub raw_name: String,
    pub blobs_dir: Vec<String>,
}

/// Mathematical model of a [`NamespaceDir`].
pub struct NamespaceDirView {
    pub raw_name: Seq<char>,
    pub blobs_dir: Seq<Seq<char>>,
}

impl View for NamespaceDir {
    type V = NamespaceDirView;

    open spec fn view(&self) -> NamespaceDirView {
        NamespaceDirView { raw_name: self.raw_name@, blobs_dir: views(self.blobs_dir@) }
    }
}

/// The directories that lead from a root to the `kv` directory.
pub open spec fn kv_root_steps() -> Seq<Seq<char>> {
    seq![".wrangler"@, "state"@, "v3"@, "kv"@]
}

/// The name of the directory below `kv` that holds the catalog database.
pub open spec fn catalog_dir_name() -> Seq<char> {
    "miniflare-KVNamespaceObject"@
}

/// What opens the name of every directory that the emulator keeps for
/// itself.
pub open spec fn internal_prefix() -> Seq<char> {
    "miniflare-"@
}

/// What ends the name of a catalog database file.
pub open spec fn catalog_suffix() -> Seq<char> {
    ".sqlite"@
}

/// The directories that lead from the `kv` directory to the blob files of
/// the namespace `raw_name`.
pub open spec fn blobs_dir_steps(raw_name: Seq<char>) -> Seq<Seq<char>> {
    seq![raw_name, "blobs"@]
}

/// The steps that lead from the `kv` directory to the blob file `blob_id`
/// of the namespace `raw_name`.
pub open spec fn blob_file_steps(raw_name: Seq<char>, blob_id: Seq<char>) -> Seq<Seq<char>> {
    seq![raw_name, "blobs"@, blob_id]
}

/// Whether `entry` is a namespace: a directory that the emulator does not
/// keep for itself.
pub open spec fn is_namespace_dir(entry: DirEntryView) -> bool {
    entry.is_dir && !internal_prefix().is_prefix_of(entry.name)
}

/// Whether `name` is the name of a catalog database file: it ends in
/// `.sqlite`, after one character or more.
pub open spec fn is_catalog_name(name: Seq<char>) -> bool {
    name.len() > catalog_suffix().len() && name.skip(name.len() - catalog_suffix().len())
        == catalog_suffix()
}

/// Whether the catalog database is the file at `position` of `names`: the
/// first of them that is named as one.
pub open spec fn is_catalog_at(names: Seq<Seq<char>>, position: int) -> bool {
    &&& 0 <= position < names.len()
    &&& is_catalog_name(names[position])
    &&& forall|i: int| 0 <= i < position ==> !is_catalog_name(#[trigger] names[i])
}

/// Whether one of `names` is the name of a catalog database file.
pub open spec fn has_catalog(names: Seq<Seq<char>>) -> bool {
    exists|i: int| 0 <= i < names.len() && is_catalog_name(#[trigger] names[i])
}

/// Where among `names` the catalog database stands.
pub open spec fn catalog_position(names: Seq<Seq<char>>) -> int {
    choose|position: int| is_catalog_at(names, position)
}

/// There is one catalog database among the names at most.
pub proof fn lemma_catalog_position(names: Seq<Seq<char>>, position: int)
    requires
        is_catalog_at(names, position),
    ensures
        has_catalog(names),
        catalog_position(names) == position,
{
    let chosen = catalog_position(names);
    assert(is_catalog_at(names, chosen));
    if chosen < position {
        assert(!is_catalog_name(names[chosen]));
    }
    if position < chosen {
        assert(!is_catalog_name(names[position]));
    }
}

/// The namespace directories among `entries`, in their order.
pub open spec fn namespace_dirs(entries: Seq<DirEntryView>) -> Seq<NamespaceDirView>
    decreases entries.len(),
{
    if entries.len() == 0 {
        Seq::empty()
    } else if is_namespace_dir(entries.last()) {
        namespace_dirs(entries.drop_last()).push(
            NamespaceDirView {
                raw_name: entries.last().name,
                blobs_dir: blobs_dir_steps(entries.last().name),
            },
        )
    } else {
        namespace_dirs(entries.drop_last())
    }
}

/// The blob id of the first of `rows` that is for `key`.
pub open spec fn blob_id_of(rows: Seq<RowView>, key: Seq<char>) -> Option<Seq<char>>
    decreases rows.len(),
{
    if rows.len() == 0 {
        None
    } else if rows[0].key == key {
        Some(rows[0].blob_id)
    } else {
        blob_id_of(rows.drop_first(), key)
    }
}

/// Whether one of `rows` is for `key`.
pub open spec fn has_key(rows: Seq<RowView>, key: Seq<char>) -> bool {
    exists|i: int| 0 <= i < rows.len() && (#[trigger] rows[i]).key == key
}

/// A key has a blob id exactly when a row is for it.
pub proof fn lemma_blob_id_iff_has_key(rows: Seq<RowView>, key: Seq<char>)
    ensures
        blob_id_of(rows, key) is Some <==> has_key(rows, key),
    decreases rows.len(),
{
    if rows.len() > 0 {
        let rest = rows.drop_first();
        lemma_blob_id_iff_has_key(rest, key);
        if rows[0].key != key {
            if has_key(rest, key) {
                let i = choose|i: int| 0 <= i < rest.len() && (#[trigger] rest[i]).key == key;
                assert(rows[i + 1].key == key);
            }
            if has_key(rows, key) {
                let i = choose|i: int| 0 <= i < rows.len() && (#[trigger] rows[i]).key == key;
                assert(rest[i - 1].key == key);
            }
        } else {
            assert(rows[0].key == key);
        }
    }
}

/// The string that `text` holds.
fn step(text: &str) -> (owned: String)
    ensures
        owned@ == text@,
{
    text.to_owned()
}

/// The directories that lead from a root to the `kv` directory.
pub fn kv_root_path() -> (steps: Vec<String>)
    ensures
        views(steps@) == kv_root_steps(),
{
    let mut steps: Vec<String> = Vec::new();
    steps.push(step(".wrangler"));
    steps.push(step("state"));
    steps.push(step("v3"));
    steps.push(step("kv"));
    assert(views(steps@) =~= kv_root_steps());
    steps
}

/// The name of the directory below `kv` that holds the catalog database.
pub fn catalog_dir() -> (name: String)
    ensures
        name@ == catalog_dir_name(),
{
    step("miniflare-KVNamespaceObject")
}

/// The directories that lead from the `kv` directory to the blob files of
/// the namespace `raw_name`.
pub fn blobs_dir_path(raw_name: &str) -> (steps: Vec<String>)
    ensures
        views(steps@) == blobs_dir_steps(raw_name@),
{
    let mut steps: Vec<String> = Vec::new();
    steps.push(step(raw_name));
    steps.push(step("blobs"));
    assert(views(steps@) =~= blobs_dir_steps(raw_name@));
    steps
}

/// The steps that lead from the `kv` directory to the blob file `blob_id`
/// of the namespace `raw_name`.
pub fn blob_file_path(raw_name: &str, blob_id: &str) -> (steps: Vec<String>)
    ensures
        views(steps@) == blob_file_steps(raw_name@, blob_id@),
{
    let mut steps: Vec<String> = Vec::new();
    steps.push(step(raw_name));
    steps.push(step("blobs"));
    steps.push(step(blob_id));
    assert(views(steps@) =~= blob_file_steps(raw_name@, blob_id@));
    steps
}

/// Whether `entry` is a namespace.
pub fn names_namespace(entry: &DirEntry) -> (yes: bool)
    ensures
        yes == is_namespace_dir(entry@),
{
    if !entry.is_dir {
        return false;
    }
    let name = chars_of(entry.name.as_str());
    let prefix = chars_of("miniflare-");
    !starts_with(&name, &prefix)
}

/// Whether `name` is the name of a catalog database file.
pub fn names_catalog(name: &str) -> (yes: bool)
    ensures
        yes == is_catalog_name(name@),
{
    proof {
        reveal_strlit(".sqlite");
    }
    let chars = chars_of(name);
    let suffix = chars_of(".sqlite");
    if chars.len() <= suffix.len() {
        return false;
    }
    let from = chars.len() - suffix.len();
    let mut i: usize = 0;
    while i < suffix.len()
        invariant
            i <= suffix.len(),
            from + suffix.len() == chars.len(),
            chars@ == name@,
            suffix@ == catalog_suffix(),
            forall|j: int| 0 <= j < i ==> chars@[from + j] == suffix@[j],
        decreases suffix.len() - i,
    {
        if chars[from + i] != suffix[i] {
            assert(chars@.skip(from as int)[i as int] != suffix@[i as int]);
            return false;
        }
        i += 1;
    }
    assert(chars@.skip(from as int) =~= suffix@);
    true
}

/// Where among `names`, the names found in the catalog directory in
/// directory order, the catalog database is: the first that is named as one.
pub fn find_catalog_file(names: &Vec<String>) -> (found: Option<usize>)
    ensures
        match found {
            Some(position) => is_catalog_at(views(names@), position as int),
            None => !has_catalog(views(names@)),
        },
{
    let mut i: usize = 0;
    while i < names.len()
        invariant
            i <= names.len(),
            forall|j: int| 0 <= j < i ==> !is_catalog_name(#[trigger] views(names@)[j]),
        decreases names.len() - i,
    {
        if names_catalog(names[i].as_str()) {
            assert(views(names@)[i as int] == names@[i as int]@);
            return Some(i);
        }
        assert(views(names@)[i as int] == names@[i as int]@);
        i += 1;
    }
    None
}

/// The name of the catalog database file among `names`. There is no
/// catalog where none of them is named as one.
pub fn open_catalog(names: &Vec<String>) -> (file: Result<String, KvError>)
    ensures
        match file {
            Ok(name) => exists|position: int|
                is_catalog_at(views(names@), position) && views(names@)[position] == name@,
            Err(e) => !has_catalog(views(names@)) && e@ == KvErrorView::CatalogMissing,
        },
{
    match find_catalog_file(names) {
        Some(position) => {
            assert(views(names@)[position as int] == names@[position as int]@);
            Ok(names[position].clone())
        },
        None => Err(KvError::CatalogMissing),
    }
}

/// The namespace directories below the `kv` directory. A root without a
/// `kv` directory is no root of the emulator's state.
pub fn list_namespace_dirs(listing: &KvListing) -> (dirs: Result<Vec<NamespaceDir>, KvError>)
    ensures
        list_result_view(dirs) == match *listing {
            KvListing::Missing => Err::<Seq<NamespaceDirView>, KvErrorView>(
                KvErrorView::NotAKvRoot,
            ),
            KvListing::Unreadable => Err::<Seq<NamespaceDirView>, KvErrorView>(
                KvErrorView::KvRootUnreadable,
            ),
            KvListing::Entries(entries) => Ok::<Seq<NamespaceDirView>, KvErrorView>(
                namespace_dirs(views(entries@)),
            ),
        },
{
    match listing {
        KvListing::Missing => Err(KvError::NotAKvRoot),
        KvListing::Unreadable => Err(KvError::KvRootUnreadable),
        KvListing::Entries(entries) => {
            let mut dirs: Vec<NamespaceDir> = Vec::new();
            let mut i: usize = 0;
            assert(views(entries@).take(0) =~= Seq::<DirEntryView>::empty());
            assert(views(dirs@) =~= namespace_dirs(views(entries@).take(0)));
            while i < entries.len()
                invariant
                    i <= entries.len(),
                    views(dirs@) == namespace_dirs(views(entries@).take(i as int)),
                decreases entries.len() - i,
            {
                proof {
                    let front = views(entries@).take(i + 1);
                    assert(front.drop_last() =~= views(entries@).take(i as int));
                    assert(front.last() == entries@[i as int]@);
                }
                if names_namespace(&entries[i]) {
                    let dir = NamespaceDir {
                        raw_name: entries[i].name.clone(),
                        blobs_dir: blobs_dir_path(entries[i].name.as_str()),
                    };
                    proof {
                        lemma_views_push(dirs@, dir);
                    }
                    dirs.push(dir);
                }
                i += 1;
            }
            assert(views(entries@).take(entries@.len() as int) =~= views(entries@));
            Ok(dirs)
        },
    }
}

/// The blob id that the catalog holds for `key`: that of the first row for
/// the key.
pub fn blob_id_for_key(rows: &Vec<CatalogRow>, key: &str) -> (blob_id: Result<String, KvError>)
    ensures
        result_view(blob_id) == match blob_id_of(views(rows@), key@) {
            Some(id) => Ok::<Seq<char>, KvErrorView>(id),
            None => Err::<Seq<char>, KvErrorView>(KvErrorView::KeyNotFound(key@)),
        },
{
    let mut i: usize = 0;
    assert(views(rows@).skip(0) =~= views(rows@));
    while i < rows.len()
        invariant
            i <= rows.len(),
            blob_id_of(views(rows@), key@) == blob_id_of(views(rows@).skip(i as int), key@),
        decreases rows.len() - i,
    {
        let ghost rest = views(rows@).skip(i as int);
        assert(rest[0] == rows@[i as int]@);
        if str_eq(rows[i].key.as_str(), key) {
            return Ok(rows[i].blob_id.clone());
        }
        assert(rest.drop_first() =~= views(rows@).skip(i + 1));
        i += 1;
    }
    Err(KvError::KeyNotFound(key.to_owned()))
}

} // verus!
