//! The state of one root held in memory: the entries of its `kv`
//! directory with their blob files, and the catalog. It answers the steps
//! of the local operations as a disk would, and so says what the operations
//! come to.

use crate::error::{list_result_view, unit_result_view, KvError, KvErrorView};
use crate::gateway::{local_raw_name, raw_name_of};
use crate::local::catalog::{
    blob_file_steps, blob_id_for_key, blob_id_of, has_catalog, CatalogRow, DirEntry, DirEntryView,
    RowView,
};
use crate::local::delete::{
    lemma_step_comes_nearer, BatchView, DeleteAction, DeleteBatch, DeleteEvent, StageView,
};
use crate::local::listing::{
    catalog_rows, find_blob, list_namespaces, listing_result, BlobFile, BlobView, CatalogScan,
    CatalogScanView, FolderScan, FolderScanView, NamespaceScan, NamespaceScanView,
};
use crate::local::update::{
    lemma_update_step_comes_nearer, write_plan, UpdateAction, UpdateEntry, UpdateEvent,
    UpdateStageView, UpdateView,
};
use crate::models::kv::KVNamespace;
use crate::text::str_eq;
use crate::views::{lemma_views_push, views};
use vstd::prelude::*;
use vstd::slice::slice_to_vec;

verus! {

/// One entry of the `kv` directory with the files of its `blobs`
/// directory.
#[derive(Debug, PartialEq, Eq)]
pub struct StoredDir {
    pub entry: DirEntry,
    pub blobs: Vec<BlobFile>,
}

/// Mathematical model of a [`StoredDir`].
pub struct StoredDirView {
    pub entry: DirEntryView,
    pub blobs: Seq<BlobView>,
}

impl View for StoredDir {
    type V = StoredDirView;

    open spec fn view(&self) -> StoredDirView {
        StoredDirView { entry: self.entry@, blobs: views(self.blobs@) }
    }
}

/// The state of one root: the entries of its `kv` directory, or `None`
/// where it has no such directory, and the catalog as a look for it finds
/// it.
#[derive(Debug, PartialEq, Eq)]
pub struct LocalStore {
    pub dirs: Option<Vec<StoredDir>>,
    pub catalog: CatalogScan,
}

/// Mathematical model of a [`LocalStore`].
pub struct StoreView {
    pub dirs: Option<Seq<StoredDirView>>,
    pub catalog: CatalogScanView,
}

impl View for LocalStore {
    type V = StoreView;

    open spec fn view(&self) -> StoreView {
        StoreView {
            dirs: match self.dirs {
                Some(dirs) => Some(views(dirs@)),
                None => None,
            },
            catalog: self.catalog@,
        }
    }
}

/// Whether the first of `blobs` that is called `name` stands at
/// `position`.
pub open spec fn is_blob_at(blobs: Seq<BlobView>, name: Seq<char>, position: int) -> bool {
    &&& 0 <= position < blobs.len()
    &&& blobs[position].name == name
    &&& forall|i: int| 0 <= i < position ==> (#[trigger] blobs[i]).name != name
}

/// Whether one of `blobs` is called `name`.
pub open spec fn has_blob(blobs: Seq<BlobView>, name: Seq<char>) -> bool {
    exists|i: int| 0 <= i < blobs.len() && (#[trigger] blobs[i]).name == name
}

/// Where the first of `blobs` that is called `name` stands.
pub open spec fn blob_position(blobs: Seq<BlobView>, name: Seq<char>) -> int {
    choose|position: int| is_blob_at(blobs, name, position)
}

/// Whether the first of `dirs` that is called `name` stands at `position`.
pub open spec fn is_dir_at(dirs: Seq<StoredDirView>, name: Seq<char>, position: int) -> bool {
    &&& 0 <= position < dirs.len()
    &&& dirs[position].entry.name == name
    &&& forall|i: int| 0 <= i < position ==> (#[trigger] dirs[i]).entry.name != name
}

/// Whether one of `dirs` is called `name`.
pub open spec fn has_dir(dirs: Seq<StoredDirView>, name: Seq<char>) -> bool {
    exists|i: int| 0 <= i < dirs.len() && (#[trigger] dirs[i]).entry.name == name
}

/// Where the first of `dirs` that is called `name` stands.
pub open spec fn dir_position(dirs: Seq<StoredDirView>, name: Seq<char>) -> int {
    choose|position: int| is_dir_at(dirs, name, position)
}

/// There is one first blob of a name at most.
pub proof fn lemma_blob_position(blobs: Seq<BlobView>, name: Seq<char>, position: int)
    requires
        is_blob_at(blobs, name, position),
    ensures
        has_blob(blobs, name),
        blob_position(blobs, name) == position,
        find_blob(blobs, name) == Some(blobs[position]),
    decreases position,
{
    let chosen = blob_position(blobs, name);
    assert(is_blob_at(blobs, name, chosen));
    if chosen < position {
        assert(blobs[chosen].name != name);
    }
    if position < chosen {
        assert(blobs[position].name != name);
    }
    if position > 0 {
        let rest = blobs.drop_first();
        assert(blobs[0].name != name);
        assert forall|i: int| 0 <= i < position - 1 implies (#[trigger] rest[i]).name != name by {
            assert(rest[i] == blobs[i + 1]);
        }
        assert(rest[position - 1] == blobs[position]);
        lemma_blob_position(rest, name, position - 1);
    }
}

/// Where no blob has the name, none is found.
pub proof fn lemma_no_blob(blobs: Seq<BlobView>, name: Seq<char>)
    requires
        !has_blob(blobs, name),
    ensures
        find_blob(blobs, name) is None,
    decreases blobs.len(),
{
    if blobs.len() > 0 {
        let rest = blobs.drop_first();
        assert(blobs[0].name != name);
        assert forall|i: int| 0 <= i < rest.len() implies (#[trigger] rest[i]).name != name by {
            assert(rest[i] == blobs[i + 1]);
            assert(blobs[i + 1].name != name);
        }
        lemma_no_blob(rest, name);
    }
}

/// There is one first directory of a name at most.
pub proof fn lemma_dir_position(dirs: Seq<StoredDirView>, name: Seq<char>, position: int)
    requires
        is_dir_at(dirs, name, position),
    ensures
        has_dir(dirs, name),
        dir_position(dirs, name) == position,
{
    let chosen = dir_position(dirs, name);
    assert(is_dir_at(dirs, name, chosen));
    if chosen < position {
        assert(dirs[chosen].entry.name != name);
    }
    if position < chosen {
        assert(dirs[position].entry.name != name);
    }
}

/// Among the blobs up to position `upto`, which is called `name`, the first
/// of that name.
proof fn lemma_first_blob_upto(blobs: Seq<BlobView>, name: Seq<char>, upto: int) -> (first: int)
    requires
        0 <= upto < blobs.len(),
        blobs[upto].name == name,
    ensures
        is_blob_at(blobs, name, first),
    decreases upto,
{
    if exists|i: int| 0 <= i < upto && (#[trigger] blobs[i]).name == name {
        let i = choose|i: int| 0 <= i < upto && (#[trigger] blobs[i]).name == name;
        lemma_first_blob_upto(blobs, name, i)
    } else {
        upto
    }
}

/// Where a blob has the name, a first one has it.
pub proof fn lemma_first_blob(blobs: Seq<BlobView>, name: Seq<char>)
    requires
        has_blob(blobs, name),
    ensures
        is_blob_at(blobs, name, blob_position(blobs, name)),
{
    let i = choose|i: int| 0 <= i < blobs.len() && (#[trigger] blobs[i]).name == name;
    let first = lemma_first_blob_upto(blobs, name, i);
    assert(is_blob_at(blobs, name, first));
}

/// Among the directories up to position `upto`, which is called `name`, the
/// first of that name.
proof fn lemma_first_dir_upto(dirs: Seq<StoredDirView>, name: Seq<char>, upto: int) -> (first: int)
    requires
        0 <= upto < dirs.len(),
        dirs[upto].entry.name == name,
    ensures
        is_dir_at(dirs, name, first),
    decreases upto,
{
    if exists|i: int| 0 <= i < upto && (#[trigger] dirs[i]).entry.name == name {
        let i = choose|i: int| 0 <= i < upto && (#[trigger] dirs[i]).entry.name == name;
        lemma_first_dir_upto(dirs, name, i)
    } else {
        upto
    }
}

/// Where a directory has the name, a first one has it.
pub proof fn lemma_first_dir(dirs: Seq<StoredDirView>, name: Seq<char>)
    requires
        has_dir(dirs, name),
    ensures
        is_dir_at(dirs, name, dir_position(dirs, name)),
{
    let i = choose|i: int| 0 <= i < dirs.len() && (#[trigger] dirs[i]).entry.name == name;
    let first = lemma_first_dir_upto(dirs, name, i);
    assert(is_dir_at(dirs, name, first));
}

impl StoreView {
    /// Whether the blob file `blob_id` of the directory `raw_name` is
    /// there.
    pub open spec fn has_blob_file(self, raw_name: Seq<char>, blob_id: Seq<char>) -> bool {
        match self.dirs {
            Some(dirs) => has_dir(dirs, raw_name) && has_blob(
                dirs[dir_position(dirs, raw_name)].blobs,
                blob_id,
            ),
            None => false,
        }
    }

    /// The state with `content` in the blob file `blob_id` of the directory
    /// `raw_name`, which is there.
    pub open spec fn with_content(
        self,
        raw_name: Seq<char>,
        blob_id: Seq<char>,
        content: Seq<u8>,
    ) -> StoreView {
        let dirs = self.dirs.unwrap();
        let d = dir_position(dirs, raw_name);
        let b = blob_position(dirs[d].blobs, blob_id);
        StoreView {
            dirs: Some(
                dirs.update(
                    d,
                    StoredDirView {
                        blobs: dirs[d].blobs.update(
                            b,
                            BlobView { name: blob_id, content: Some(content) },
                        ),
                        ..dirs[d]
                    },
                ),
            ),
            ..self
        }
    }

    /// The state without the blob file `blob_id` of the directory
    /// `raw_name`; it is as before where there is no such file.
    pub open spec fn without_blob_file(self, raw_name: Seq<char>, blob_id: Seq<char>) -> StoreView {
        if self.has_blob_file(raw_name, blob_id) {
            let dirs = self.dirs.unwrap();
            let d = dir_position(dirs, raw_name);
            let b = blob_position(dirs[d].blobs, blob_id);
            StoreView {
                dirs: Some(
                    dirs.update(d, StoredDirView { blobs: dirs[d].blobs.remove(b), ..dirs[d] }),
                ),
                ..self
            }
        } else {
            self
        }
    }

    /// What replacing the content of the blob file `blob_id` of the
    /// directory `raw_name` by the text `value` comes to, and the state after
    /// it.
    pub open spec fn update_blob(
        self,
        raw_name: Seq<char>,
        blob_id: Seq<char>,
        value: Seq<char>,
    ) -> (StoreView, Result<(), KvErrorView>) {
        match write_plan(raw_name, blob_id, self.has_blob_file(raw_name, blob_id), value) {
            Ok(write) => (self.with_content(raw_name, blob_id, write.content), Ok(())),
            Err(e) => (self, Err(e)),
        }
    }

    /// What replacing the value of `key` in the directory `raw_name` by the
    /// text `value` comes to, and the state after it.
    pub open spec fn update_in(self, raw_name: Seq<char>, key: Seq<char>, value: Seq<char>) -> (
        StoreView,
        Result<(), KvErrorView>,
    ) {
        match catalog_rows(self.catalog) {
            Ok(rows) => match blob_id_of(rows, key) {
                Some(blob_id) => self.update_blob(raw_name, blob_id, value),
                None => (self, Err(KvErrorView::KeyNotFound(key))),
            },
            Err(e) => (self, Err(e)),
        }
    }

    /// What replacing the value of `key` by the text `value` comes to, and
    /// the state after it. The checks come in this order: the namespace id
    /// gives a directory name, the catalog resolves, it has a row for the
    /// key, the blob file of that row is there, and the text is JSON. Then
    /// the blob file holds the text, and nothing else has changed; after a
    /// failure nothing has changed at all.
    pub open spec fn update(self, namespace_id: Seq<char>, key: Seq<char>, value: Seq<char>) -> (
        StoreView,
        Result<(), KvErrorView>,
    ) {
        match local_raw_name(namespace_id) {
            Ok(raw_name) => self.update_in(raw_name, key, value),
            Err(e) => (self, Err(e)),
        }
    }

    /// The state, the rows and the place of the first key without a row
    /// after the keys from position `from` on are deleted one after the
    /// other, each from the rows that the keys before it left: the rows
    /// for a key go, and so does the blob file of the first of them. It ends
    /// at the first key that has no row any more.
    pub open spec fn delete_run(
        self,
        rows: Seq<RowView>,
        raw_name: Seq<char>,
        keys: Seq<Seq<char>>,
        from: nat,
    ) -> (StoreView, Seq<RowView>, Option<nat>)
        decreases keys.len() - from,
    {
        if from >= keys.len() {
            (self, rows, None)
        } else {
            match blob_id_of(rows, keys[from as int]) {
                Some(blob_id) => self.without_blob_file(raw_name, blob_id).delete_run(
                    rows_without(rows, keys[from as int]),
                    raw_name,
                    keys,
                    from + 1,
                ),
                None => (self, rows, Some(from)),
            }
        }
    }

    /// What deleting `keys` from the namespace `namespace_id` comes to, and
    /// the state after it. The namespace id has to give a directory name
    /// and the catalog has to resolve. Then the keys are deleted as one
    /// unit of the catalog: where each key in its turn has a row, the
    /// catalog is left without the rows of all of them; where one has none,
    /// the catalog is as it was before, and the failure names that key. The
    /// blob files that were removed up to there stay removed.
    pub open spec fn delete(self, namespace_id: Seq<char>, keys: Seq<Seq<char>>) -> (
        StoreView,
        Result<(), KvErrorView>,
    ) {
        match local_raw_name(namespace_id) {
            Ok(raw_name) => self.delete_in(raw_name, keys),
            Err(e) => (self, Err(e)),
        }
    }

    /// What deleting `keys` from the directory `raw_name` comes to, and the
    /// state after it.
    pub open spec fn delete_in(self, raw_name: Seq<char>, keys: Seq<Seq<char>>) -> (
        StoreView,
        Result<(), KvErrorView>,
    ) {
        match catalog_rows(self.catalog) {
            Ok(rows) => delete_end(self.delete_run(rows, raw_name, keys, 0), keys),
            Err(e) => (self, Err(e)),
        }
    }

    /// What a walk through the state finds: at every entry of the `kv`
    /// directory the one catalog of the state.
    pub open spec fn scan(self) -> FolderScanView {
        match self.dirs {
            Some(dirs) => FolderScanView::Found(
                Seq::new(
                    dirs.len(),
                    |i: int|
                        NamespaceScanView {
                            entry: dirs[i].entry,
                            catalog: self.catalog,
                            blobs: dirs[i].blobs,
                        },
                ),
            ),
            None => FolderScanView::Missing,
        }
    }
}

/// `rows` without those for `key`, the others in their order.
pub open spec fn rows_without(rows: Seq<RowView>, key: Seq<char>) -> Seq<RowView>
    decreases rows.len(),
{
    if rows.len() == 0 {
        Seq::empty()
    } else if rows.last().key == key {
        rows_without(rows.drop_last(), key)
    } else {
        rows_without(rows.drop_last(), key).push(rows.last())
    }
}

/// What a run over the keys comes to in the end, given the state, the rows
/// and the place of the first key without a row that it stopped with: where
/// it came through, the rows that are left are the rows of the catalog
/// from then on; where it stopped at a key, the catalog is as it was before
/// the run, and the failure names that key.
pub open spec fn delete_end(run: (StoreView, Seq<RowView>, Option<nat>), keys: Seq<Seq<char>>) -> (
    StoreView,
    Result<(), KvErrorView>,
) {
    match run.2 {
        None => (
            StoreView { catalog: CatalogScanView { rows: Some(run.1), ..run.0.catalog }, ..run.0 },
            Ok(()),
        ),
        Some(position) => (run.0, Err(KvErrorView::KeyNotFound(keys[position as int]))),
    }
}

/// Whether a batch that has come as far as `batch` on the state `store`
/// with the rows `rows` at work is on its way to `target`, the end of the
/// whole batch.
pub open spec fn on_the_way(
    batch: BatchView,
    store: StoreView,
    rows: Seq<RowView>,
    target: (StoreView, Result<(), KvErrorView>),
) -> bool {
    let raw_name = batch.raw_name;
    let keys = batch.keys;
    let position = batch.position;
    &&& batch.well_formed()
    &&& match batch.stage {
        StageView::Listing => position == 0 && store.delete_in(raw_name, keys) == target,
        StageView::Opening { .. } => {
            &&& position == 0
            &&& has_catalog(store.catalog.files)
            &&& store.delete_in(raw_name, keys) == target
        },
        StageView::Starting | StageView::Finding => delete_end(
            store.delete_run(rows, raw_name, keys, position),
            keys,
        ) == target,
        StageView::Deleting { blob_id } => {
            &&& blob_id_of(rows, batch.key()) == Some(blob_id)
            &&& delete_end(store.delete_run(rows, raw_name, keys, position), keys) == target
        },
        StageView::Removing { blob_id } => delete_end(
            store.without_blob_file(raw_name, blob_id).delete_run(
                rows,
                raw_name,
                keys,
                position + 1,
            ),
            keys,
        ) == target,
        StageView::Committing | StageView::Finished { outcome: Ok(_) } => delete_end(
            (store, rows, None::<nat>),
            keys,
        ) == target,
        StageView::RollingBack { failure } | StageView::Finished { outcome: Err(failure) } => {
            target == (store, Err::<(), KvErrorView>(failure))
        },
    }
}

/// Whether an update that has come as far as `update` on the state `store`
/// is on its way to `target`, the end of the whole update.
pub open spec fn update_on_the_way(
    update: UpdateView,
    store: StoreView,
    target: (StoreView, Result<(), KvErrorView>),
) -> bool {
    match update.stage {
        UpdateStageView::Listing => store.update_in(update.raw_name, update.key, update.value)
            == target,
        UpdateStageView::Finding { .. } => {
            &&& has_catalog(store.catalog.files)
            &&& store.update_in(update.raw_name, update.key, update.value) == target
        },
        UpdateStageView::Probing { blob_id } => store.update_blob(
            update.raw_name,
            blob_id,
            update.value,
        ) == target,
        UpdateStageView::Writing { write } => {
            &&& write.path == blob_file_steps(update.raw_name, write.path[2])
            &&& store.has_blob_file(update.raw_name, write.path[2])
            &&& target == (
                store.with_content(update.raw_name, write.path[2], write.content),
                Ok::<(), KvErrorView>(()),
            )
        },
        UpdateStageView::Finished { outcome } => target == (store, outcome),
    }
}

/// A second string vector that holds the same strings.
fn copy_strings(items: &Vec<String>) -> (copy: Vec<String>)
    ensures
        views(copy@) == views(items@),
{
    let mut copy: Vec<String> = Vec::new();
    let mut i: usize = 0;
    while i < items.len()
        invariant
            i <= items.len(),
            views(copy@) == views(items@).take(i as int),
        decreases items.len() - i,
    {
        let item = items[i].clone();
        proof {
            lemma_views_push(copy@, item);
        }
        copy.push(item);
        i += 1;
        assert(views(copy@) =~= views(items@).take(i as int));
    }
    assert(views(copy@) =~= views(items@));
    copy
}

/// A second vector of rows that holds the same rows.
pub fn copy_rows(rows: &Vec<CatalogRow>) -> (copy: Vec<CatalogRow>)
    ensures
        views(copy@) == views(rows@),
{
    let mut copy: Vec<CatalogRow> = Vec::new();
    let mut i: usize = 0;
    while i < rows.len()
        invariant
            i <= rows.len(),
            views(copy@) == views(rows@).take(i as int),
        decreases rows.len() - i,
    {
        let row = rows[i].clone();
        proof {
            lemma_views_push(copy@, row);
        }
        copy.push(row);
        i += 1;
        assert(views(copy@) =~= views(rows@).take(i as int));
    }
    assert(views(copy@) =~= views(rows@));
    copy
}

/// A second look for the catalog that found the same.
fn copy_catalog(catalog: &CatalogScan) -> (copy: CatalogScan)
    ensures
        copy@ == catalog@,
{
    CatalogScan {
        files: copy_strings(&catalog.files),
        rows: match &catalog.rows {
            Some(rows) => Some(copy_rows(rows)),
            None => None,
        },
    }
}

/// A second vector of blob files that holds the same files.
fn copy_blobs(blobs: &Vec<BlobFile>) -> (copy: Vec<BlobFile>)
    ensures
        views(copy@) == views(blobs@),
{
    let mut copy: Vec<BlobFile> = Vec::new();
    let mut i: usize = 0;
    while i < blobs.len()
        invariant
            i <= blobs.len(),
            views(copy@) == views(blobs@).take(i as int),
        decreases blobs.len() - i,
    {
        let blob = BlobFile {
            name: blobs[i].name.clone(),
            content: match &blobs[i].content {
                Some(raw) => Some(slice_to_vec(raw.as_slice())),
                None => None,
            },
        };
        proof {
            lemma_views_push(copy@, blob);
        }
        copy.push(blob);
        i += 1;
        assert(views(copy@) =~= views(blobs@).take(i as int));
    }
    assert(views(copy@) =~= views(blobs@));
    copy
}

/// Where the first of `blobs` that is called `name` stands.
pub fn find_blob_file(blobs: &Vec<BlobFile>, name: &str) -> (found: Option<usize>)
    ensures
        match found {
            Some(position) => is_blob_at(views(blobs@), name@, position as int),
            None => !has_blob(views(blobs@), name@),
        },
{
    let mut i: usize = 0;
    while i < blobs.len()
        invariant
            i <= blobs.len(),
            forall|j: int| 0 <= j < i ==> (#[trigger] views(blobs@)[j]).name != name@,
        decreases blobs.len() - i,
    {
        assert(views(blobs@)[i as int] == blobs@[i as int]@);
        if str_eq(blobs[i].name.as_str(), name) {
            return Some(i);
        }
        i += 1;
    }
    None
}

/// Where the first of `dirs` that is called `name` stands.
pub fn find_dir(dirs: &Vec<StoredDir>, name: &str) -> (found: Option<usize>)
    ensures
        match found {
            Some(position) => is_dir_at(views(dirs@), name@, position as int),
            None => !has_dir(views(dirs@), name@),
        },
{
    let mut i: usize = 0;
    while i < dirs.len()
        invariant
            i <= dirs.len(),
            forall|j: int| 0 <= j < i ==> (#[trigger] views(dirs@)[j]).entry.name != name@,
        decreases dirs.len() - i,
    {
        assert(views(dirs@)[i as int] == dirs@[i as int]@);
        if str_eq(dirs[i].entry.name.as_str(), name) {
            return Some(i);
        }
        i += 1;
    }
    None
}

impl LocalStore {
    /// Walks through the state as a listing does.
    pub fn scan(&self) -> (found: FolderScan)
        ensures
            found@ == self@.scan(),
    {
        match &self.dirs {
            Some(dirs) => {
                let mut scans: Vec<NamespaceScan> = Vec::new();
                let mut i: usize = 0;
                while i < dirs.len()
                    invariant
                        i <= dirs.len(),
                        self.dirs == Some(*dirs),
                        self@.scan() is Found,
                        views(scans@) == self@.scan()->Found_0.take(i as int),
                    decreases dirs.len() - i,
                {
                    let visit = NamespaceScan {
                        entry: DirEntry {
                            name: dirs[i].entry.name.clone(),
                            is_dir: dirs[i].entry.is_dir,
                        },
                        catalog: copy_catalog(&self.catalog),
                        blobs: copy_blobs(&dirs[i].blobs),
                    };
                    proof {
                        lemma_views_push(scans@, visit);
                        assert(views(dirs@)[i as int] == dirs@[i as int]@);
                    }
                    scans.push(visit);
                    i += 1;
                    assert(views(scans@) =~= self@.scan()->Found_0.take(i as int));
                }
                assert(views(scans@) =~= self@.scan()->Found_0);
                FolderScan::Found(scans)
            },
            None => FolderScan::Missing,
        }
    }

    /// The namespaces of the state, as those of folder `folder_id`.
    pub fn list_namespaces(&self, folder_id: i64) -> (outcome: Result<Vec<KVNamespace>, KvError>)
        ensures
            list_result_view(outcome) == listing_result(folder_id, self@.scan()),
    {
        let found = self.scan();
        list_namespaces(folder_id, &found)
    }
}

impl LocalStore {
    /// Where the blob file `blob_id` of the directory `raw_name` stands:
    /// the position of the directory and that of the file in it.
    pub fn locate_blob(&self, raw_name: &str, blob_id: &str) -> (found: Option<(usize, usize)>)
        ensures
            match found {
                Some((d, b)) => {
                    &&& self@.has_blob_file(raw_name@, blob_id@)
                    &&& self@.dirs is Some
                    &&& is_dir_at(self@.dirs.unwrap(), raw_name@, d as int)
                    &&& is_blob_at(self@.dirs.unwrap()[d as int].blobs, blob_id@, b as int)
                },
                None => !self@.has_blob_file(raw_name@, blob_id@),
            },
    {
        match &self.dirs {
            Some(dirs) => match find_dir(dirs, raw_name) {
                Some(d) => {
                    proof {
                        lemma_dir_position(views(dirs@), raw_name@, d as int);
                        assert(views(dirs@)[d as int] == dirs@[d as int]@);
                    }
                    match find_blob_file(&dirs[d].blobs, blob_id) {
                        Some(b) => {
                            proof {
                                lemma_blob_position(
                                    views(dirs@[d as int].blobs@),
                                    blob_id@,
                                    b as int,
                                );
                            }
                            Some((d, b))
                        },
                        None => None,
                    }
                },
                None => None,
            },
            None => None,
        }
    }

    /// Replaces the value of `key` in the namespace `namespace_id` by the
    /// JSON text `value`. Only the blob file changes: the catalog and what
    /// it holds on the key stay as they are.
    pub fn update_entry(&mut self, namespace_id: &str, key: &str, value: &str) -> (outcome: Result<
        (),
        KvError,
    >)
        ensures
            (final(self)@, unit_result_view(outcome)) == old(self)@.update(
                namespace_id@,
                key@,
                value@,
            ),
    {
        let raw_name = match raw_name_of(namespace_id) {
            Ok(raw_name) => raw_name,
            Err(e) => {
                return Err(e);
            },
        };
        let ghost target = self@.update(namespace_id@, key@, value@);
        let mut update = UpdateEntry::new(raw_name, key.to_owned(), value.to_owned());
        loop
            invariant
                update_on_the_way(update@, self@, target),
                update@.raw_name == raw_name@,
                update@.key == key@,
                update@.value == value@,
                target == old(self)@.update(namespace_id@, key@, value@),
            decreases update@.steps_left(),
        {
            let ghost before = update@;
            let event = match update.next_action() {
                UpdateAction::Finish(outcome) => {
                    return outcome;
                },
                UpdateAction::ListCatalog => UpdateEvent::Files(copy_strings(&self.catalog.files)),
                UpdateAction::FindBlob { key, .. } => match &self.catalog.rows {
                    Some(rows) => match blob_id_for_key(rows, key.as_str()) {
                        Ok(blob_id) => UpdateEvent::Found(blob_id),
                        Err(_) => UpdateEvent::NotFound,
                    },
                    None => UpdateEvent::Failed,
                },
                UpdateAction::ProbeBlob { path } => {
                    assert(views(path@).len() == 3);
                    assert(views(path@)[0] == path@[0]@);
                    assert(views(path@)[2] == path@[2]@);
                    match self.locate_blob(path[0].as_str(), path[2].as_str()) {
                        Some(_) => UpdateEvent::Present,
                        None => UpdateEvent::Absent,
                    }
                },
                UpdateAction::WriteBlob { write } => {
                    assert(views(write.path@).len() == 3);
                    assert(views(write.path@)[0] == write.path@[0]@);
                    assert(views(write.path@)[2] == write.path@[2]@);
                    match self.locate_blob(write.path[0].as_str(), write.path[2].as_str()) {
                        Some((d, b)) => {
                            proof {
                                let dirs = self@.dirs.unwrap();
                                lemma_dir_position(dirs, raw_name@, d as int);
                                lemma_blob_position(
                                    dirs[d as int].blobs,
                                    write.path@[2]@,
                                    b as int,
                                );
                            }
                            let ghost state = self@;
                            self.put_content(d, b, write.content);
                            assert(self@.dirs.unwrap() =~= state.with_content(
                                raw_name@,
                                write.path@[2]@,
                                write.content@,
                            ).dirs.unwrap());
                            UpdateEvent::Done
                        },
                        None => UpdateEvent::Failed,
                    }
                },
            };
            proof {
                lemma_update_step_comes_nearer(before, event@);
            }
            update.record(event);
        }
    }

    /// Puts `content` into the blob file at position `b` of the directory at
    /// position `d`.
    fn put_content(&mut self, d: usize, b: usize, content: Vec<u8>)
        requires
            old(self)@.dirs is Some,
            d < old(self)@.dirs.unwrap().len(),
            b < old(self)@.dirs.unwrap()[d as int].blobs.len(),
        ensures
            final(self)@.catalog == old(self)@.catalog,
            final(self)@.dirs == Some(
                old(self)@.dirs.unwrap().update(
                    d as int,
                    StoredDirView {
                        blobs: old(self)@.dirs.unwrap()[d as int].blobs.update(
                            b as int,
                            BlobView {
                                name: old(self)@.dirs.unwrap()[d as int].blobs[b as int].name,
                                content: Some(content@),
                            },
                        ),
                        ..old(self)@.dirs.unwrap()[d as int]
                    },
                ),
            ),
    {
        match &mut self.dirs {
            Some(dirs) => {
                let ghost before = dirs@;
                assert(views(before)[d as int] == before[d as int]@);
                assert(views(before[d as int].blobs@)[b as int]
                    == before[d as int].blobs@[b as int]@);
                dirs[d].blobs[b].content = Some(content);
                assert(views(dirs@) =~= views(before).update(
                    d as int,
                    StoredDirView {
                        blobs: views(before)[d as int].blobs.update(
                            b as int,
                            BlobView {
                                name: views(before)[d as int].blobs[b as int].name,
                                content: Some(content@),
                            },
                        ),
                        ..views(before)[d as int]
                    },
                )) by {
                    assert(views(dirs@[d as int].blobs@) =~= views(before[d as int].blobs@).update(
                        b as int,
                        BlobView {
                            name: views(before)[d as int].blobs[b as int].name,
                            content: Some(content@),
                        },
                    ));
                }
            },
            None => {},
        }
    }
}

/// `rows` without those for `key`, the others in their order.
pub fn remove_rows(rows: &Vec<CatalogRow>, key: &str) -> (left: Vec<CatalogRow>)
    ensures
        views(left@) == rows_without(views(rows@), key@),
{
    let mut left: Vec<CatalogRow> = Vec::new();
    let mut i: usize = 0;
    assert(views(rows@).take(0) =~= Seq::<RowView>::empty());
    assert(views(left@) =~= rows_without(views(rows@).take(0), key@));
    while i < rows.len()
        invariant
            i <= rows.len(),
            views(left@) == rows_without(views(rows@).take(i as int), key@),
        decreases rows.len() - i,
    {
        proof {
            let front = views(rows@).take(i + 1);
            assert(front.drop_last() =~= views(rows@).take(i as int));
            assert(front.last() == rows@[i as int]@);
        }
        if !str_eq(rows[i].key.as_str(), key) {
            let row = rows[i].clone();
            proof {
                lemma_views_push(left@, row);
            }
            left.push(row);
        }
        i += 1;
    }
    assert(views(rows@).take(rows@.len() as int) =~= views(rows@));
    left
}

impl LocalStore {
    /// Removes the blob file `blob_id` of the directory `raw_name`, if it is
    /// there.
    pub fn remove_blob_file(&mut self, raw_name: &str, blob_id: &str)
        ensures
            final(self)@ == old(self)@.without_blob_file(raw_name@, blob_id@),
    {
        match self.locate_blob(raw_name, blob_id) {
            Some((d, b)) => {
                proof {
                    let dirs = self@.dirs.unwrap();
                    lemma_dir_position(dirs, raw_name@, d as int);
                    lemma_blob_position(dirs[d as int].blobs, blob_id@, b as int);
                }
                match &mut self.dirs {
                    Some(dirs) => {
                        let ghost before = dirs@;
                        assert(views(before)[d as int] == before[d as int]@);
                        let _ = dirs[d].blobs.remove(b);
                        assert(views(dirs@[d as int].blobs@) =~= views(
                            before[d as int].blobs@,
                        ).remove(b as int));
                        assert(views(dirs@) =~= views(before).update(
                            d as int,
                            StoredDirView {
                                blobs: views(before)[d as int].blobs.remove(b as int),
                                ..views(before)[d as int]
                            },
                        ));
                    },
                    None => {},
                }
            },
            None => {},
        }
    }

    /// Deletes `keys` from the namespace `namespace_id` as one unit of the
    /// catalog: either the rows of all of them go, or none does.
    pub fn delete_entries(&mut self, namespace_id: &str, keys: Vec<String>) -> (outcome: Result<
        (),
        KvError,
    >)
        ensures
            (final(self)@, unit_result_view(outcome)) == old(self)@.delete(
                namespace_id@,
                views(keys@),
            ),
    {
        let raw_name = match raw_name_of(namespace_id) {
            Ok(raw_name) => raw_name,
            Err(e) => {
                return Err(e);
            },
        };
        let mut rows: Vec<CatalogRow> = Vec::new();
        let ghost target = self@.delete(namespace_id@, views(keys@));
        let ghost wanted = views(keys@);
        let mut batch = DeleteBatch::new(raw_name, keys);
        loop
            invariant
                on_the_way(batch@, self@, views(rows@), target),
                batch@.keys == wanted,
                wanted == views(keys@),
                batch@.raw_name == raw_name@,
                self@.catalog == old(self)@.catalog,
                target == old(self)@.delete(namespace_id@, wanted),
            decreases batch@.steps_left(),
        {
            let ghost before = batch@;
            let action = batch.next_action();
            let event = match action {
                DeleteAction::Finish(outcome) => {
                    if outcome.is_ok() {
                        self.catalog.rows = Some(rows);
                    }
                    return outcome;
                },
                DeleteAction::ListCatalog => DeleteEvent::Files(copy_strings(&self.catalog.files)),
                DeleteAction::OpenCatalog { .. } => match &self.catalog.rows {
                    Some(stored) => {
                        rows = copy_rows(stored);
                        DeleteEvent::Done
                    },
                    None => DeleteEvent::Failed,
                },
                DeleteAction::FindBlob { key } => match blob_id_for_key(&rows, key.as_str()) {
                    Ok(blob_id) => DeleteEvent::Found(blob_id),
                    Err(_) => DeleteEvent::NotFound,
                },
                DeleteAction::DeleteRow { key } => {
                    rows = remove_rows(&rows, key.as_str());
                    DeleteEvent::Done
                },
                DeleteAction::RemoveBlob { path } => {
                    assert(before.stage is Removing);
                    assert(views(path@) == blob_file_steps(
                        raw_name@,
                        before.stage->Removing_blob_id,
                    ));
                    assert(views(path@).len() == 3);
                    assert(views(path@)[0] == path@[0]@);
                    assert(views(path@)[2] == path@[2]@);
                    self.remove_blob_file(path[0].as_str(), path[2].as_str());
                    DeleteEvent::Done
                },
                DeleteAction::Begin | DeleteAction::Commit | DeleteAction::Rollback => {
                    DeleteEvent::Done
                },
            };
            proof {
                lemma_step_comes_nearer(before, event@);
            }
            batch.record(event);
        }
    }
}

} // verus!
