//! The namespaces of one folder with their entries, made from what a walk
//! through the folder's state found.

use crate::codec::{decode, decoded};
use crate::error::{KvError, KvErrorView};
use crate::gateway::{local_id, local_namespace_id};
use crate::json::{Json, JsonView};
use crate::local::catalog::{
    find_catalog_file, has_catalog, is_namespace_dir, names_namespace, CatalogRow, DirEntry,
    DirEntryView, RowView,
};
use crate::models::kv::{EntryView, KVEntry, KVNamespace, NamespaceKind, NamespaceView};
use crate::text::{push_str, str_eq, string_of, uppercase_of};
use crate::views::{lemma_views_push, option_view, views};
use vstd::prelude::*;

verus! {

/// One file of a `blobs` directory. The content is `None` where the file is
/// there and cannot be read.
#[derive(Debug, PartialEq, Eq)]
pub struct BlobFile {
    pub name: String,
    pub content: Option<Vec<u8>>,
}

/// Mathematical model of a [`BlobFile`].
pub struct BlobView {
    pub name: Seq<char>,
    pub content: Option<Seq<u8>>,
}

impl View for BlobFile {
    type V = BlobView;

    open spec fn view(&self) -> BlobView {
        BlobView {
            name: self.name@,
            content: match self.content {
                Some(raw) => Some(raw@),
                None => None,
            },
        }
    }
}

/// What a look for the catalog found: the names in the catalog directory,
/// in directory order, and the rows of the table where the catalog database
/// among them could be opened and read.
#[derive(Debug, PartialEq, Eq)]
pub struct CatalogScan {
    pub files: Vec<String>,
    pub rows: Option<Vec<CatalogRow>>,
}

/// Mathematical model of a [`CatalogScan`].
pub struct CatalogScanView {
    pub files: Seq<Seq<char>>,
    pub rows: Option<Seq<RowView>>,
}

impl View for CatalogScan {
    type V = CatalogScanView;

    open spec fn view(&self) -> CatalogScanView {
        CatalogScanView {
            files: views(self.files@),
            rows: match self.rows {
                Some(rows) => Some(views(rows@)),
                None => None,
            },
        }
    }
}

/// What the visit of one entry of the `kv` directory found: the entry, the
/// catalog as it was found during the visit, and the blob files below the
/// entry.
#[derive(Debug, PartialEq, Eq)]
pub struct NamespaceScan {
    pub entry: DirEntry,
    pub catalog: CatalogScan,
    pub blobs: Vec<BlobFile>,
}

/// Mathematical model of a [`NamespaceScan`].
pub struct NamespaceScanView {
    pub entry: DirEntryView,
    pub catalog: CatalogScanView,
    pub blobs: Seq<BlobView>,
}

impl View for NamespaceScan {
    type V = NamespaceScanView;

    open spec fn view(&self) -> NamespaceScanView {
        NamespaceScanView {
            entry: self.entry@,
            catalog: self.catalog@,
            blobs: views(self.blobs@),
        }
    }
}

/// What a walk through the state of one folder found.
#[derive(Debug, PartialEq, Eq)]
pub enum FolderScan {
    /// The root holds no `kv` directory.
    Missing,
    /// The `kv` directory is there and cannot be listed.
    Unreadable,
    /// The visits of the entries of the `kv` directory, in directory order.
    Found(Vec<NamespaceScan>),
}

/// Mathematical model of a [`FolderScan`].
pub enum FolderScanView {
    Missing,
    Unreadable,
    Found(Seq<NamespaceScanView>),
}

impl View for FolderScan {
    type V = FolderScanView;

    open spec fn view(&self) -> FolderScanView {
        match *self {
            FolderScan::Missing => FolderScanView::Missing,
            FolderScan::Unreadable => FolderScanView::Unreadable,
            FolderScan::Found(scans) => FolderScanView::Found(views(scans@)),
        }
    }
}

/// A namespace directory that is left out of a listing, and why.
#[derive(Debug, PartialEq, Eq)]
pub struct SkippedNamespace {
    pub raw_name: String,
    pub reason: KvError,
}

/// Mathematical model of a [`SkippedNamespace`].
pub struct SkippedView {
    pub raw_name: Seq<char>,
    pub reason: KvErrorView,
}

impl View for SkippedNamespace {
    type V = SkippedView;

    open spec fn view(&self) -> SkippedView {
        SkippedView { raw_name: self.raw_name@, reason: self.reason@ }
    }
}

/// The namespaces of a folder and the namespace directories that were left
/// out.
#[derive(Debug, PartialEq, Eq)]
pub struct Survey {
    pub namespaces: Vec<KVNamespace>,
    pub skipped: Vec<SkippedNamespace>,
}

/// Mathematical model of a [`Survey`].
pub struct SurveyView {
    pub namespaces: Seq<NamespaceView>,
    pub skipped: Seq<SkippedView>,
}

impl View for Survey {
    type V = SurveyView;

    open spec fn view(&self) -> SurveyView {
        SurveyView { namespaces: views(self.namespaces@), skipped: views(self.skipped@) }
    }
}

/// The rows that a look for the catalog gives: there is no catalog where no
/// file is named as one, and it is unavailable where the file could not be
/// opened and read.
pub open spec fn catalog_rows(catalog: CatalogScanView) -> Result<Seq<RowView>, KvErrorView> {
    if !has_catalog(catalog.files) {
        Err(KvErrorView::CatalogMissing)
    } else {
        match catalog.rows {
            Some(rows) => Ok(rows),
            None => Err(KvErrorView::CatalogUnavailable),
        }
    }
}

/// The first of `blobs` that is called `name`.
pub open spec fn find_blob(blobs: Seq<BlobView>, name: Seq<char>) -> Option<BlobView>
    decreases blobs.len(),
{
    if blobs.len() == 0 {
        None
    } else if blobs[0].name == name {
        Some(blobs[0])
    } else {
        find_blob(blobs.drop_first(), name)
    }
}

/// The value that the blob file `blob_id` holds: none where the file is not
/// there, cannot be read or holds no JSON.
pub open spec fn blob_value(blobs: Seq<BlobView>, blob_id: Seq<char>) -> Option<JsonView> {
    match find_blob(blobs, blob_id) {
        Some(blob) => match blob.content {
            Some(raw) => decoded(raw),
            None => None,
        },
        None => None,
    }
}

/// The entry of the namespace `namespace_id` that `row` stands for, with
/// its value from `blobs`.
pub open spec fn local_entry(
    namespace_id: Seq<char>,
    row: RowView,
    blobs: Seq<BlobView>,
) -> EntryView {
    EntryView {
        id: namespace_id + "-"@ + row.blob_id,
        key: row.key,
        blob_id: row.blob_id,
        expiration: row.expiration,
        metadata: row.metadata,
        value: blob_value(blobs, row.blob_id),
    }
}

/// The entries that `rows` stand for, one for one and in their order.
pub open spec fn local_entries(
    namespace_id: Seq<char>,
    rows: Seq<RowView>,
    blobs: Seq<BlobView>,
) -> Seq<EntryView> {
    Seq::new(rows.len(), |i: int| local_entry(namespace_id, rows[i], blobs))
}

/// The namespace that the directory `raw_name` of folder `folder_id` is,
/// with the catalog's `rows` as its entries: it is named by the directory
/// name in upper case, and its count is the number of its entries.
pub open spec fn local_namespace(
    folder_id: i64,
    raw_name: Seq<char>,
    rows: Seq<RowView>,
    blobs: Seq<BlobView>,
) -> NamespaceView {
    NamespaceView {
        id: local_id(folder_id as int, raw_name),
        entries: local_entries(local_id(folder_id as int, raw_name), rows, blobs),
        name: uppercase_of(raw_name),
        kind: NamespaceKind::Local,
        account_id: None,
        folder_id: Some(folder_id),
        count: Some(rows.len() as usize),
    }
}

/// What the visit of one entry gives: nothing for an entry that is no
/// namespace directory, the namespace where the catalog gave its rows, and
/// else the reason why the namespace is left out.
pub open spec fn visit_outcome(folder_id: i64, scan: NamespaceScanView) -> Option<
    Result<NamespaceView, SkippedView>,
> {
    if !is_namespace_dir(scan.entry) {
        None
    } else {
        match catalog_rows(scan.catalog) {
            Ok(rows) => Some(Ok(local_namespace(folder_id, scan.entry.name, rows, scan.blobs))),
            Err(reason) => Some(Err(SkippedView { raw_name: scan.entry.name, reason })),
        }
    }
}

/// The namespaces and the left-out directories that the visits give, each
/// in the order of the visits.
pub open spec fn surveyed(folder_id: i64, scans: Seq<NamespaceScanView>) -> SurveyView
    decreases scans.len(),
{
    if scans.len() == 0 {
        SurveyView { namespaces: Seq::empty(), skipped: Seq::empty() }
    } else {
        let front = surveyed(folder_id, scans.drop_last());
        match visit_outcome(folder_id, scans.last()) {
            Some(Ok(namespace)) => SurveyView {
                namespaces: front.namespaces.push(namespace),
                skipped: front.skipped,
            },
            Some(Err(skipped)) => SurveyView {
                namespaces: front.namespaces,
                skipped: front.skipped.push(skipped),
            },
            None => front,
        }
    }
}

/// What a walk through a folder's state gives: an error where there is no
/// `kv` directory or it cannot be listed, and the survey of the visits else.
pub open spec fn survey_result(folder_id: i64, scan: FolderScanView) -> Result<
    SurveyView,
    KvErrorView,
> {
    match scan {
        FolderScanView::Missing => Err(KvErrorView::NotAKvRoot),
        FolderScanView::Unreadable => Err(KvErrorView::KvRootUnreadable),
        FolderScanView::Found(scans) => Ok(surveyed(folder_id, scans)),
    }
}

/// The namespaces that a walk through a folder's state gives.
pub open spec fn listing_result(folder_id: i64, scan: FolderScanView) -> Result<
    Seq<NamespaceView>,
    KvErrorView,
> {
    match survey_result(folder_id, scan) {
        Ok(survey) => Ok(survey.namespaces),
        Err(e) => Err(e),
    }
}

/// A listing holds each namespace directory whose catalog gave its rows,
/// and nothing else: a directory whose catalog did not resolve is left out,
/// and the others are listed all the same.
pub proof fn lemma_listing_is_partial(folder_id: i64, scans: Seq<NamespaceScanView>)
    ensures
        forall|i: int|
            0 <= i < scans.len() ==> match #[trigger] visit_outcome(folder_id, scans[i]) {
                Some(Ok(namespace)) => surveyed(folder_id, scans).namespaces.contains(namespace),
                Some(Err(skipped)) => surveyed(folder_id, scans).skipped.contains(skipped),
                None => true,
            },
        forall|j: int|
            0 <= j < surveyed(folder_id, scans).namespaces.len() ==> exists|i: int|
                0 <= i < scans.len() && visit_outcome(folder_id, #[trigger] scans[i]) == Some(
                    Ok::<NamespaceView, SkippedView>(
                        #[trigger] surveyed(folder_id, scans).namespaces[j],
                    ),
                ),
    decreases scans.len(),
{
    if scans.len() > 0 {
        let front = scans.drop_last();
        lemma_listing_is_partial(folder_id, front);
        let all = surveyed(folder_id, scans);
        let before = surveyed(folder_id, front);
        assert forall|i: int| 0 <= i < scans.len() implies match #[trigger] visit_outcome(
            folder_id,
            scans[i],
        ) {
            Some(Ok(namespace)) => all.namespaces.contains(namespace),
            Some(Err(skipped)) => all.skipped.contains(skipped),
            None => true,
        } by {
            if i < scans.len() - 1 {
                assert(front[i] == scans[i]);
                match visit_outcome(folder_id, scans[i]) {
                    Some(Ok(namespace)) => {
                        let j = choose|j: int|
                            0 <= j < before.namespaces.len() && before.namespaces[j] == namespace;
                        assert(all.namespaces[j] == namespace);
                    },
                    Some(Err(skipped)) => {
                        let j = choose|j: int|
                            0 <= j < before.skipped.len() && before.skipped[j] == skipped;
                        assert(all.skipped[j] == skipped);
                    },
                    None => {},
                }
            } else {
                match visit_outcome(folder_id, scans[i]) {
                    Some(Ok(namespace)) => {
                        assert(all.namespaces[all.namespaces.len() - 1] == namespace);
                    },
                    Some(Err(skipped)) => {
                        assert(all.skipped[all.skipped.len() - 1] == skipped);
                    },
                    None => {},
                }
            }
        }
        assert forall|j: int| 0 <= j < all.namespaces.len() implies exists|i: int|
            0 <= i < scans.len() && visit_outcome(folder_id, #[trigger] scans[i]) == Some(
                Ok::<NamespaceView, SkippedView>(#[trigger] all.namespaces[j]),
            ) by {
            if j < before.namespaces.len() {
                assert(all.namespaces[j] == before.namespaces[j]);
                let i = choose|i: int|
                    0 <= i < front.len() && visit_outcome(folder_id, #[trigger] front[i]) == Some(
                        Ok::<NamespaceView, SkippedView>(before.namespaces[j]),
                    );
                assert(scans[i] == front[i]);
            } else {
                assert(visit_outcome(folder_id, scans[scans.len() - 1]) == Some(
                    Ok::<NamespaceView, SkippedView>(all.namespaces[j]),
                ));
            }
        }
    }
}

/// The value that the blob file `blob_id` holds.
pub fn read_blob_value(blobs: &Vec<BlobFile>, blob_id: &str) -> (value: Option<Json>)
    ensures
        option_view(value) == blob_value(views(blobs@), blob_id@),
{
    let mut i: usize = 0;
    assert(views(blobs@).skip(0) =~= views(blobs@));
    while i < blobs.len()
        invariant
            i <= blobs.len(),
            find_blob(views(blobs@), blob_id@) == find_blob(
                views(blobs@).skip(i as int),
                blob_id@,
            ),
        decreases blobs.len() - i,
    {
        let ghost rest = views(blobs@).skip(i as int);
        assert(rest[0] == blobs@[i as int]@);
        if str_eq(blobs[i].name.as_str(), blob_id) {
            return match &blobs[i].content {
                Some(raw) => decode(raw.as_slice()),
                None => None,
            };
        }
        assert(rest.drop_first() =~= views(blobs@).skip(i + 1));
        i += 1;
    }
    None
}

/// The entry of the namespace `namespace_id` that `row` stands for.
pub fn build_entry(namespace_id: &str, row: &CatalogRow, blobs: &Vec<BlobFile>) -> (entry: KVEntry)
    ensures
        entry@ == local_entry(namespace_id@, row@, views(blobs@)),
{
    let mut id: Vec<char> = Vec::new();
    push_str(&mut id, namespace_id);
    push_str(&mut id, "-");
    push_str(&mut id, row.blob_id.as_str());
    assert(id@ =~= namespace_id@ + "-"@ + row.blob_id@);
    KVEntry {
        id: string_of(&id),
        key: row.key.clone(),
        blob_id: row.blob_id.clone(),
        expiration: row.expiration,
        metadata: match &row.metadata {
            Some(metadata) => Some(metadata.clone()),
            None => None,
        },
        value: read_blob_value(blobs, row.blob_id.as_str()),
    }
}

/// The namespace that the directory `raw_name` of folder `folder_id` is,
/// with the catalog's `rows` as its entries.
pub fn build_namespace(
    folder_id: i64,
    raw_name: &str,
    rows: &Vec<CatalogRow>,
    blobs: &Vec<BlobFile>,
) -> (namespace: KVNamespace)
    ensures
        namespace@ == local_namespace(folder_id, raw_name@, views(rows@), views(blobs@)),
{
    let id = local_namespace_id(folder_id, raw_name);
    let mut entries: Vec<KVEntry> = Vec::new();
    let mut i: usize = 0;
    while i < rows.len()
        invariant
            i <= rows.len(),
            views(entries@) == local_entries(id@, views(rows@), views(blobs@)).take(i as int),
        decreases rows.len() - i,
    {
        let entry = build_entry(id.as_str(), &rows[i], blobs);
        proof {
            lemma_views_push(entries@, entry);
        }
        entries.push(entry);
        i += 1;
        assert(views(entries@) =~= local_entries(id@, views(rows@), views(blobs@)).take(
            i as int,
        ));
    }
    assert(views(entries@) =~= local_entries(id@, views(rows@), views(blobs@)));
    let count = entries.len();
    KVNamespace {
        id,
        entries,
        name: raw_name.to_uppercase(),
        kind: NamespaceKind::Local,
        account_id: None,
        folder_id: Some(folder_id),
        count: Some(count),
    }
}

/// The rows that a look for the catalog gives.
pub fn rows_of_catalog(catalog: &CatalogScan) -> (rows: Result<&Vec<CatalogRow>, KvError>)
    ensures
        match rows {
            Ok(found) => catalog_rows(catalog@) == Ok::<Seq<RowView>, KvErrorView>(
                views(found@),
            ),
            Err(e) => catalog_rows(catalog@) == Err::<Seq<RowView>, KvErrorView>(e@),
        },
{
    match find_catalog_file(&catalog.files) {
        Some(position) => {
            assert(has_catalog(views(catalog.files@)));
            match &catalog.rows {
                Some(rows) => Ok(rows),
                None => Err(KvError::CatalogUnavailable),
            }
        },
        None => Err(KvError::CatalogMissing),
    }
}

/// The namespaces of folder `folder_id` and the namespace directories that
/// are left out, with the reason for each. A root without a `kv` directory
/// gives an error and never a part of a listing; a namespace directory
/// whose catalog does not resolve is left out and fails nothing.
pub fn survey(folder_id: i64, scan: &FolderScan) -> (outcome: Result<Survey, KvError>)
    ensures
        crate::error::result_view(outcome) == survey_result(folder_id, scan@),
{
    let scans = match scan {
        FolderScan::Missing => {
            return Err(KvError::NotAKvRoot);
        },
        FolderScan::Unreadable => {
            return Err(KvError::KvRootUnreadable);
        },
        FolderScan::Found(scans) => scans,
    };
    let mut namespaces: Vec<KVNamespace> = Vec::new();
    let mut skipped: Vec<SkippedNamespace> = Vec::new();
    let mut i: usize = 0;
    assert(views(scans@).take(0) =~= Seq::<NamespaceScanView>::empty());
    assert(views(namespaces@) =~= Seq::<NamespaceView>::empty());
    assert(views(skipped@) =~= Seq::<SkippedView>::empty());
    while i < scans.len()
        invariant
            i <= scans.len(),
            views(namespaces@) == surveyed(folder_id, views(scans@).take(i as int)).namespaces,
            views(skipped@) == surveyed(folder_id, views(scans@).take(i as int)).skipped,
        decreases scans.len() - i,
    {
        proof {
            let front = views(scans@).take(i + 1);
            assert(front.drop_last() =~= views(scans@).take(i as int));
            assert(front.last() == scans@[i as int]@);
        }
        let visit = &scans[i];
        if names_namespace(&visit.entry) {
            match rows_of_catalog(&visit.catalog) {
                Ok(rows) => {
                    let namespace = build_namespace(
                        folder_id,
                        visit.entry.name.as_str(),
                        rows,
                        &visit.blobs,
                    );
                    proof {
                        lemma_views_push(namespaces@, namespace);
                    }
                    namespaces.push(namespace);
                },
                Err(reason) => {
                    let left_out = SkippedNamespace { raw_name: visit.entry.name.clone(), reason };
                    proof {
                        lemma_views_push(skipped@, left_out);
                    }
                    skipped.push(left_out);
                },
            }
        }
        i += 1;
    }
    assert(views(scans@).take(scans@.len() as int) =~= views(scans@));
    Ok(Survey { namespaces, skipped })
}

/// The namespaces of folder `folder_id`, each with its entries and, where a
/// blob file holds JSON, their values.
pub fn list_namespaces(folder_id: i64, scan: &FolderScan) -> (outcome: Result<
    Vec<KVNamespace>,
    KvError,
>)
    ensures
        crate::error::list_result_view(outcome) == listing_result(folder_id, scan@),
{
    match survey(folder_id, scan) {
        Ok(found) => Ok(found.namespaces),
        Err(e) => Err(e),
    }
}

} // verus!
