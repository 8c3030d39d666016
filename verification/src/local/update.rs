//! Replacing the value of one key: only the blob file changes, and only
//! once the new text is known to be JSON. The caller does each step on the
//! catalog and on the blob file and reports back; what to do next, given
//! what the last step came to, is said here.

use crate::codec::encode;
use crate::error::{result_view, unit_result_view, KvError, KvErrorView};
use crate::json::json_of_text;
use crate::local::catalog::{
    blob_file_path, blob_file_steps, catalog_position, find_catalog_file, has_catalog,
    lemma_catalog_position,
};
use crate::views::{lemma_views_push, views};
use vstd::prelude::*;
use vstd::slice::slice_to_vec;
use vstd::utf8::encode_utf8;

verus! {

/// A blob file to overwrite: where it lies below the `kv` directory, and
/// the bytes to put into it.
#[derive(Debug, PartialEq, Eq)]
pub struct BlobWrite {
    pub path: Vec<String>,
    pub content: Vec<u8>,
}

/// Mathematical model of a [`BlobWrite`].
pub struct BlobWriteView {
    pub path: Seq<Seq<char>>,
    pub content: Seq<u8>,
}

impl View for BlobWrite {
    type V = BlobWriteView;

    open spec fn view(&self) -> BlobWriteView {
        BlobWriteView { path: views(self.path@), content: self.content@ }
    }
}

/// What is written for the new value `value` of a key whose blob file is
/// `blob_id` in the namespace directory `raw_name`: the file has to be
/// there already, and then the text has to be JSON; it is written as it
/// stands.
pub open spec fn write_plan(
    raw_name: Seq<char>,
    blob_id: Seq<char>,
    exists: bool,
    value: Seq<char>,
) -> Result<BlobWriteView, KvErrorView> {
    if !exists {
        Err(KvErrorView::BlobMissing)
    } else if json_of_text(value) is None {
        Err(KvErrorView::InvalidJson)
    } else {
        Ok(BlobWriteView { path: blob_file_steps(raw_name, blob_id), content: encode_utf8(value) })
    }
}

/// What to write for the new value `value` of a key whose blob file is
/// `blob_id` in the namespace directory `raw_name`, given whether that file
/// `exists`.
pub fn plan_write(raw_name: &str, blob_id: &str, exists: bool, value: &str) -> (plan: Result<
    BlobWrite,
    KvError,
>)
    ensures
        result_view(plan) == write_plan(raw_name@, blob_id@, exists, value@),
{
    if !exists {
        return Err(KvError::BlobMissing);
    }
    match encode(value) {
        Ok(content) => Ok(BlobWrite { path: blob_file_path(raw_name, blob_id), content }),
        Err(e) => Err(e),
    }
}

/// The step of an update that the caller is to do next.
#[derive(Debug, PartialEq, Eq)]
pub enum UpdateAction {
    /// List the names in the catalog directory, in directory order.
    ListCatalog,
    /// Open the catalog database `file` of the catalog directory and look up
    /// the blob id of the first row for `key`.
    FindBlob { file: String, key: String },
    /// See whether the blob file at `path` below the `kv` directory is there.
    ProbeBlob { path: Vec<String> },
    /// Put the bytes of `write` into the blob file that it names.
    WriteBlob { write: BlobWrite },
    /// Stop, and hand this to the caller of the update.
    Finish(Result<(), KvError>),
}

/// Mathematical model of an [`UpdateAction`].
pub enum UpdateActionView {
    ListCatalog,
    FindBlob { file: Seq<char>, key: Seq<char> },
    ProbeBlob { path: Seq<Seq<char>> },
    WriteBlob { write: BlobWriteView },
    Finish(Result<(), KvErrorView>),
}

impl View for UpdateAction {
    type V = UpdateActionView;

    open spec fn view(&self) -> UpdateActionView {
        match *self {
            UpdateAction::ListCatalog => UpdateActionView::ListCatalog,
            UpdateAction::FindBlob { file, key } => UpdateActionView::FindBlob {
                file: file@,
                key: key@,
            },
            UpdateAction::ProbeBlob { path } => UpdateActionView::ProbeBlob { path: views(path@) },
            UpdateAction::WriteBlob { write } => UpdateActionView::WriteBlob { write: write@ },
            UpdateAction::Finish(outcome) => UpdateActionView::Finish(unit_result_view(outcome)),
        }
    }
}

/// What the last step of an update came to.
#[derive(Debug, PartialEq, Eq)]
pub enum UpdateEvent {
    /// The names that the catalog directory holds.
    Files(Vec<String>),
    /// The lookup found this blob id.
    Found(String),
    /// The lookup found no row for the key.
    NotFound,
    /// The blob file is there.
    Present,
    /// The blob file is not there.
    Absent,
    /// The step was done.
    Done,
    /// The step failed.
    Failed,
}

/// Mathematical model of an [`UpdateEvent`].
pub enum UpdateEventView {
    Files(Seq<Seq<char>>),
    Found(Seq<char>),
    NotFound,
    Present,
    Absent,
    Done,
    Failed,
}

impl View for UpdateEvent {
    type V = UpdateEventView;

    open spec fn view(&self) -> UpdateEventView {
        match *self {
            UpdateEvent::Files(names) => UpdateEventView::Files(views(names@)),
            UpdateEvent::Found(blob_id) => UpdateEventView::Found(blob_id@),
            UpdateEvent::NotFound => UpdateEventView::NotFound,
            UpdateEvent::Present => UpdateEventView::Present,
            UpdateEvent::Absent => UpdateEventView::Absent,
            UpdateEvent::Done => UpdateEventView::Done,
            UpdateEvent::Failed => UpdateEventView::Failed,
        }
    }
}

/// What is in turn in an update.
#[derive(Debug)]
enum UpdateStage {
    Listing,
    Finding { file: String },
    Probing { blob_id: String },
    Writing { write: BlobWrite },
    Finished { outcome: Result<(), KvError> },
}

/// What is in turn in an update.
pub enum UpdateStageView {
    /// The catalog database is to be found among the names in its directory.
    Listing,
    /// The catalog database is `file`, and the blob id of the key is to be
    /// looked up in it.
    Finding { file: Seq<char> },
    /// The blob id of the key is `blob_id`, and the blob file is to be looked
    /// for.
    Probing { blob_id: Seq<char> },
    /// The blob file is there and the text is JSON: `write` is to be done.
    Writing { write: BlobWriteView },
    /// Nothing is left to do, and `outcome` is what the update came to.
    Finished { outcome: Result<(), KvErrorView> },
}

/// The update of one key, and how far it has come.
#[derive(Debug)]
pub struct UpdateEntry {
    raw_name: String,
    key: String,
    value: String,
    stage: UpdateStage,
}

/// Mathematical model of an [`UpdateEntry`].
pub struct UpdateView {
    pub raw_name: Seq<char>,
    pub key: Seq<char>,
    pub value: Seq<char>,
    pub stage: UpdateStageView,
}

impl UpdateView {
    /// The update that replaces the value of `key` in the namespace
    /// directory `raw_name` by `value`, with nothing done yet.
    pub open spec fn start(raw_name: Seq<char>, key: Seq<char>, value: Seq<char>) -> UpdateView {
        UpdateView { raw_name, key, value, stage: UpdateStageView::Listing }
    }

    /// The update at its end with `outcome`.
    pub open spec fn finish(self, outcome: Result<(), KvErrorView>) -> UpdateView {
        UpdateView { stage: UpdateStageView::Finished { outcome }, ..self }
    }

    /// The step to do next.
    pub open spec fn action(self) -> UpdateActionView {
        match self.stage {
            UpdateStageView::Listing => UpdateActionView::ListCatalog,
            UpdateStageView::Finding { file } => UpdateActionView::FindBlob { file, key: self.key },
            UpdateStageView::Probing { blob_id } => UpdateActionView::ProbeBlob {
                path: blob_file_steps(self.raw_name, blob_id),
            },
            UpdateStageView::Writing { write } => UpdateActionView::WriteBlob { write },
            UpdateStageView::Finished { outcome } => UpdateActionView::Finish(outcome),
        }
    }

    /// The update after the step of [`Self::action`] came to `event`. The
    /// catalog is the first of the listed names that is named as one; a
    /// database that cannot be opened makes the catalog unavailable; a key
    /// without a row is not found; then [`write_plan`] says what is written;
    /// and the update is done when the write is.
    pub open spec fn step(self, event: UpdateEventView) -> UpdateView {
        match self.stage {
            UpdateStageView::Listing => match event {
                UpdateEventView::Files(names) => if has_catalog(names) {
                    UpdateView {
                        stage: UpdateStageView::Finding { file: names[catalog_position(names)] },
                        ..self
                    }
                } else {
                    self.finish(Err(KvErrorView::CatalogMissing))
                },
                _ => self.finish(Err(KvErrorView::CatalogMissing)),
            },
            UpdateStageView::Finding { .. } => match event {
                UpdateEventView::Found(blob_id) => UpdateView {
                    stage: UpdateStageView::Probing { blob_id },
                    ..self
                },
                UpdateEventView::NotFound => self.finish(Err(KvErrorView::KeyNotFound(self.key))),
                _ => self.finish(Err(KvErrorView::CatalogUnavailable)),
            },
            UpdateStageView::Probing { blob_id } => match write_plan(
                self.raw_name,
                blob_id,
                event == UpdateEventView::Present,
                self.value,
            ) {
                Ok(write) => UpdateView { stage: UpdateStageView::Writing { write }, ..self },
                Err(e) => self.finish(Err(e)),
            },
            UpdateStageView::Writing { .. } => match event {
                UpdateEventView::Done => self.finish(Ok(())),
                _ => self.finish(Err(KvErrorView::BlobWriteFailed)),
            },
            UpdateStageView::Finished { .. } => self,
        }
    }

    /// How many steps the update has before it at most.
    pub open spec fn steps_left(self) -> nat {
        match self.stage {
            UpdateStageView::Listing => 4,
            UpdateStageView::Finding { .. } => 3,
            UpdateStageView::Probing { .. } => 2,
            UpdateStageView::Writing { .. } => 1,
            UpdateStageView::Finished { .. } => 0,
        }
    }
}

/// Every step brings an update nearer to its end: it ends after four steps
/// at most, and a blob file is written only as the last of them, after the
/// key was found, the blob file seen and the text known to be JSON.
pub proof fn lemma_update_step_comes_nearer(update: UpdateView, event: UpdateEventView)
    requires
        !(update.stage is Finished),
    ensures
        update.step(event).steps_left() < update.steps_left(),
        update.step(event).action() is WriteBlob ==> {
            &&& update.stage is Probing
            &&& event == UpdateEventView::Present
            &&& json_of_text(update.value) is Some
        },
{
}

impl UpdateStage {
    /// What the stage stands for.
    spec fn view(self) -> UpdateStageView {
        match self {
            UpdateStage::Listing => UpdateStageView::Listing,
            UpdateStage::Finding { file } => UpdateStageView::Finding { file: file@ },
            UpdateStage::Probing { blob_id } => UpdateStageView::Probing { blob_id: blob_id@ },
            UpdateStage::Writing { write } => UpdateStageView::Writing { write: write@ },
            UpdateStage::Finished { outcome } => UpdateStageView::Finished {
                outcome: unit_result_view(outcome),
            },
        }
    }
}

impl View for UpdateEntry {
    type V = UpdateView;

    closed spec fn view(&self) -> UpdateView {
        UpdateView {
            raw_name: self.raw_name@,
            key: self.key@,
            value: self.value@,
            stage: self.stage.view(),
        }
    }
}

impl UpdateEntry {
    /// The update that replaces the value of `key` in the namespace
    /// directory `raw_name` by the text `value`.
    pub fn new(raw_name: String, key: String, value: String) -> (update: UpdateEntry)
        ensures
            update@ == UpdateView::start(raw_name@, key@, value@),
    {
        UpdateEntry { raw_name, key, value, stage: UpdateStage::Listing }
    }

    /// The step to do next.
    pub fn next_action(&self) -> (action: UpdateAction)
        ensures
            action@ == self@.action(),
    {
        match &self.stage {
            UpdateStage::Listing => UpdateAction::ListCatalog,
            UpdateStage::Finding { file } => UpdateAction::FindBlob {
                file: file.clone(),
                key: self.key.clone(),
            },
            UpdateStage::Probing { blob_id } => UpdateAction::ProbeBlob {
                path: blob_file_path(self.raw_name.as_str(), blob_id.as_str()),
            },
            UpdateStage::Writing { write } => UpdateAction::WriteBlob {
                write: BlobWrite {
                    path: copy_path(&write.path),
                    content: slice_to_vec(write.content.as_slice()),
                },
            },
            UpdateStage::Finished { outcome } => UpdateAction::Finish(
                match outcome {
                    Ok(_) => Ok(()),
                    Err(failure) => Err(failure.clone()),
                },
            ),
        }
    }

    /// Takes note of what the step of [`Self::next_action`] came to.
    pub fn record(&mut self, event: UpdateEvent)
        ensures
            final(self)@ == old(self)@.step(event@),
    {
        let next = match &self.stage {
            UpdateStage::Listing => match event {
                UpdateEvent::Files(names) => match find_catalog_file(&names) {
                    Some(position) => {
                        proof {
                            lemma_catalog_position(views(names@), position as int);
                            assert(views(names@)[position as int] == names@[position as int]@);
                        }
                        UpdateStage::Finding { file: names[position].clone() }
                    },
                    None => UpdateStage::Finished { outcome: Err(KvError::CatalogMissing) },
                },
                _ => UpdateStage::Finished { outcome: Err(KvError::CatalogMissing) },
            },
            UpdateStage::Finding { .. } => match event {
                UpdateEvent::Found(blob_id) => UpdateStage::Probing { blob_id },
                UpdateEvent::NotFound => UpdateStage::Finished {
                    outcome: Err(KvError::KeyNotFound(self.key.clone())),
                },
                _ => UpdateStage::Finished { outcome: Err(KvError::CatalogUnavailable) },
            },
            UpdateStage::Probing { blob_id } => {
                let present = match event {
                    UpdateEvent::Present => true,
                    _ => false,
                };
                match plan_write(
                    self.raw_name.as_str(),
                    blob_id.as_str(),
                    present,
                    self.value.as_str(),
                ) {
                    Ok(write) => UpdateStage::Writing { write },
                    Err(e) => UpdateStage::Finished { outcome: Err(e) },
                }
            },
            UpdateStage::Writing { .. } => match event {
                UpdateEvent::Done => UpdateStage::Finished { outcome: Ok(()) },
                _ => UpdateStage::Finished { outcome: Err(KvError::BlobWriteFailed) },
            },
            UpdateStage::Finished { outcome } => UpdateStage::Finished {
                outcome: match outcome {
                    Ok(_) => Ok(()),
                    Err(failure) => Err(failure.clone()),
                },
            },
        };
        self.stage = next;
    }
}

/// A second path that holds the same steps.
fn copy_path(path: &Vec<String>) -> (copy: Vec<String>)
    ensures
        views(copy@) == views(path@),
{
    let mut copy: Vec<String> = Vec::new();
    let mut i: usize = 0;
    while i < path.len()
        invariant
            i <= path.len(),
            views(copy@) == views(path@).take(i as int),
        decreases path.len() - i,
    {
        let step = path[i].clone();
        proof {
            lemma_views_push(copy@, step);
        }
        copy.push(step);
        i += 1;
        assert(views(copy@) =~= views(path@).take(i as int));
    }
    assert(views(copy@) =~= views(path@));
    copy
}

} // verus!
