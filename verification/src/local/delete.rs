//! Deleting several keys as one unit of the catalog: what to do next, given
//! what the last step came to. The caller does each step on the catalog and
//! on the blob files and reports back.

use crate::error::{unit_result_view, KvError, KvErrorView};
use crate::local::catalog::{
    blob_file_path, blob_file_steps, catalog_position, find_catalog_file, has_catalog,
    lemma_catalog_position,
};
use crate::views::views;
use vstd::prelude::*;

verus! {

/// The step that the caller is to do next.
#[derive(Debug, PartialEq, Eq)]
pub enum DeleteAction {
    /// List the names in the catalog directory, in directory order.
    ListCatalog,
    /// Open the catalog database `file` of the catalog directory.
    OpenCatalog { file: String },
    /// Begin a transaction on the catalog.
    Begin,
    /// Look up the blob id of the first row for `key`.
    FindBlob { key: String },
    /// Delete the rows for `key`.
    DeleteRow { key: String },
    /// Remove the blob file at `path` below the `kv` directory, if it is
    /// there.
    RemoveBlob { path: Vec<String> },
    /// Commit the transaction.
    Commit,
    /// Roll the transaction back; whether that works is of no account.
    Rollback,
    /// Stop, and hand this to the caller of the batch.
    Finish(Result<(), KvError>),
}

/// Mathematical model of a [`DeleteAction`].
pub enum DeleteActionView {
    ListCatalog,
    OpenCatalog { file: Seq<char> },
    Begin,
    FindBlob { key: Seq<char> },
    DeleteRow { key: Seq<char> },
    RemoveBlob { path: Seq<Seq<char>> },
    Commit,
    Rollback,
    Finish(Result<(), KvErrorView>),
}

impl View for DeleteAction {
    type V = DeleteActionView;

    open spec fn view(&self) -> DeleteActionView {
        match *self {
            DeleteAction::ListCatalog => DeleteActionView::ListCatalog,
            DeleteAction::OpenCatalog { file } => DeleteActionView::OpenCatalog { file: file@ },
            DeleteAction::Begin => DeleteActionView::Begin,
            DeleteAction::FindBlob { key } => DeleteActionView::FindBlob { key: key@ },
            DeleteAction::DeleteRow { key } => DeleteActionView::DeleteRow { key: key@ },
            DeleteAction::RemoveBlob { path } => DeleteActionView::RemoveBlob {
                path: views(path@),
            },
            DeleteAction::Commit => DeleteActionView::Commit,
            DeleteAction::Rollback => DeleteActionView::Rollback,
            DeleteAction::Finish(outcome) => DeleteActionView::Finish(unit_result_view(outcome)),
        }
    }
}

/// What the last step came to.
#[derive(Debug, PartialEq, Eq)]
pub enum DeleteEvent {
    /// The names that the catalog directory holds.
    Files(Vec<String>),
    /// The step was done. A blob file that was not there counts as removed.
    Done,
    /// The step failed.
    Failed,
    /// The lookup found this blob id.
    Found(String),
    /// The lookup found no row for the key.
    NotFound,
}

/// Mathematical model of a [`DeleteEvent`].
pub enum DeleteEventView {
    Files(Seq<Seq<char>>),
    Done,
    Failed,
    Found(Seq<char>),
    NotFound,
}

impl View for DeleteEvent {
    type V = DeleteEventView;

    open spec fn view(&self) -> DeleteEventView {
        match *self {
            DeleteEvent::Files(names) => DeleteEventView::Files(views(names@)),
            DeleteEvent::Done => DeleteEventView::Done,
            DeleteEvent::Failed => DeleteEventView::Failed,
            DeleteEvent::Found(blob_id) => DeleteEventView::Found(blob_id@),
            DeleteEvent::NotFound => DeleteEventView::NotFound,
        }
    }
}

/// A batch of keys to delete from the namespace directory `raw_name`, and
/// how far it has come.
#[derive(Debug)]
pub struct DeleteBatch {
    raw_name: String,
    keys: Vec<String>,
    progress: Progress,
}

/// How far a batch has come: how many keys are done, and what is in turn.
#[derive(Debug)]
struct Progress {
    position: usize,
    stage: Stage,
}

/// What is in turn in a batch.
#[derive(Debug)]
enum Stage {
    Listing,
    Opening { file: String },
    Starting,
    Finding,
    Deleting { blob_id: String },
    Removing { blob_id: String },
    Committing,
    RollingBack { failure: KvError },
    Finished { outcome: Result<(), KvError> },
}

/// What is in turn in a batch.
pub enum StageView {
    /// The catalog database is to be found among the names in its directory.
    Listing,
    /// The catalog database is `file`, and it is to be opened.
    Opening { file: Seq<char> },
    /// The transaction is to be begun.
    Starting,
    /// The blob id of the key in turn is to be looked up.
    Finding,
    /// The catalog rows of the key in turn are to be deleted; its blob id is
    /// `blob_id`.
    Deleting { blob_id: Seq<char> },
    /// The blob file `blob_id` of the key in turn is to be removed.
    Removing { blob_id: Seq<char> },
    /// Every key is done, and the transaction is to be committed.
    Committing,
    /// A step failed by `failure`, and the transaction is to be rolled back.
    RollingBack { failure: KvErrorView },
    /// Nothing is left to do, and `outcome` is what the batch came to.
    Finished { outcome: Result<(), KvErrorView> },
}

/// Mathematical model of a [`DeleteBatch`].
pub struct BatchView {
    pub raw_name: Seq<char>,
    pub keys: Seq<Seq<char>>,
    /// How many keys are done.
    pub position: nat,
    pub stage: StageView,
}

impl BatchView {
    /// A batch that has nothing done yet.
    pub open spec fn start(raw_name: Seq<char>, keys: Seq<Seq<char>>) -> BatchView {
        BatchView { raw_name, keys, position: 0, stage: StageView::Listing }
    }

    /// What every batch keeps to: a key is in turn while one is looked up,
    /// deleted or its blob removed, and the commit comes when every key is
    /// done.
    pub open spec fn well_formed(self) -> bool {
        &&& self.position <= self.keys.len()
        &&& match self.stage {
            StageView::Finding | StageView::Deleting { .. } | StageView::Removing { .. } => {
                self.position < self.keys.len()
            },
            StageView::Committing => self.position == self.keys.len(),
            _ => true,
        }
    }

    /// The key in turn.
    pub open spec fn key(self) -> Seq<char> {
        self.keys[self.position as int]
    }

    /// The batch with the key at `position` in turn: it is to be looked up,
    /// or the commit is due where no key is left.
    pub open spec fn turn(self, position: nat) -> BatchView {
        BatchView {
            position,
            stage: if position < self.keys.len() {
                StageView::Finding
            } else {
                StageView::Committing
            },
            ..self
        }
    }

    /// The batch after a step failed inside the transaction: the rollback
    /// comes next, and `failure` is kept for the end.
    pub open spec fn fail(self, failure: KvErrorView) -> BatchView {
        BatchView { stage: StageView::RollingBack { failure }, ..self }
    }

    /// The step to do next.
    pub open spec fn action(self) -> DeleteActionView {
        match self.stage {
            StageView::Listing => DeleteActionView::ListCatalog,
            StageView::Opening { file } => DeleteActionView::OpenCatalog { file },
            StageView::Starting => DeleteActionView::Begin,
            StageView::Finding => DeleteActionView::FindBlob { key: self.key() },
            StageView::Deleting { .. } => DeleteActionView::DeleteRow { key: self.key() },
            StageView::Removing { blob_id } => DeleteActionView::RemoveBlob {
                path: blob_file_steps(self.raw_name, blob_id),
            },
            StageView::Committing => DeleteActionView::Commit,
            StageView::RollingBack { .. } => DeleteActionView::Rollback,
            StageView::Finished { outcome } => DeleteActionView::Finish(outcome),
        }
    }

    /// The batch at its end with `outcome`.
    pub open spec fn finish(self, outcome: Result<(), KvErrorView>) -> BatchView {
        BatchView { stage: StageView::Finished { outcome }, ..self }
    }

    /// The batch after the step of [`Self::action`] came to `event`. The
    /// catalog is the first of the listed names that is named as one; then
    /// it is opened and the transaction begun; then each key in its turn is
    /// looked up, its rows are deleted and its blob file is removed; and
    /// after the last key the transaction is committed. A step that fails
    /// before the transaction has begun ends the batch; one that fails later
    /// is answered by a rollback first.
    pub open spec fn step(self, event: DeleteEventView) -> BatchView {
        match self.stage {
            StageView::Listing => match event {
                DeleteEventView::Files(names) => if has_catalog(names) {
                    BatchView {
                        stage: StageView::Opening { file: names[catalog_position(names)] },
                        ..self
                    }
                } else {
                    self.finish(Err(KvErrorView::CatalogMissing))
                },
                _ => self.finish(Err(KvErrorView::CatalogMissing)),
            },
            StageView::Opening { .. } => match event {
                DeleteEventView::Done => BatchView { stage: StageView::Starting, ..self },
                _ => self.finish(Err(KvErrorView::CatalogUnavailable)),
            },
            StageView::Starting => match event {
                DeleteEventView::Done => self.turn(self.position),
                _ => self.finish(Err(KvErrorView::TransactionFailed)),
            },
            StageView::Finding => match event {
                DeleteEventView::Found(blob_id) => BatchView {
                    stage: StageView::Deleting { blob_id },
                    ..self
                },
                DeleteEventView::NotFound => self.fail(KvErrorView::KeyNotFound(self.key())),
                _ => self.fail(KvErrorView::CatalogUnavailable),
            },
            StageView::Deleting { blob_id } => match event {
                DeleteEventView::Done => BatchView {
                    stage: StageView::Removing { blob_id },
                    ..self
                },
                _ => self.fail(KvErrorView::RowDeleteFailed(self.key())),
            },
            StageView::Removing { .. } => match event {
                DeleteEventView::Done => self.turn(self.position + 1),
                _ => self.fail(KvErrorView::BlobDeleteFailed(self.key())),
            },
            StageView::Committing => match event {
                DeleteEventView::Done => self.finish(Ok(())),
                _ => self.fail(KvErrorView::CommitFailed),
            },
            StageView::RollingBack { failure } => self.finish(Err(failure)),
            StageView::Finished { .. } => self,
        }
    }

    /// How many steps the batch has before it at most.
    pub open spec fn steps_left(self) -> nat {
        let keys_left = (self.keys.len() - self.position) as nat;
        match self.stage {
            StageView::Listing => 3 * keys_left + 5,
            StageView::Opening { .. } => 3 * keys_left + 4,
            StageView::Starting => 3 * keys_left + 3,
            StageView::Finding => 3 * keys_left + 2,
            StageView::Deleting { .. } => 3 * keys_left + 1,
            StageView::Removing { .. } => 3 * keys_left,
            StageView::Committing => 2,
            StageView::RollingBack { .. } => 1,
            StageView::Finished { .. } => 0,
        }
    }

    /// The batch after the steps came to `events`, one after the other.
    pub open spec fn run(self, events: Seq<DeleteEventView>) -> BatchView
        decreases events.len(),
    {
        if events.len() == 0 {
            self
        } else {
            self.run(events.drop_last()).step(events.last())
        }
    }
}

/// Every step keeps a batch well formed.
pub proof fn lemma_step_keeps_well_formed(batch: BatchView, event: DeleteEventView)
    requires
        batch.well_formed(),
    ensures
        batch.step(event).well_formed(),
        batch.step(event).keys == batch.keys,
        batch.step(event).raw_name == batch.raw_name,
{
}

/// Every step brings a batch nearer to its end, whatever it comes to: a
/// batch of `n` keys ends after `3 * n + 5` steps at most.
pub proof fn lemma_step_comes_nearer(batch: BatchView, event: DeleteEventView)
    requires
        batch.well_formed(),
        !(batch.stage is Finished),
    ensures
        batch.step(event).steps_left() < batch.steps_left(),
{
}

/// Whatever the steps come to, the batch stays well formed; so the commit
/// is asked for only when every key of the batch is done and no step has
/// failed.
pub proof fn lemma_commit_only_after_every_key(
    raw_name: Seq<char>,
    keys: Seq<Seq<char>>,
    events: Seq<DeleteEventView>,
)
    ensures
        BatchView::start(raw_name, keys).run(events).well_formed(),
        BatchView::start(raw_name, keys).run(events).keys == keys,
        BatchView::start(raw_name, keys).run(events).action() == DeleteActionView::Commit ==> {
            &&& BatchView::start(raw_name, keys).run(events).position == keys.len()
            &&& BatchView::start(raw_name, keys).run(events).stage is Committing
        },
    decreases events.len(),
{
    if events.len() > 0 {
        lemma_commit_only_after_every_key(raw_name, keys, events.drop_last());
        lemma_step_keeps_well_formed(
            BatchView::start(raw_name, keys).run(events.drop_last()),
            events.last(),
        );
    }
}

/// Whether `stage` lies inside the transaction: after it was begun and
/// before it is committed or rolled back.
pub open spec fn in_transaction(stage: StageView) -> bool {
    stage is Finding || stage is Deleting || stage is Removing || stage is Committing
}

/// A step that fails inside the transaction is answered by a rollback, and
/// the failure is handed out only after it: a batch ends by a failure
/// without a rollback before it only where the transaction has not begun.
/// And a batch ends well only by a commit that worked.
pub proof fn lemma_failure_rolls_back_first(batch: BatchView, event: DeleteEventView)
    requires
        batch.well_formed(),
    ensures
        in_transaction(batch.stage) ==> in_transaction(batch.step(event).stage) || batch.step(
            event,
        ).action() == DeleteActionView::Rollback || (batch.stage is Committing && event
            == DeleteEventView::Done),
        !(batch.stage is Finished) ==> match batch.step(event).action() {
            DeleteActionView::Finish(Err(failure)) => batch.stage == (StageView::RollingBack {
                failure,
            }) || batch.stage is Listing || batch.stage is Opening || batch.stage is Starting,
            DeleteActionView::Finish(Ok(_)) => batch.stage is Committing && event
                == DeleteEventView::Done,
            _ => true,
        },
{
}

impl Stage {
    /// What the stage stands for.
    spec fn view(self) -> StageView {
        match self {
            Stage::Listing => StageView::Listing,
            Stage::Opening { file } => StageView::Opening { file: file@ },
            Stage::Starting => StageView::Starting,
            Stage::Finding => StageView::Finding,
            Stage::Deleting { blob_id } => StageView::Deleting { blob_id: blob_id@ },
            Stage::Removing { blob_id } => StageView::Removing { blob_id: blob_id@ },
            Stage::Committing => StageView::Committing,
            Stage::RollingBack { failure } => StageView::RollingBack { failure: failure@ },
            Stage::Finished { outcome } => StageView::Finished {
                outcome: unit_result_view(outcome),
            },
        }
    }
}

impl View for DeleteBatch {
    type V = BatchView;

    closed spec fn view(&self) -> BatchView {
        BatchView {
            raw_name: self.raw_name@,
            keys: views(self.keys@),
            position: self.progress.position as nat,
            stage: self.progress.stage.view(),
        }
    }
}

impl DeleteBatch {
    #[verifier::type_invariant]
    spec fn keeps_well_formed(self) -> bool {
        self@.well_formed()
    }

    /// A batch that deletes `keys` from the namespace directory `raw_name`.
    pub fn new(raw_name: String, keys: Vec<String>) -> (batch: DeleteBatch)
        ensures
            batch@ == BatchView::start(raw_name@, views(keys@)),
            batch@.well_formed(),
    {
        DeleteBatch { raw_name, keys, progress: Progress { position: 0, stage: Stage::Listing } }
    }

    /// The key in turn.
    fn key(&self) -> (key: String)
        requires
            self.progress.position < self.keys.len(),
        ensures
            key@ == self@.key(),
    {
        assert(views(self.keys@)[self.progress.position as int]
            == self.keys@[self.progress.position as int]@);
        self.keys[self.progress.position].clone()
    }

    /// The step to do next.
    pub fn next_action(&self) -> (action: DeleteAction)
        ensures
            action@ == self@.action(),
            self@.well_formed(),
    {
        proof {
            use_type_invariant(self);
        }
        match &self.progress.stage {
            Stage::Listing => DeleteAction::ListCatalog,
            Stage::Opening { file } => DeleteAction::OpenCatalog { file: file.clone() },
            Stage::Starting => DeleteAction::Begin,
            Stage::Finding => DeleteAction::FindBlob { key: self.key() },
            Stage::Deleting { .. } => DeleteAction::DeleteRow { key: self.key() },
            Stage::Removing { blob_id } => DeleteAction::RemoveBlob {
                path: blob_file_path(self.raw_name.as_str(), blob_id.as_str()),
            },
            Stage::Committing => DeleteAction::Commit,
            Stage::RollingBack { .. } => DeleteAction::Rollback,
            Stage::Finished { outcome } => DeleteAction::Finish(
                match outcome {
                    Ok(_) => Ok(()),
                    Err(failure) => Err(failure.clone()),
                },
            ),
        }
    }

    /// Takes note of what the step of [`Self::next_action`] came to.
    pub fn record(&mut self, event: DeleteEvent)
        ensures
            final(self)@ == old(self)@.step(event@),
            old(self)@.well_formed(),
            final(self)@.well_formed(),
    {
        proof {
            use_type_invariant(&*self);
            lemma_step_keeps_well_formed(self@, event@);
        }
        let next = self.advance(event);
        self.progress = next;
    }

    /// Where the batch stands after the step came to `event`.
    fn advance(&self, event: DeleteEvent) -> (next: Progress)
        requires
            self@.well_formed(),
        ensures
            (DeleteBatch { raw_name: self.raw_name, keys: self.keys, progress: next })@
                == self@.step(event@),
    {
        let position = self.progress.position;
        match &self.progress.stage {
            Stage::Listing => match event {
                DeleteEvent::Files(names) => match find_catalog_file(&names) {
                    Some(found) => {
                        proof {
                            lemma_catalog_position(views(names@), found as int);
                            assert(views(names@)[found as int] == names@[found as int]@);
                        }
                        Progress { position, stage: Stage::Opening { file: names[found].clone() } }
                    },
                    None => self.finished(Err(KvError::CatalogMissing)),
                },
                _ => self.finished(Err(KvError::CatalogMissing)),
            },
            Stage::Opening { .. } => match event {
                DeleteEvent::Done => Progress { position, stage: Stage::Starting },
                _ => self.finished(Err(KvError::CatalogUnavailable)),
            },
            Stage::Starting => match event {
                DeleteEvent::Done => self.turn_to(position),
                _ => self.finished(Err(KvError::TransactionFailed)),
            },
            Stage::Finding => match event {
                DeleteEvent::Found(blob_id) => Progress {
                    position,
                    stage: Stage::Deleting { blob_id },
                },
                DeleteEvent::NotFound => self.failed(KvError::KeyNotFound(self.key())),
                _ => self.failed(KvError::CatalogUnavailable),
            },
            Stage::Deleting { blob_id } => match event {
                DeleteEvent::Done => Progress {
                    position,
                    stage: Stage::Removing { blob_id: blob_id.clone() },
                },
                _ => self.failed(KvError::RowDeleteFailed(self.key())),
            },
            Stage::Removing { .. } => match event {
                DeleteEvent::Done => {
                    assert(self@.position < self@.keys.len() == self.keys.len());
                    self.turn_to(position + 1)
                },
                _ => self.failed(KvError::BlobDeleteFailed(self.key())),
            },
            Stage::Committing => match event {
                DeleteEvent::Done => self.finished(Ok(())),
                _ => self.failed(KvError::CommitFailed),
            },
            Stage::RollingBack { failure } => self.finished(Err(failure.clone())),
            Stage::Finished { outcome } => self.finished(
                match outcome {
                    Ok(_) => Ok(()),
                    Err(failure) => Err(failure.clone()),
                },
            ),
        }
    }

    /// Where the batch stands when the key at `position` is in turn, or the
    /// commit where none is left.
    fn turn_to(&self, position: usize) -> (next: Progress)
        ensures
            (DeleteBatch { raw_name: self.raw_name, keys: self.keys, progress: next })@
                == self@.turn(position as nat),
    {
        Progress {
            position,
            stage: if position < self.keys.len() {
                Stage::Finding
            } else {
                Stage::Committing
            },
        }
    }

    /// Where the batch stands at its end with `outcome`.
    fn finished(&self, outcome: Result<(), KvError>) -> (next: Progress)
        ensures
            (DeleteBatch { raw_name: self.raw_name, keys: self.keys, progress: next })@
                == self@.finish(unit_result_view(outcome)),
    {
        Progress { position: self.progress.position, stage: Stage::Finished { outcome } }
    }

    /// Where the batch stands after a step failed inside the transaction.
    fn failed(&self, failure: KvError) -> (next: Progress)
        ensures
            (DeleteBatch { raw_name: self.raw_name, keys: self.keys, progress: next })@
                == self@.fail(failure@),
    {
        Progress { position: self.progress.position, stage: Stage::RollingBack { failure } }
    }

    /// Whether nothing is left to do.
    pub fn is_finished(&self) -> (yes: bool)
        ensures
            yes == (self@.stage is Finished),
    {
        match &self.progress.stage {
            Stage::Finished { .. } => true,
            _ => false,
        }
    }
}

} // verus!
