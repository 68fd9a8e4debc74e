//! One build of the index, from the classified changes to the committed snapshot.
//!
//! The orchestrator owns the snapshot. A build reads it, records what was indexed
//! and what was retracted beside it, and replaces it in one step when the store has
//! confirmed a flush. Until then the snapshot is as the last build left it.

use vstd::prelude::*;
use crate::change::{
    change_of, classify, detect_changes, has_change, lookup, Change, ChangeSet,
};
use crate::errors::{is_validation, not_found, validation_error, AppError};
use crate::path_map::PathMap;
use crate::snapshot::{
    metadata_of, metadata_view, records_of, FileRecord, FileRecordView, IndexSnapshot,
};
use crate::text::{clone_strings, contains_text, lemma_texts_of_push, texts_of};
use crate::walker::FileMetadata;

verus! {

/// The blocks of a removed file, to be retracted from the store.
#[derive(Clone, Debug)]
pub struct Retraction {
    pub path: String,
    pub block_ids: Vec<String>,
}

/// What a build has to do: the files to index are the modified and the added ones
/// of `changes`, and each removed file has its retraction.
#[derive(Clone, Debug)]
pub struct BuildPlan {
    pub changes: ChangeSet,
    pub retractions: Vec<Retraction>,
}

impl BuildPlan {
    /// Whether the plan holds anything to submit or to retract.
    pub open spec fn has_work(&self) -> bool {
        self.changes.modified.len() > 0 || self.changes.added.len() > 0
            || self.retractions.len() > 0
    }

    /// Whether the build owes the store a flush before its snapshot may be
    /// committed: it does as soon as it has anything to submit or to retract.
    pub fn flush_owed(&self) -> (owed: bool)
        ensures
            owed == self.has_work(),
    {
        self.changes.modified.len() > 0 || self.changes.added.len() > 0
            || self.retractions.len() > 0
    }

    /// Whether the build may commit, given how the flush ended where one was made.
    /// A build that owes no flush may commit; one that owes a flush may commit only
    /// when the store confirmed it.
    pub fn may_commit(&self, flush: Option<bool>) -> (allowed: bool)
        ensures
            allowed == (!self.has_work() || flush == Some(true)),
    {
        if self.flush_owed() {
            match flush {
                Some(confirmed) => confirmed,
                None => false,
            }
        } else {
            true
        }
    }
}

/// How a build ended.
#[derive(Clone, Copy, Debug, PartialEq, Eq, Structural)]
pub struct BuildSummary {
    /// Files whose blocks were submitted.
    pub indexed: usize,
    /// Removed files whose blocks were retracted.
    pub retracted: usize,
    /// Files that were reported as failed.
    pub failed: usize,
    /// Whether the snapshot was replaced.
    pub committed: bool,
}

/// The metadata of each record.
pub open spec fn meta_of(records: Map<Seq<char>, FileRecordView>) -> Map<Seq<char>, FileMetadata> {
    records.map_values(|record: FileRecordView| record.meta)
}

/// Whether a path is to be indexed: it is added or modified.
pub open spec fn needs_indexing(
    scan: Map<Seq<char>, FileMetadata>,
    previous: Map<Seq<char>, FileMetadata>,
    path: Seq<char>,
) -> bool {
    change_of(scan, previous, path) == Some(Change::Added) || change_of(scan, previous, path)
        == Some(Change::Modified)
}

/// The snapshot that a build would commit: a file that was indexed has the metadata
/// of the scan and its new block ids, a file that was retracted is gone, and every
/// other file is as the previous snapshot had it.
pub open spec fn staged(
    snapshot: Map<Seq<char>, FileRecordView>,
    scan: Map<Seq<char>, FileMetadata>,
    indexed: Map<Seq<char>, Seq<Seq<char>>>,
    retracted: Set<Seq<char>>,
) -> Map<Seq<char>, FileRecordView> {
    Map::new(
        |path: Seq<char>|
            indexed.contains_key(path) || (snapshot.contains_key(path) && !retracted.contains(
                path,
            )),
        |path: Seq<char>|
            if indexed.contains_key(path) {
                FileRecordView { meta: scan[path], block_ids: indexed[path] }
            } else {
                snapshot[path]
            },
    )
}

/// The state of an orchestrator as plain values.
pub struct BuildView {
    /// The snapshot as of the last commit.
    pub snapshot: Map<Seq<char>, FileRecordView>,
    /// Whether a build is in progress.
    pub building: bool,
    /// The scan that the build in progress started from.
    pub scan: Map<Seq<char>, FileMetadata>,
    /// The block ids of each file indexed so far.
    pub indexed: Map<Seq<char>, Seq<Seq<char>>>,
    /// The removed files retracted so far.
    pub retracted: Set<Seq<char>>,
    /// The files reported as failed so far.
    pub failed: Seq<Seq<char>>,
}

/// What can happen to an orchestrator.
pub enum BuildEvent {
    /// A build starts from a scan.
    Started { scan: Map<Seq<char>, FileMetadata> },
    /// The blocks of a file were submitted, with these ids.
    Indexed { path: Seq<char>, block_ids: Seq<Seq<char>> },
    /// The blocks of a removed file were retracted.
    Retracted { path: Seq<char> },
    /// A file failed.
    Failed { path: Seq<char> },
    /// The build ends; `flushed` says whether the store confirmed a flush.
    Finished { flushed: bool },
}

impl BuildView {
    /// The snapshot that a commit would put in place now.
    pub open spec fn staged(self) -> Map<Seq<char>, FileRecordView> {
        staged(self.snapshot, self.scan, self.indexed, self.retracted)
    }

    /// The state in which no build is in progress and the snapshot is `snapshot`.
    pub open spec fn idle(snapshot: Map<Seq<char>, FileRecordView>) -> BuildView {
        BuildView {
            snapshot,
            building: false,
            scan: Map::empty(),
            indexed: Map::empty(),
            retracted: Set::empty(),
            failed: Seq::empty(),
        }
    }

    /// Whether an event is taken. A build can always start and always end; a file
    /// event needs a build in progress, and for a file to be indexed it must be
    /// added or modified, for a file to be retracted it must be removed.
    pub open spec fn accepts(self, event: BuildEvent) -> bool {
        match event {
            BuildEvent::Started { scan } => true,
            BuildEvent::Indexed { path, block_ids } => self.building && needs_indexing(
                self.scan,
                meta_of(self.snapshot),
                path,
            ),
            BuildEvent::Retracted { path } => self.building && change_of(
                self.scan,
                meta_of(self.snapshot),
                path,
            ) == Some(Change::Removed),
            BuildEvent::Failed { path } => self.building,
            BuildEvent::Finished { flushed } => true,
        }
    }

    /// Whether an event replaces the snapshot: it ends a build in progress with a
    /// confirmed flush.
    pub open spec fn commits(self, event: BuildEvent) -> bool {
        event matches BuildEvent::Finished { flushed } && flushed && self.building
    }

    /// The state after an event. An event that is not taken changes nothing.
    pub open spec fn after(self, event: BuildEvent) -> BuildView {
        if !self.accepts(event) {
            self
        } else {
            match event {
                BuildEvent::Started { scan } => BuildView {
                    building: true,
                    scan,
                    ..BuildView::idle(self.snapshot)
                },
                BuildEvent::Indexed { path, block_ids } => BuildView {
                    indexed: self.indexed.insert(path, block_ids),
                    ..self
                },
                BuildEvent::Retracted { path } => BuildView {
                    retracted: self.retracted.insert(path),
                    ..self
                },
                BuildEvent::Failed { path } => BuildView { failed: self.failed.push(path), ..self },
                BuildEvent::Finished { flushed } => BuildView::idle(
                    if flushed && self.building {
                        self.staged()
                    } else {
                        self.snapshot
                    },
                ),
            }
        }
    }

    /// The state after a run of events.
    pub open spec fn after_all(self, events: Seq<BuildEvent>) -> BuildView
        decreases events.len(),
    {
        if events.len() == 0 {
            self
        } else {
            self.after_all(events.drop_last()).after(events.last())
        }
    }

    /// What was recorded beside the snapshot belongs to the changes of the build:
    /// indexed files were added or modified, retracted files were removed.
    pub open spec fn consistent(self) -> bool {
        &&& forall|path: Seq<char>| #[trigger]
            self.indexed.contains_key(path) ==> needs_indexing(
                self.scan,
                meta_of(self.snapshot),
                path,
            )
        &&& forall|path: Seq<char>| #[trigger]
            self.retracted.contains(path) ==> change_of(self.scan, meta_of(self.snapshot), path)
                == Some(Change::Removed)
    }
}

/// What a commit settles: against the scan of the build, a file that was indexed is
/// unchanged in the staged snapshot, a file that was retracted is in neither, and any
/// other file has the class that the build found it in. So a build that follows on
/// the same scan retries exactly the files that did not complete.
pub proof fn lemma_commit_settles(view: BuildView, path: Seq<char>)
    requires
        view.consistent(),
    ensures
        view.indexed.contains_key(path) ==> change_of(view.scan, meta_of(view.staged()), path)
            == Some(Change::Unchanged),
        view.retracted.contains(path) ==> change_of(view.scan, meta_of(view.staged()), path)
            is None,
        !view.indexed.contains_key(path) && !view.retracted.contains(path) ==> change_of(
            view.scan,
            meta_of(view.staged()),
            path,
        ) == change_of(view.scan, meta_of(view.snapshot), path),
{
    let staged = view.staged();
    assert(meta_of(staged).contains_key(path) <==> staged.contains_key(path));
    assert(meta_of(view.snapshot).contains_key(path) <==> view.snapshot.contains_key(path));
    if view.indexed.contains_key(path) {
        assert(needs_indexing(view.scan, meta_of(view.snapshot), path));
    }
    if view.retracted.contains(path) {
        assert(change_of(view.scan, meta_of(view.snapshot), path) == Some(Change::Removed));
        assert(!view.indexed.contains_key(path));
    }
}

/// Idempotence: when every added or modified file of a build was indexed and every
/// removed file retracted, a build that follows the commit on the same scan finds
/// nothing modified, added or removed, and so submits nothing to the store.
pub proof fn lemma_rebuild_finds_nothing(
    view: BuildView,
    scan_keys: Seq<Seq<char>>,
    staged_keys: Seq<Seq<char>>,
    changes: ChangeSet,
)
    requires
        view.consistent(),
        forall|path: Seq<char>| #[trigger]
            needs_indexing(view.scan, meta_of(view.snapshot), path) ==> view.indexed.contains_key(
                path,
            ),
        forall|path: Seq<char>|
            #[trigger] change_of(view.scan, meta_of(view.snapshot), path) == Some(Change::Removed)
                ==> view.retracted.contains(path),
        changes.describes(scan_keys, view.scan, staged_keys, meta_of(view.staged())),
    ensures
        changes.modified.len() == 0,
        changes.added.len() == 0,
        changes.removed.len() == 0,
{
    let after = meta_of(view.staged());
    assert forall|path: Seq<char>|
        change_of(view.scan, after, path) is None || #[trigger] change_of(view.scan, after, path)
            == Some(Change::Unchanged) by {
        lemma_commit_settles(view, path);
        let found = change_of(view.scan, meta_of(view.snapshot), path);
        if !view.indexed.contains_key(path) && !view.retracted.contains(path) {
            assert(!needs_indexing(view.scan, meta_of(view.snapshot), path));
            assert(found != Some(Change::Removed));
        }
    }
    changes.lemma_nothing_to_do(scan_keys, view.scan, staged_keys, after);
}

/// Every event keeps the state consistent.
pub proof fn lemma_events_keep_consistency(view: BuildView, event: BuildEvent)
    requires
        view.consistent(),
    ensures
        view.after(event).consistent(),
{
}

/// Only a commit moves the snapshot: every other event leaves it as it was.
pub proof fn lemma_only_commit_moves_snapshot(view: BuildView, event: BuildEvent)
    ensures
        view.after(event).snapshot == if view.commits(event) {
            view.staged()
        } else {
            view.snapshot
        },
{
}

/// Crash safety: through any run of events without a commit the snapshot stays as
/// it was. A build that is interrupted after a file was indexed therefore leaves the
/// file in the class it had, and the next build on that scan takes it up again.
pub proof fn lemma_interrupted_build_is_retried(
    view: BuildView,
    events: Seq<BuildEvent>,
    scan: Map<Seq<char>, FileMetadata>,
    path: Seq<char>,
)
    requires
        forall|i: int|
            0 <= i < events.len() ==> !(#[trigger] events[i] matches BuildEvent::Finished {
                flushed,
            } && flushed),
    ensures
        view.after_all(events).snapshot == view.snapshot,
        change_of(scan, meta_of(view.after_all(events).snapshot), path) == change_of(
            scan,
            meta_of(view.snapshot),
            path,
        ),
    decreases events.len(),
{
    if events.len() > 0 {
        let front = events.drop_last();
        assert forall|i: int| 0 <= i < front.len() implies !(#[trigger] front[i]
            matches BuildEvent::Finished { flushed } && flushed) by {
            assert(front[i] == events[i]);
        }
        lemma_interrupted_build_is_retried(view, front, scan, path);
        assert(events.last() == events[events.len() - 1]);
        lemma_only_commit_moves_snapshot(view.after_all(front), events.last());
    }
}

/// A removed file that was retracted has no entry in the staged snapshot.
pub proof fn lemma_retracted_is_dropped(view: BuildView, path: Seq<char>)
    requires
        view.consistent(),
        view.retracted.contains(path),
    ensures
        !view.staged().contains_key(path),
{
    assert(change_of(view.scan, meta_of(view.snapshot), path) == Some(Change::Removed));
    if view.indexed.contains_key(path) {
        assert(needs_indexing(view.scan, meta_of(view.snapshot), path));
    }
}

/// The block ids of each indexed file as plain values.
pub open spec fn ids_view(indexed: Map<Seq<char>, Vec<String>>) -> Map<Seq<char>, Seq<Seq<char>>> {
    indexed.map_values(|ids: Vec<String>| texts_of(ids@))
}

/// Drives the builds of one index and owns its snapshot.
pub struct IndexOrchestrator {
    snapshot: IndexSnapshot,
    building: bool,
    scan: PathMap<FileMetadata>,
    indexed: PathMap<Vec<String>>,
    retracted: Vec<String>,
    failed: Vec<String>,
}

impl View for IndexOrchestrator {
    type V = BuildView;

    closed spec fn view(&self) -> BuildView {
        BuildView {
            snapshot: records_of(self.snapshot@),
            building: self.building,
            scan: self.scan@,
            indexed: ids_view(self.indexed@),
            retracted: texts_of(self.retracted@).to_set(),
            failed: texts_of(self.failed@),
        }
    }
}

/// The metadata of a snapshot is the metadata of its records.
pub proof fn lemma_meta_of_records(snapshot: Map<Seq<char>, FileRecord>)
    ensures
        meta_of(records_of(snapshot)) == metadata_view(snapshot),
{
    assert(meta_of(records_of(snapshot)) =~= metadata_view(snapshot));
}

impl IndexOrchestrator {
    /// The paths of the snapshot, in its order.
    pub closed spec fn snapshot_keys(&self) -> Seq<Seq<char>> {
        self.snapshot.keys()
    }

    #[verifier::type_invariant]
    spec fn inv(&self) -> bool {
        &&& self.snapshot.wf()
        &&& self.scan.wf()
        &&& self.indexed.wf()
        &&& self@.consistent()
        &&& texts_of(self.retracted@).no_duplicates()
    }

    /// An orchestrator for the index whose last build left `snapshot`.
    pub fn new(snapshot: IndexSnapshot) -> (orchestrator: Self)
        ensures
            orchestrator@ == BuildView::idle(records_of(snapshot@)),
            orchestrator.snapshot_keys() == snapshot.keys(),
    {
        let scan: PathMap<FileMetadata> = PathMap::new();
        let indexed: PathMap<Vec<String>> = PathMap::new();
        let retracted: Vec<String> = Vec::new();
        let failed: Vec<String> = Vec::new();
        proof {
            assert(ids_view(indexed@) =~= Map::<Seq<char>, Seq<Seq<char>>>::empty());
            assert(texts_of(retracted@) =~= Seq::<Seq<char>>::empty());
            assert(texts_of(retracted@).to_set() =~= Set::<Seq<char>>::empty());
            assert(texts_of(failed@) =~= Seq::<Seq<char>>::empty());
            use_type_invariant(&snapshot);
        }
        IndexOrchestrator { snapshot, building: false, scan, indexed, retracted, failed }
    }

    /// The snapshot as of the last commit.
    pub fn snapshot(&self) -> (snapshot: &IndexSnapshot)
        ensures
            snapshot.wf(),
            records_of(snapshot@) == self@.snapshot,
            snapshot.keys() == self.snapshot_keys(),
    {
        proof {
            use_type_invariant(self);
        }
        &self.snapshot
    }

    /// Starts a build from a fresh metadata scan, and says what it has to do. The
    /// scan is compared with the snapshot; nothing of an earlier build that was not
    /// committed is kept, and the snapshot stays as it is.
    pub fn begin_build(&mut self, scan: PathMap<FileMetadata>) -> (plan: BuildPlan)
        ensures
            final(self)@ == old(self)@.after(BuildEvent::Started { scan: scan@ }),
            final(self).snapshot_keys() == old(self).snapshot_keys(),
            plan.changes.describes(
                scan.keys(),
                scan@,
                old(self).snapshot_keys(),
                meta_of(old(self)@.snapshot),
            ),
            plan.retractions.len() == plan.changes.removed.len(),
            forall|i: int|
                0 <= i < plan.retractions.len() ==> {
                    &&& (#[trigger] plan.retractions[i]).path@ == plan.changes.removed[i]@
                    &&& old(self)@.snapshot.contains_key(plan.retractions[i].path@)
                    &&& texts_of(plan.retractions[i].block_ids@)
                        == old(self)@.snapshot[plan.retractions[i].path@].block_ids
                },
    {
        proof {
            use_type_invariant(&*self);
        }
        let mut taken = IndexOrchestrator::new(PathMap::new());
        core::mem::swap(self, &mut taken);
        let IndexOrchestrator {
            snapshot,
            building: _,
            scan: _,
            indexed: _,
            retracted: _,
            failed: _,
        } = taken;
        let previous = metadata_of(&snapshot);
        let changes = detect_changes(&scan, &previous);
        let ghost is_removed = has_change(scan@, previous@, Change::Removed);
        let mut retractions: Vec<Retraction> = Vec::new();
        let mut i: usize = 0;
        proof {
            lemma_meta_of_records(snapshot@);
            snapshot.lemma_view();
        }
        while i < changes.removed.len()
            invariant
                i <= changes.removed.len(),
                snapshot.wf(),
                previous.keys() == snapshot.keys(),
                texts_of(changes.removed@) == previous.keys().filter(is_removed),
                retractions.len() == i,
                forall|k: int|
                    0 <= k < i ==> {
                        &&& (#[trigger] retractions[k]).path@ == changes.removed[k]@
                        &&& snapshot@.contains_key(retractions[k].path@)
                        &&& texts_of(retractions[k].block_ids@) == texts_of(
                            snapshot@[retractions[k].path@].block_ids@,
                        )
                    },
            decreases changes.removed.len() - i,
        {
            let path = &changes.removed[i];
            proof {
                assert(texts_of(changes.removed@)[i as int] == path@);
                assert(previous.keys().filter(is_removed).contains(path@));
                previous.keys().lemma_filter_contains_rev(is_removed, path@);
                snapshot.lemma_view();
            }
            let block_ids = match snapshot.get(path.as_str()) {
                Some(record) => clone_strings(&record.block_ids),
                None => Vec::new(),
            };
            retractions.push(Retraction { path: path.clone(), block_ids });
            i += 1;
        }
        let indexed: PathMap<Vec<String>> = PathMap::new();
        let retracted: Vec<String> = Vec::new();
        let failed: Vec<String> = Vec::new();
        proof {
            assert(ids_view(indexed@) =~= Map::<Seq<char>, Seq<Seq<char>>>::empty());
            assert(texts_of(retracted@) =~= Seq::<Seq<char>>::empty());
            assert(texts_of(retracted@).to_set() =~= Set::<Seq<char>>::empty());
            assert(texts_of(failed@) =~= Seq::<Seq<char>>::empty());
            use_type_invariant(&scan);
        }
        *self = IndexOrchestrator { snapshot, building: true, scan, indexed, retracted, failed };
        BuildPlan { changes, retractions }
    }

    /// The class of `path` in the build in progress.
    fn class_of(&self, path: &str) -> (change: Option<Change>)
        ensures
            change == change_of(self@.scan, meta_of(self@.snapshot), path@),
    {
        proof {
            use_type_invariant(self);
            lemma_meta_of_records(self.snapshot@);
        }
        let now = match self.scan.get(path) {
            Some(meta) => Some(*meta),
            None => None,
        };
        let then = match self.snapshot.get(path) {
            Some(record) => Some(record.meta),
            None => None,
        };
        assert(lookup(self@.scan, path@) == now);
        assert(lookup(meta_of(self@.snapshot), path@) == then);
        classify(now, then)
    }

    /// Records that the blocks of an added or modified file were submitted, with
    /// their ids. Without a build in progress, or for a file that the build does not
    /// index, nothing is recorded.
    pub fn file_indexed(&mut self, path: &str, block_ids: Vec<String>) -> (recorded: Result<
        (),
        AppError,
    >)
        ensures
            final(self).snapshot_keys() == old(self).snapshot_keys(),
            final(self)@ == old(self)@.after(
                BuildEvent::Indexed { path: path@, block_ids: texts_of(block_ids@) },
            ),
            match recorded {
                Ok(_) => old(self)@.accepts(
                    BuildEvent::Indexed { path: path@, block_ids: texts_of(block_ids@) },
                ),
                Err(err) => {
                    &&& !old(self)@.accepts(
                        BuildEvent::Indexed { path: path@, block_ids: texts_of(block_ids@) },
                    )
                    &&& if !old(self)@.building {
                        is_validation(err, "build"@, "no build in progress"@)
                    } else {
                        err.message() == "changed file"@ + " not found: "@ + path@
                    }
                },
            },
    {
        proof {
            use_type_invariant(&*self);
        }
        if !self.building {
            return Err(validation_error("build", "no build in progress"));
        }
        match self.class_of(path) {
            Some(Change::Added) | Some(Change::Modified) => {},
            _ => {
                return Err(not_found("changed file", path));
            },
        }
        let mut taken = IndexOrchestrator::new(PathMap::new());
        core::mem::swap(self, &mut taken);
        let IndexOrchestrator { snapshot, building, scan, mut indexed, retracted, failed } = taken;
        let ghost ids_before = indexed@;
        indexed.insert(path.to_string(), block_ids);
        proof {
            assert(ids_view(indexed@) =~= ids_view(ids_before).insert(path@, texts_of(block_ids@)));
        }
        *self = IndexOrchestrator { snapshot, building, scan, indexed, retracted, failed };
        Ok(())
    }

    /// Records that the blocks of a removed file were retracted from the store.
    /// Without a build in progress, or for a file that was not removed, nothing is
    /// recorded.
    pub fn file_retracted(&mut self, path: &str) -> (recorded: Result<(), AppError>)
        ensures
            final(self).snapshot_keys() == old(self).snapshot_keys(),
            final(self)@ == old(self)@.after(BuildEvent::Retracted { path: path@ }),
            match recorded {
                Ok(_) => old(self)@.accepts(BuildEvent::Retracted { path: path@ }),
                Err(err) => {
                    &&& !old(self)@.accepts(BuildEvent::Retracted { path: path@ })
                    &&& if !old(self)@.building {
                        is_validation(err, "build"@, "no build in progress"@)
                    } else {
                        err.message() == "removed file"@ + " not found: "@ + path@
                    }
                },
            },
    {
        proof {
            use_type_invariant(&*self);
        }
        if !self.building {
            return Err(validation_error("build", "no build in progress"));
        }
        match self.class_of(path) {
            Some(Change::Removed) => {},
            _ => {
                return Err(not_found("removed file", path));
            },
        }
        if contains_text(&self.retracted, path) {
            assert(self@.retracted.insert(path@) =~= self@.retracted);
            return Ok(());
        }
        let mut taken = IndexOrchestrator::new(PathMap::new());
        core::mem::swap(self, &mut taken);
        let IndexOrchestrator { snapshot, building, scan, indexed, mut retracted, failed } = taken;
        let ghost before = retracted@;
        let gone = path.to_string();
        retracted.push(gone);
        proof {
            lemma_texts_of_push(before, gone);
            texts_of(before).lemma_push_to_set_commute(path@);
        }
        *self = IndexOrchestrator { snapshot, building, scan, indexed, retracted, failed };
        Ok(())
    }

    /// Records that a file of the build in progress failed: it could not be read,
    /// tokenized, embedded, submitted or retracted. The file stays as the snapshot
    /// has it, so the next build takes it up again.
    pub fn file_failed(&mut self, path: &str)
        ensures
            final(self).snapshot_keys() == old(self).snapshot_keys(),
            final(self)@ == old(self)@.after(BuildEvent::Failed { path: path@ }),
    {
        proof {
            use_type_invariant(&*self);
        }
        if !self.building {
            return ;
        }
        let ghost view = self@;
        let mut taken = IndexOrchestrator::new(PathMap::new());
        core::mem::swap(self, &mut taken);
        let IndexOrchestrator { snapshot, building, scan, indexed, retracted, mut failed } = taken;
        let ghost before = failed@;
        let lost = path.to_string();
        failed.push(lost);
        proof {
            lemma_texts_of_push(before, lost);
            lemma_events_keep_consistency(view, BuildEvent::Failed { path: path@ });
        }
        *self = IndexOrchestrator { snapshot, building, scan, indexed, retracted, failed };
    }

    /// Ends the build. With a build in progress and the store's flush confirmed,
    /// the snapshot is replaced by what the build staged; otherwise it stays as it
    /// was. Either way no build is in progress afterwards.
    pub fn finish(&mut self, flushed: bool) -> (summary: BuildSummary)
        ensures
            final(self)@ == old(self)@.after(BuildEvent::Finished { flushed }),
            !old(self)@.commits(BuildEvent::Finished { flushed }) ==> final(self).snapshot_keys()
                == old(self).snapshot_keys(),
            summary == (BuildSummary {
                indexed: old(self)@.indexed.dom().len() as usize,
                retracted: old(self)@.retracted.len() as usize,
                failed: old(self)@.failed.len() as usize,
                committed: flushed && old(self)@.building,
            }),
    {
        proof {
            use_type_invariant(&*self);
        }
        let ghost before = self@;
        let mut taken = IndexOrchestrator::new(PathMap::new());
        core::mem::swap(self, &mut taken);
        let IndexOrchestrator { mut snapshot, building, scan, indexed, retracted, failed } = taken;
        let ghost ids = ids_view(indexed@);
        let ghost gone = texts_of(retracted@);
        let summary = BuildSummary {
            indexed: indexed.len(),
            retracted: retracted.len(),
            failed: failed.len(),
            committed: flushed && building,
        };
        proof {
            assert(ids.dom() =~= indexed@.dom());
            gone.unique_seq_to_set();
            indexed.lemma_view();
        }
        if flushed && building {
            let ghost keys = indexed.keys();
            let ghost old_values = indexed.values();
            let (paths, values) = indexed.into_entries();
            let total = values.len();
            let mut at: usize = 0;
            proof {
                assert(keys.take(0).to_set() =~= Set::<Seq<char>>::empty());
                assert(records_of(snapshot@) =~= staged(
                    before.snapshot,
                    scan@,
                    ids.restrict(keys.take(0).to_set()),
                    Set::empty(),
                ));
            }
            for block_ids in it: values
                invariant
                    it.seq() == old_values,
                    old_values.len() == total,
                    at == it.index(),
                    snapshot.wf(),
                    scan.wf(),
                    before.consistent(),
                    before.scan == scan@,
                    before.indexed == ids,
                    texts_of(paths@) == keys,
                    keys.len() == old_values.len(),
                    keys.no_duplicates(),
                    ids.dom() == keys.to_set(),
                    forall|k: int|
                        0 <= k < keys.len() ==> ids.contains_key(#[trigger] keys[k]) && ids[keys[k]]
                            == texts_of(old_values[k]@),
                    records_of(snapshot@) == staged(
                        before.snapshot,
                        scan@,
                        ids.restrict(keys.take(at as int).to_set()),
                        Set::empty(),
                    ),
            {
                let path = &paths[at];
                let ghost done = ids.restrict(keys.take(at as int).to_set());
                proof {
                    assert(texts_of(paths@)[at as int] == path@);
                    assert(keys[at as int] == path@);
                    assert(ids.contains_key(path@));
                    assert(before.indexed.contains_key(path@));
                    assert(needs_indexing(scan@, meta_of(before.snapshot), path@));
                    assert(scan@.contains_key(path@));
                    assert(keys.take(at + 1) =~= keys.take(at as int).push(path@));
                    keys.take(at as int).lemma_push_to_set_commute(path@);
                    assert(ids.restrict(keys.take(at + 1).to_set()) =~= done.insert(
                        path@,
                        texts_of(block_ids@),
                    ));
                }
                match scan.get(path.as_str()) {
                    Some(meta) => {
                        let ghost records = snapshot@;
                        let record = FileRecord { meta: *meta, block_ids };
                        snapshot.insert(path.clone(), record);
                        proof {
                            assert(records_of(snapshot@) =~= records_of(records).insert(
                                path@,
                                record@,
                            ));
                            assert(records_of(snapshot@) =~= staged(
                                before.snapshot,
                                scan@,
                                done.insert(path@, texts_of(block_ids@)),
                                Set::empty(),
                            ));
                        }
                    },
                    None => {},
                }
                at += 1;
            }
            proof {
                assert(keys.take(keys.len() as int) =~= keys);
                assert(ids.restrict(keys.to_set()) =~= ids);
                assert(gone.take(0).to_set() =~= Set::<Seq<char>>::empty());
            }
            let mut j: usize = 0;
            while j < retracted.len()
                invariant
                    j <= retracted.len(),
                    snapshot.wf(),
                    before.consistent(),
                    before.scan == scan@,
                    before.indexed == ids,
                    before.retracted == gone.to_set(),
                    gone == texts_of(retracted@),
                    records_of(snapshot@) == staged(
                        before.snapshot,
                        scan@,
                        ids,
                        gone.take(j as int).to_set(),
                    ),
                decreases retracted.len() - j,
            {
                let path = &retracted[j];
                let ghost records = snapshot@;
                snapshot.remove(path.as_str());
                proof {
                    assert(gone[j as int] == path@);
                    assert(before.retracted.contains(path@));
                    assert(!ids.contains_key(path@));
                    assert(gone.take(j + 1) =~= gone.take(j as int).push(path@));
                    gone.take(j as int).lemma_push_to_set_commute(path@);
                    assert(records_of(snapshot@) =~= records_of(records).remove(path@));
                    assert(records_of(snapshot@) =~= staged(
                        before.snapshot,
                        scan@,
                        ids,
                        gone.take(j + 1).to_set(),
                    ));
                }
                j += 1;
            }
            proof {
                assert(gone.take(gone.len() as int) =~= gone);
            }
        }
        let idle = IndexOrchestrator::new(snapshot);
        *self = idle;
        summary
    }

    /// Whether a build is in progress.
    pub fn is_building(&self) -> (building: bool)
        ensures
            building == self@.building,
    {
        self.building
    }
}

} // verus!
