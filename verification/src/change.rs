//! Change detection: a fresh metadata scan against the snapshot of the last build.

use vstd::prelude::*;
use crate::path_map::PathMap;
use crate::text::{lemma_texts_of_push, texts_of};
use crate::walker::FileMetadata;

verus! {

/// What became of a path between the previous snapshot and the current scan.
#[derive(Clone, Copy, Debug, PartialEq, Eq, Structural)]
pub enum Change {
    /// In both, with the same size and modification time: nothing to do.
    Unchanged,
    /// In both, but size or modification time differs: embed again.
    Modified,
    /// In the current scan only: embed.
    Added,
    /// In the previous snapshot only: retract its blocks.
    Removed,
}

/// The class of a path, from what the current scan and the previous snapshot hold
/// for it; a path in neither has none. Any single differing field makes a file
/// modified.
pub open spec fn classify_spec(
    current: Option<FileMetadata>,
    previous: Option<FileMetadata>,
) -> Option<Change> {
    match (current, previous) {
        (Some(now), Some(then)) => if now.size == then.size && now.mtime == then.mtime {
            Some(Change::Unchanged)
        } else {
            Some(Change::Modified)
        },
        (Some(_), None) => Some(Change::Added),
        (None, Some(_)) => Some(Change::Removed),
        (None, None) => None,
    }
}

/// The class of a path, from what the current scan and the previous snapshot hold
/// for it.
#[verifier::when_used_as_spec(classify_spec)]
pub fn classify(current: Option<FileMetadata>, previous: Option<FileMetadata>) -> (change: Option<
    Change,
>)
    ensures
        change == classify_spec(current, previous),
{
    match (current, previous) {
        (Some(now), Some(then)) => if now.size == then.size && now.mtime == then.mtime {
            Some(Change::Unchanged)
        } else {
            Some(Change::Modified)
        },
        (Some(_), None) => Some(Change::Added),
        (None, Some(_)) => Some(Change::Removed),
        (None, None) => None,
    }
}

/// What a snapshot holds for a path.
pub open spec fn lookup(snapshot: Map<Seq<char>, FileMetadata>, path: Seq<char>) -> Option<
    FileMetadata,
> {
    if snapshot.contains_key(path) {
        Some(snapshot[path])
    } else {
        None
    }
}

/// The class of `path` between two snapshots.
pub open spec fn change_of(
    current: Map<Seq<char>, FileMetadata>,
    previous: Map<Seq<char>, FileMetadata>,
    path: Seq<char>,
) -> Option<Change> {
    classify_spec(lookup(current, path), lookup(previous, path))
}

/// The paths whose class between two snapshots is `change`.
pub open spec fn has_change(
    current: Map<Seq<char>, FileMetadata>,
    previous: Map<Seq<char>, FileMetadata>,
    change: Change,
) -> spec_fn(Seq<char>) -> bool {
    |path: Seq<char>| change_of(current, previous, path) == Some(change)
}

/// The paths of two snapshots, sorted by class.
#[derive(Clone, Debug)]
pub struct ChangeSet {
    pub unchanged: Vec<String>,
    pub modified: Vec<String>,
    pub added: Vec<String>,
    pub removed: Vec<String>,
}

impl ChangeSet {
    /// The lists hold the paths of the current scan and of the previous snapshot by
    /// class, each list in the order of the keys that it is drawn from.
    pub open spec fn describes(
        &self,
        current_keys: Seq<Seq<char>>,
        current: Map<Seq<char>, FileMetadata>,
        previous_keys: Seq<Seq<char>>,
        previous: Map<Seq<char>, FileMetadata>,
    ) -> bool {
        &&& texts_of(self.unchanged@) == current_keys.filter(
            has_change(current, previous, Change::Unchanged),
        )
        &&& texts_of(self.modified@) == current_keys.filter(
            has_change(current, previous, Change::Modified),
        )
        &&& texts_of(self.added@) == current_keys.filter(
            has_change(current, previous, Change::Added),
        )
        &&& texts_of(self.removed@) == previous_keys.filter(
            has_change(current, previous, Change::Removed),
        )
    }

    /// The list that holds the paths of a class.
    pub open spec fn listed(&self, change: Change) -> Seq<Seq<char>> {
        match change {
            Change::Unchanged => texts_of(self.unchanged@),
            Change::Modified => texts_of(self.modified@),
            Change::Added => texts_of(self.added@),
            Change::Removed => texts_of(self.removed@),
        }
    }

    /// A path stands in the list of a class exactly when it has that class.
    pub proof fn lemma_listed_by_class(
        &self,
        current_keys: Seq<Seq<char>>,
        current: Map<Seq<char>, FileMetadata>,
        previous_keys: Seq<Seq<char>>,
        previous: Map<Seq<char>, FileMetadata>,
        change: Change,
        path: Seq<char>,
    )
        requires
            self.describes(current_keys, current, previous_keys, previous),
            current.dom() == current_keys.to_set(),
            previous.dom() == previous_keys.to_set(),
        ensures
            self.listed(change).contains(path) <==> change_of(current, previous, path) == Some(
                change,
            ),
    {
        let pred = has_change(current, previous, change);
        let keys = if change == Change::Removed {
            previous_keys
        } else {
            current_keys
        };
        assert(self.listed(change) == keys.filter(pred));
        if keys.filter(pred).contains(path) {
            let i = keys.filter(pred).index_of(path);
            keys.lemma_filter_pred(pred, i);
        }
        if change_of(current, previous, path) == Some(change) {
            assert(keys.to_set().contains(path));
            let i = keys.index_of(path);
            keys.lemma_filter_contains(pred, i);
        }
    }

    /// An unchanged file is listed for no work: it is neither among the modified nor
    /// among the added nor among the removed files.
    pub proof fn lemma_unchanged_is_left_alone(
        &self,
        current_keys: Seq<Seq<char>>,
        current: Map<Seq<char>, FileMetadata>,
        previous_keys: Seq<Seq<char>>,
        previous: Map<Seq<char>, FileMetadata>,
        path: Seq<char>,
    )
        requires
            self.describes(current_keys, current, previous_keys, previous),
            current.dom() == current_keys.to_set(),
            previous.dom() == previous_keys.to_set(),
            current.contains_key(path),
            previous.contains_key(path),
            current[path].size == previous[path].size,
            current[path].mtime == previous[path].mtime,
        ensures
            self.listed(Change::Unchanged).contains(path),
            !self.listed(Change::Modified).contains(path),
            !self.listed(Change::Added).contains(path),
            !self.listed(Change::Removed).contains(path),
    {
        self.lemma_listed_by_class(
            current_keys,
            current,
            previous_keys,
            previous,
            Change::Unchanged,
            path,
        );
        self.lemma_listed_by_class(
            current_keys,
            current,
            previous_keys,
            previous,
            Change::Modified,
            path,
        );
        self.lemma_listed_by_class(
            current_keys,
            current,
            previous_keys,
            previous,
            Change::Added,
            path,
        );
        self.lemma_listed_by_class(
            current_keys,
            current,
            previous_keys,
            previous,
            Change::Removed,
            path,
        );
    }

    /// Where no path has another class than unchanged, nothing is listed as
    /// modified, added or removed.
    pub proof fn lemma_nothing_to_do(
        &self,
        current_keys: Seq<Seq<char>>,
        current: Map<Seq<char>, FileMetadata>,
        previous_keys: Seq<Seq<char>>,
        previous: Map<Seq<char>, FileMetadata>,
    )
        requires
            self.describes(current_keys, current, previous_keys, previous),
            forall|path: Seq<char>|
                change_of(current, previous, path) is None || #[trigger] change_of(
                    current,
                    previous,
                    path,
                ) == Some(Change::Unchanged),
        ensures
            self.modified.len() == 0,
            self.added.len() == 0,
            self.removed.len() == 0,
    {
        let modified = has_change(current, previous, Change::Modified);
        let added = has_change(current, previous, Change::Added);
        let removed = has_change(current, previous, Change::Removed);
        assert(current_keys.all(|p: Seq<char>| !modified(p))) by {
            assert forall|i: int| 0 <= i < current_keys.len() implies !modified(
                #[trigger] current_keys[i],
            ) by {
                assert(change_of(current, previous, current_keys[i]) != Some(Change::Modified));
            }
        }
        assert(current_keys.all(|p: Seq<char>| !added(p))) by {
            assert forall|i: int| 0 <= i < current_keys.len() implies !added(
                #[trigger] current_keys[i],
            ) by {
                assert(change_of(current, previous, current_keys[i]) != Some(Change::Added));
            }
        }
        assert(previous_keys.all(|p: Seq<char>| !removed(p))) by {
            assert forall|i: int| 0 <= i < previous_keys.len() implies !removed(
                #[trigger] previous_keys[i],
            ) by {
                assert(change_of(current, previous, previous_keys[i]) != Some(Change::Removed));
            }
        }
        current_keys.lemma_all_neg_filter_empty(modified);
        current_keys.lemma_all_neg_filter_empty(added);
        previous_keys.lemma_all_neg_filter_empty(removed);
    }
}

/// Classifies every path of the current scan and of the previous snapshot.
pub fn detect_changes(current: &PathMap<FileMetadata>, previous: &PathMap<FileMetadata>) -> (changes:
    ChangeSet)
    ensures
        changes.describes(current.keys(), current@, previous.keys(), previous@),
{
    let mut unchanged: Vec<String> = Vec::new();
    let mut modified: Vec<String> = Vec::new();
    let mut added: Vec<String> = Vec::new();
    let mut removed: Vec<String> = Vec::new();
    let ghost is_unchanged = has_change(current@, previous@, Change::Unchanged);
    let ghost is_modified = has_change(current@, previous@, Change::Modified);
    let ghost is_added = has_change(current@, previous@, Change::Added);
    let ghost is_removed = has_change(current@, previous@, Change::Removed);
    let count = current.len();
    let mut i: usize = 0;
    proof {
        assert(current.keys().take(0) =~= Seq::<Seq<char>>::empty());
        assert(texts_of(unchanged@) =~= current.keys().take(0).filter(is_unchanged));
        assert(texts_of(modified@) =~= current.keys().take(0).filter(is_modified));
        assert(texts_of(added@) =~= current.keys().take(0).filter(is_added));
    }
    while i < count
        invariant
            i <= count,
            count == current.keys().len(),
            current.wf(),
            is_unchanged == has_change(current@, previous@, Change::Unchanged),
            is_modified == has_change(current@, previous@, Change::Modified),
            is_added == has_change(current@, previous@, Change::Added),
            texts_of(unchanged@) == current.keys().take(i as int).filter(is_unchanged),
            texts_of(modified@) == current.keys().take(i as int).filter(is_modified),
            texts_of(added@) == current.keys().take(i as int).filter(is_added),
        decreases count - i,
    {
        let path = current.key(i);
        let now = *current.value(i);
        let then = match previous.get(path.as_str()) {
            Some(meta) => Some(*meta),
            None => None,
        };
        let ghost seen = current.keys().take(i as int);
        proof {
            assert(current.keys().take(i + 1) =~= seen.push(path@));
            seen.lemma_filter_push(path@, is_unchanged);
            seen.lemma_filter_push(path@, is_modified);
            seen.lemma_filter_push(path@, is_added);
            assert(lookup(current@, path@) == Some(now));
            assert(lookup(previous@, path@) == then);
        }
        match classify(Some(now), then) {
            Some(Change::Unchanged) => {
                proof {
                    lemma_texts_of_push(unchanged@, *path);
                }
                unchanged.push(path.clone());
            },
            Some(Change::Modified) => {
                proof {
                    lemma_texts_of_push(modified@, *path);
                }
                modified.push(path.clone());
            },
            Some(Change::Added) => {
                proof {
                    lemma_texts_of_push(added@, *path);
                }
                added.push(path.clone());
            },
            _ => {},
        }
        i += 1;
    }
    let old_count = previous.len();
    let mut j: usize = 0;
    proof {
        assert(current.keys().take(count as int) =~= current.keys());
        assert(previous.keys().take(0) =~= Seq::<Seq<char>>::empty());
        assert(texts_of(removed@) =~= previous.keys().take(0).filter(is_removed));
    }
    while j < old_count
        invariant
            j <= old_count,
            old_count == previous.keys().len(),
            previous.wf(),
            is_removed == has_change(current@, previous@, Change::Removed),
            texts_of(removed@) == previous.keys().take(j as int).filter(is_removed),
        decreases old_count - j,
    {
        let path = previous.key(j);
        let then = *previous.value(j);
        let ghost seen = previous.keys().take(j as int);
        proof {
            assert(previous.keys().take(j + 1) =~= seen.push(path@));
            seen.lemma_filter_push(path@, is_removed);
            assert(lookup(previous@, path@) == Some(then));
        }
        if !current.contains_key(path.as_str()) {
            proof {
                lemma_texts_of_push(removed@, *path);
            }
            removed.push(path.clone());
        }
        j += 1;
    }
    proof {
        assert(previous.keys().take(old_count as int) =~= previous.keys());
    }
    ChangeSet { unchanged, modified, added, removed }
}

/// A file that both snapshots hold with the same size and the same modification
/// time is unchanged.
pub proof fn lemma_same_metadata_is_unchanged(
    current: Map<Seq<char>, FileMetadata>,
    previous: Map<Seq<char>, FileMetadata>,
    path: Seq<char>,
)
    requires
        current.contains_key(path),
        previous.contains_key(path),
        current[path].size == previous[path].size,
        current[path].mtime == previous[path].mtime,
    ensures
        change_of(current, previous, path) == Some(Change::Unchanged),
{
}

/// A scan that equals the snapshot finds every file of it unchanged and no other
/// file at all: nothing is modified, added or removed.
pub proof fn lemma_rescan_finds_no_change(snapshot: Map<Seq<char>, FileMetadata>, path: Seq<char>)
    ensures
        change_of(snapshot, snapshot, path) == if snapshot.contains_key(path) {
            Some(Change::Unchanged)
        } else {
            None
        },
{
}

/// A file that both snapshots hold is modified as soon as one field differs: the
/// modification time with the size equal, or the size with the modification time
/// equal.
pub proof fn lemma_single_difference_is_modified(
    current: Map<Seq<char>, FileMetadata>,
    previous: Map<Seq<char>, FileMetadata>,
    path: Seq<char>,
)
    requires
        current.contains_key(path),
        previous.contains_key(path),
        (current[path].size == previous[path].size && current[path].mtime != previous[path].mtime)
            || (current[path].size != previous[path].size && current[path].mtime
            == previous[path].mtime),
    ensures
        change_of(current, previous, path) == Some(Change::Modified),
{
}

} // verus!
