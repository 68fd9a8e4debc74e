//! The persisted state of an index: for each file its metadata as of the build that
//! indexed it, and the ids of the blocks that came from it.

use vstd::prelude::*;
use crate::path_map::PathMap;
use crate::text::texts_of;
use crate::walker::FileMetadata;

verus! {

/// What a snapshot records for one file.
#[derive(Clone, Debug)]
pub struct FileRecord {
    /// Size and modification time under which the file was indexed.
    pub meta: FileMetadata,
    /// The ids of the blocks that were submitted for the file.
    pub block_ids: Vec<String>,
}

/// A file record as plain values.
pub struct FileRecordView {
    pub meta: FileMetadata,
    pub block_ids: Seq<Seq<char>>,
}

impl View for FileRecord {
    type V = FileRecordView;

    open spec fn view(&self) -> FileRecordView {
        FileRecordView { meta: self.meta, block_ids: texts_of(self.block_ids@) }
    }
}

/// The snapshot of an index: a file record under each indexed path.
pub type IndexSnapshot = PathMap<FileRecord>;

/// The records of a snapshot as plain values.
pub open spec fn records_of(snapshot: Map<Seq<char>, FileRecord>) -> Map<Seq<char>, FileRecordView> {
    snapshot.map_values(|record: FileRecord| record@)
}

/// The metadata that a snapshot holds for each path.
pub open spec fn metadata_view(snapshot: Map<Seq<char>, FileRecord>) -> Map<
    Seq<char>,
    FileMetadata,
> {
    snapshot.map_values(|record: FileRecord| record.meta)
}

/// The metadata of a snapshot, path by path and in its order, for comparing it with
/// a scan.
pub fn metadata_of(snapshot: &IndexSnapshot) -> (metadata: PathMap<FileMetadata>)
    ensures
        metadata.wf(),
        metadata@ == metadata_view(snapshot@),
        metadata.keys() == snapshot.keys(),
{
    let mut metadata: PathMap<FileMetadata> = PathMap::new();
    let count = snapshot.len();
    let mut i: usize = 0;
    proof {
        snapshot.lemma_view();
        assert(snapshot.keys().take(0) =~= metadata.keys());
    }
    while i < count
        invariant
            i <= count,
            count == snapshot.keys().len(),
            snapshot.wf(),
            metadata.wf(),
            metadata.keys() == snapshot.keys().take(i as int),
            forall|k: int|
                0 <= k < i ==> metadata@.contains_key(#[trigger] snapshot.keys()[k])
                    && metadata@[snapshot.keys()[k]] == snapshot.values()[k].meta,
        decreases count - i,
    {
        let path = snapshot.key(i);
        let record = snapshot.value(i);
        proof {
            metadata.lemma_view();
            assert(!metadata.keys().contains(path@)) by {
                if metadata.keys().contains(path@) {
                    let k = metadata.keys().index_of(path@);
                    assert(snapshot.keys()[k] == snapshot.keys()[i as int]);
                }
            }
            assert(snapshot.keys().take(i + 1) =~= snapshot.keys().take(i as int).push(path@));
        }
        metadata.insert(path.clone(), record.meta);
        proof {
            assert forall|k: int| 0 <= k < i + 1 implies metadata@.contains_key(
                #[trigger] snapshot.keys()[k],
            ) && metadata@[snapshot.keys()[k]] == snapshot.values()[k].meta by {
                if k < i {
                    assert(snapshot.keys()[k] != snapshot.keys()[i as int]);
                }
            }
        }
        i += 1;
    }
    proof {
        assert(snapshot.keys().take(count as int) =~= snapshot.keys());
        snapshot.lemma_view();
        metadata.lemma_view();
        assert(metadata@ =~= metadata_view(snapshot@)) by {
            assert forall|p: Seq<char>| metadata@.contains_key(p) implies #[trigger] metadata@[p]
                == metadata_view(snapshot@)[p] by {
                let k = snapshot.keys().index_of(p);
                assert(snapshot.keys()[k] == p);
            }
        }
    }
    metadata
}

} // verus!
