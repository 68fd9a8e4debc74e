//! Blocks as extraction yields them, and the records that go to the store.

use vstd::prelude::*;
use crate::embedding::TokenEmbeddings;
use crate::errors::{is_validation, validation_error, AppError};
use crate::text::{lemma_texts_of_push, str_eq, texts_of};

verus! {

/// Where a block comes from and what it is.
#[derive(Debug)]
pub struct BlockMetadata {
    /// Path of the file that holds the block.
    pub file: String,
    /// Kind of the block, such as function or class.
    pub kind: String,
    /// Name of the symbol that the block defines.
    pub name: String,
    pub start_line: usize,
    pub end_line: usize,
}

impl Clone for BlockMetadata {
    fn clone(&self) -> (copy: Self)
        ensures
            copy == *self,
    {
        BlockMetadata {
            file: self.file.clone(),
            kind: self.kind.clone(),
            name: self.name.clone(),
            start_line: self.start_line,
            end_line: self.end_line,
        }
    }
}

/// A block of a file: a contiguous unit of source code with a stable id.
#[derive(Debug)]
pub struct Block {
    pub id: String,
    pub text: String,
    pub metadata: BlockMetadata,
}

/// The unit that is submitted to the store: a block with the embeddings of its
/// tokens.
pub struct BlockRecord<T> {
    pub block_id: String,
    /// One vector for each token of the text, padding excluded.
    pub token_embeddings: Vec<Vec<T>>,
    pub raw_text: String,
    pub metadata: BlockMetadata,
}

/// The ids of a list of blocks.
pub open spec fn ids_of(blocks: Seq<Block>) -> Seq<Seq<char>> {
    blocks.map_values(|block: Block| block.id@)
}

/// Whether no two blocks have the same id.
pub fn distinct_ids(blocks: &Vec<Block>) -> (distinct: bool)
    ensures
        distinct == ids_of(blocks@).no_duplicates(),
{
    let ghost ids = ids_of(blocks@);
    let mut i: usize = 0;
    while i < blocks.len()
        invariant
            i <= blocks.len(),
            ids == ids_of(blocks@),
            forall|a: int, b: int| 0 <= a < i && a < b < ids.len() ==> ids[a] != ids[b],
        decreases blocks.len() - i,
    {
        let mut j: usize = i + 1;
        while j < blocks.len()
            invariant
                i < j <= blocks.len(),
                ids == ids_of(blocks@),
                forall|b: int| i < b < j ==> ids[i as int] != ids[b],
            decreases blocks.len() - j,
        {
            if str_eq(blocks[i].id.as_str(), blocks[j].id.as_str()) {
                assert(ids[i as int] == ids[j as int]);
                return false;
            }
            j += 1;
        }
        i += 1;
    }
    assert forall|a: int, b: int| 0 <= a < ids.len() && 0 <= b < ids.len() && a != b implies ids[a]
        != ids[b] by {
        if a < b {
            assert(ids[a] != ids[b]);
        } else {
            assert(ids[b] != ids[a]);
        }
    }
    true
}

/// The ids of the blocks, in order, as they are recorded for a file once its
/// records were submitted.
pub fn block_ids(blocks: &Vec<Block>) -> (ids: Vec<String>)
    ensures
        texts_of(ids@) == ids_of(blocks@),
{
    let mut ids: Vec<String> = Vec::new();
    let mut i: usize = 0;
    while i < blocks.len()
        invariant
            i <= blocks.len(),
            texts_of(ids@) == ids_of(blocks@.take(i as int)),
        decreases blocks.len() - i,
    {
        proof {
            lemma_texts_of_push(ids@, blocks@[i as int].id);
            assert(ids_of(blocks@.take(i + 1)) =~= ids_of(blocks@.take(i as int)).push(
                blocks@[i as int].id@,
            ));
        }
        ids.push(blocks[i].id.clone());
        i += 1;
    }
    proof {
        assert(blocks@.take(i as int) =~= blocks@);
    }
    ids
}

/// The reason given when blocks and matrices differ in number.
pub open spec fn count_reason() -> Seq<char> {
    "expected one matrix for each block"@
}

/// The reason given when two blocks share an id.
pub open spec fn duplicate_reason() -> Seq<char> {
    "occurs twice"@
}

/// Joins the blocks of a file with the embeddings of their texts, in order, into the
/// records for the store. There must be one matrix for each block, and no two
/// blocks with the same id.
pub fn assemble_records<T>(blocks: &Vec<Block>, embeddings: TokenEmbeddings<T>) -> (assembled:
    Result<Vec<BlockRecord<T>>, AppError>)
    ensures
        match assembled {
            Ok(records) => {
                &&& blocks.len() == embeddings.embeddings.len()
                &&& ids_of(blocks@).no_duplicates()
                &&& records.len() == blocks.len()
                &&& forall|i: int|
                    0 <= i < records.len() ==> {
                        &&& (#[trigger] records[i]).block_id == blocks[i].id
                        &&& records[i].raw_text == blocks[i].text
                        &&& records[i].metadata == blocks[i].metadata
                        &&& records[i].token_embeddings == embeddings.embeddings[i]
                    }
            },
            Err(err) => if blocks.len() != embeddings.embeddings.len() {
                is_validation(err, "blocks"@, count_reason())
            } else {
                !ids_of(blocks@).no_duplicates() && is_validation(
                    err,
                    "block_id"@,
                    duplicate_reason(),
                )
            },
        },
{
    if blocks.len() != embeddings.embeddings.len() {
        return Err(validation_error("blocks", "expected one matrix for each block"));
    }
    if !distinct_ids(blocks) {
        return Err(validation_error("block_id", "occurs twice"));
    }
    let ghost given = embeddings.embeddings@;
    let mut records: Vec<BlockRecord<T>> = Vec::new();
    let mut at: usize = 0;
    for matrix in it: embeddings.embeddings
        invariant
            it.seq() == given,
            given.len() == blocks.len(),
            at == it.index(),
            records.len() == at,
            forall|i: int|
                0 <= i < at ==> {
                    &&& (#[trigger] records[i]).block_id == blocks[i].id
                    &&& records[i].raw_text == blocks[i].text
                    &&& records[i].metadata == blocks[i].metadata
                    &&& records[i].token_embeddings == given[i]
                },
    {
        let block = &blocks[at];
        records.push(
            BlockRecord {
                block_id: block.id.clone(),
                token_embeddings: matrix,
                raw_text: block.text.clone(),
                metadata: block.metadata.clone(),
            },
        );
        at += 1;
    }
    Ok(records)
}

} // verus!
