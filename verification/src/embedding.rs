//! The embedding pipeline: documents go to the embedding backend in batches, and
//! what comes back is held to the shape that tokenization announced, without padding.

use vstd::prelude::*;
use crate::errors::{is_validation, validation_error, AppError};
use crate::padding::{keep_real, lemma_keep_real_len, strip_padding};
use crate::model::ModelConfig;
use crate::tokenizer::{Encoder, Encoding, TokenizerWrapper};

verus! {

/// Embedding output: variable-length token embeddings per document.
///
/// Each document has one matrix, a row of `token_dim` numbers for each of its
/// tokens. The numbers are of a type `T` that the pipeline moves and never reads.
pub struct TokenEmbeddings<T> {
    /// One entry per document: each is (num_tokens, token_dim).
    pub embeddings: Vec<Vec<Vec<T>>>,
}

/// Trait for multi-vector embedding backends.
pub trait Embedder<T>: Send + Sync {
    /// Embed documents, returning per-token embeddings for each.
    fn embed_documents(&self, texts: &[&str]) -> Result<TokenEmbeddings<T>, AppError>;

    /// Embed a query, returning token embeddings.
    fn embed_query(&self, text: &str) -> Result<Vec<Vec<T>>, AppError>;
}

/// What can be wrong with what the embedding backend handed back.
#[derive(Debug, Clone, Copy, PartialEq, Eq, Structural)]
pub enum ShapeFault {
    /// There is not one matrix for each text.
    CountMismatch,
    /// A matrix has neither a row for each position nor a row for each token.
    RowMismatch,
    /// A row does not have the token dimension.
    DimMismatch,
}

impl ShapeFault {
    /// The reason that the error for this fault gives.
    pub open spec fn reason(self) -> Seq<char> {
        match self {
            ShapeFault::CountMismatch => "expected one matrix for each text"@,
            ShapeFault::RowMismatch => "rows do not match the tokens of the text"@,
            ShapeFault::DimMismatch => "a row does not have the token dimension"@,
        }
    }

    /// The validation error for this fault.
    pub fn to_error(self) -> (err: AppError)
        ensures
            is_validation(err, "embeddings"@, self.reason()),
    {
        match self {
            ShapeFault::CountMismatch => validation_error(
                "embeddings",
                "expected one matrix for each text",
            ),
            ShapeFault::RowMismatch => validation_error(
                "embeddings",
                "rows do not match the tokens of the text",
            ),
            ShapeFault::DimMismatch => validation_error(
                "embeddings",
                "a row does not have the token dimension",
            ),
        }
    }
}

/// Whether every row has `dim` entries.
pub open spec fn rows_have_dim<T>(matrix: Seq<Vec<T>>, dim: nat) -> bool {
    forall|r: int| 0 <= r < matrix.len() ==> (#[trigger] matrix[r]).len() == dim
}

/// The fault of the matrix that the backend gave for a text with this encoding, if
/// it has one.
pub open spec fn matrix_fault<T>(matrix: Seq<Vec<T>>, encoding: Encoding, dim: nat) -> Option<
    ShapeFault,
> {
    if matrix.len() != encoding.len() && matrix.len() != encoding.real_tokens() {
        Some(ShapeFault::RowMismatch)
    } else if !rows_have_dim(matrix, dim) {
        Some(ShapeFault::DimMismatch)
    } else {
        None
    }
}

/// The matrix without its padding rows: a matrix with a row for each position loses
/// the rows at padding positions, any other is kept as it is.
pub open spec fn stripped<T>(matrix: Seq<Vec<T>>, encoding: Encoding) -> Seq<Vec<T>> {
    if matrix.len() == encoding.len() {
        keep_real(matrix, encoding.attention_mask@)
    } else {
        matrix
    }
}

/// Stripping a matrix without fault, for a well-formed encoding, leaves a row of
/// `dim` entries for each token of the text, and no padding.
pub proof fn lemma_stripped_shape<T>(matrix: Seq<Vec<T>>, encoding: Encoding, dim: nat)
    requires
        encoding.wf(),
        matrix_fault(matrix, encoding, dim) is None,
    ensures
        stripped(matrix, encoding).len() == encoding.real_tokens(),
        rows_have_dim(stripped(matrix, encoding), dim),
{
    let mask = encoding.attention_mask@;
    if matrix.len() == encoding.len() {
        lemma_keep_real_len(matrix, mask);
        lemma_keep_real_subset(matrix, mask, dim);
    }
}

/// What stripping keeps are rows of the matrix.
proof fn lemma_keep_real_subset<T>(matrix: Seq<Vec<T>>, mask: Seq<u32>, dim: nat)
    requires
        rows_have_dim(matrix, dim),
    ensures
        rows_have_dim(keep_real(matrix, mask), dim),
    decreases matrix.len(),
{
    if matrix.len() > 0 {
        let front = matrix.drop_last();
        assert forall|r: int| 0 <= r < front.len() implies (#[trigger] front[r]).len() == dim by {
            assert(front[r] == matrix[r]);
        }
        lemma_keep_real_subset(front, mask, dim);
    }
}

/// Holds the matrix of one text to its encoding and strips its padding rows.
pub fn finish_matrix<T>(matrix: Vec<Vec<T>>, encoding: &Encoding, dim: usize) -> (finished: Result<
    Vec<Vec<T>>,
    AppError,
>)
    ensures
        match finished {
            Ok(rows) => matrix_fault(matrix@, *encoding, dim as nat) is None && rows@ == stripped(
                matrix@,
                *encoding,
            ),
            Err(err) => matrix_fault(matrix@, *encoding, dim as nat) matches Some(fault)
                && is_validation(err, "embeddings"@, fault.reason()),
        },
{
    let positions = encoding.len();
    let tokens = encoding.token_count();
    if matrix.len() != positions && matrix.len() != tokens {
        return Err(ShapeFault::RowMismatch.to_error());
    }
    let mut r: usize = 0;
    while r < matrix.len()
        invariant
            r <= matrix.len(),
            matrix.len() == encoding.len() || matrix.len() == encoding.real_tokens(),
            forall|k: int| 0 <= k < r ==> (#[trigger] matrix@[k]).len() == dim,
        decreases matrix.len() - r,
    {
        if matrix[r].len() != dim {
            assert(matrix@[r as int].len() != dim);
            return Err(ShapeFault::DimMismatch.to_error());
        }
        r += 1;
    }
    if matrix.len() == positions {
        Ok(strip_padding(matrix, encoding.attention_mask.as_slice()))
    } else {
        Ok(matrix)
    }
}

/// The fault of the first faulty matrix at or after `from`, if there is one.
pub open spec fn first_shape_fault<T>(
    matrices: Seq<Vec<Vec<T>>>,
    encodings: Seq<Encoding>,
    dim: nat,
    from: int,
) -> Option<ShapeFault>
    decreases matrices.len() - from,
{
    if from < 0 || from >= matrices.len() || from >= encodings.len() {
        None
    } else {
        match matrix_fault(matrices[from]@, encodings[from], dim) {
            Some(fault) => Some(fault),
            None => first_shape_fault(matrices, encodings, dim, from + 1),
        }
    }
}

/// The fault of what the backend gave for a batch with these encodings, if it has
/// one.
pub open spec fn batch_shape_fault<T>(
    matrices: Seq<Vec<Vec<T>>>,
    encodings: Seq<Encoding>,
    dim: nat,
) -> Option<ShapeFault> {
    if matrices.len() != encodings.len() {
        Some(ShapeFault::CountMismatch)
    } else {
        first_shape_fault(matrices, encodings, dim, 0)
    }
}

/// Holds what the backend gave for a batch to the encodings of its texts: one
/// matrix for each text, in order, stripped of its padding rows. One fault refuses
/// the whole batch.
pub fn finish_batch<T>(raw: TokenEmbeddings<T>, encodings: &Vec<Encoding>, dim: usize) -> (finished:
    Result<Vec<Vec<Vec<T>>>, AppError>)
    ensures
        match finished {
            Ok(matrices) => {
                &&& batch_shape_fault(raw.embeddings@, encodings@, dim as nat) is None
                &&& matrices.len() == encodings.len()
                &&& forall|j: int|
                    0 <= j < matrices.len() ==> (#[trigger] matrices[j])@ == stripped(
                        raw.embeddings[j]@,
                        encodings[j],
                    )
            },
            Err(err) => batch_shape_fault(raw.embeddings@, encodings@, dim as nat) matches Some(
                fault,
            ) && is_validation(err, "embeddings"@, fault.reason()),
        },
{
    let ghost given = raw.embeddings@;
    if raw.embeddings.len() != encodings.len() {
        return Err(ShapeFault::CountMismatch.to_error());
    }
    let mut matrices: Vec<Vec<Vec<T>>> = Vec::new();
    let mut at: usize = 0;
    for matrix in it: raw.embeddings
        invariant
            it.seq() == given,
            given.len() == encodings.len(),
            at == it.index(),
            matrices.len() == at,
            first_shape_fault(given, encodings@, dim as nat, 0) == first_shape_fault(
                given,
                encodings@,
                dim as nat,
                at as int,
            ),
            forall|j: int|
                0 <= j < at ==> (#[trigger] matrices[j])@ == stripped(given[j]@, encodings[j]),
    {
        match finish_matrix(matrix, &encodings[at], dim) {
            Ok(rows) => {
                matrices.push(rows);
            },
            Err(err) => {
                return Err(err);
            },
        }
        at += 1;
    }
    Ok(matrices)
}

/// The batches that `total` documents are embedded in: consecutive ranges of
/// documents that cover all of them, each of `batch_size` documents but the last,
/// which holds what is left.
pub open spec fn is_batching(ranges: Seq<(usize, usize)>, total: nat, batch_size: nat) -> bool {
    &&& forall|k: int|
        0 <= k < ranges.len() ==> {
            &&& (#[trigger] ranges[k]).0 == k * batch_size
            &&& ranges[k].0 < ranges[k].1 <= total
            &&& ranges[k].1 - ranges[k].0 <= batch_size
            &&& (k + 1 < ranges.len() ==> ranges[k].1 - ranges[k].0 == batch_size)
        }
    &&& (total == 0 ==> ranges.len() == 0)
    &&& (total > 0 ==> ranges.len() > 0 && ranges.last().1 == total)
}

/// Groups `total` documents into batches no larger than `batch_size`. With a batch
/// size of 0 there is no batch.
pub fn batch_ranges(total: usize, batch_size: usize) -> (ranges: Vec<(usize, usize)>)
    ensures
        batch_size > 0 ==> is_batching(ranges@, total as nat, batch_size as nat),
        batch_size == 0 ==> ranges.len() == 0,
{
    let mut ranges: Vec<(usize, usize)> = Vec::new();
    if batch_size == 0 {
        return ranges;
    }
    let mut start: usize = 0;
    assert(0 * batch_size == 0) by (nonlinear_arith);
    while start < total
        invariant
            batch_size > 0,
            start <= total,
            start < total ==> start == ranges.len() * batch_size,
            ranges.len() == 0 ==> start == 0,
            ranges.len() > 0 ==> ranges@.last().1 == start,
            start < total && ranges.len() > 0 ==> ranges@.last().1 - ranges@.last().0
                == batch_size,
            forall|k: int|
                0 <= k < ranges.len() ==> {
                    &&& (#[trigger] ranges[k]).0 == k * batch_size
                    &&& ranges[k].0 < ranges[k].1 <= total
                    &&& ranges[k].1 - ranges[k].0 <= batch_size
                },
            forall|k: int|
                0 <= k < ranges.len() - 1 ==> (#[trigger] ranges[k]).1 - ranges[k].0 == batch_size,
        decreases total - start,
    {
        let end = if total - start > batch_size {
            start + batch_size
        } else {
            total
        };
        assert((ranges.len() + 1) * batch_size == ranges.len() * batch_size + batch_size)
            by (nonlinear_arith);
        ranges.push((start, end));
        start = end;
    }
    ranges
}

/// The reason given for a batch size of 0.
pub open spec fn no_batch_size() -> Seq<char> {
    "must be positive"@
}

/// What the pipeline promises of the matrices of a successful call: one for each
/// text, each with rows of `dim` entries and no more rows than `max_length`.
pub open spec fn well_shaped<T>(
    matrices: Seq<Vec<Vec<T>>>,
    texts: nat,
    dim: nat,
    max_length: nat,
) -> bool {
    &&& matrices.len() == texts
    &&& forall|i: int|
        0 <= i < matrices.len() ==> {
            &&& rows_have_dim((#[trigger] matrices[i])@, dim)
            &&& matrices[i].len() <= max_length
        }
}

/// Embeds documents for indexing. The texts go to the encoding engine and to the
/// backend in batches of at most `config.batch_size`, in order; each batch is held to its
/// encodings and stripped of padding. The first failure of the tokenizer, of the
/// backend or of a shape ends the call, and nothing of the call is handed on.
pub fn embed_documents<T, E: Embedder<T>, C: Encoder>(
    embedder: &E,
    engine: &C,
    tokenizer: &TokenizerWrapper,
    texts: &[&str],
    config: &ModelConfig,
) -> (embedded: Result<TokenEmbeddings<T>, AppError>)
    ensures
        config.batch_size == 0 ==> (embedded matches Err(err) && is_validation(
            err,
            "batch_size"@,
            no_batch_size(),
        )),
        config.batch_size > 0 && texts.len() == 0 ==> (embedded matches Ok(out)
            && out.embeddings.len() == 0),
        embedded matches Ok(out) ==> well_shaped(
            out.embeddings@,
            texts.len() as nat,
            config.token_dim as nat,
            tokenizer.doc_max_length() as nat,
        ),
{
    if config.batch_size == 0 {
        return Err(validation_error("batch_size", "must be positive"));
    }
    let ranges = batch_ranges(texts.len(), config.batch_size);
    let mut all: Vec<Vec<Vec<T>>> = Vec::new();
    let mut k: usize = 0;
    while k < ranges.len()
        invariant
            k <= ranges.len(),
            config.batch_size > 0,
            is_batching(ranges@, texts.len() as nat, config.batch_size as nat),
            k < ranges.len() ==> all.len() == ranges[k as int].0,
            k == ranges.len() ==> all.len() == texts.len(),
            forall|i: int|
                0 <= i < all.len() ==> {
                    &&& rows_have_dim((#[trigger] all[i])@, config.token_dim as nat)
                    &&& all[i].len() <= tokenizer.doc_max_length()
                },
        decreases ranges.len() - k,
    {
        let (start, end) = ranges[k];
        let batch = vstd::slice::slice_subrange(texts, start, end);
        let encodings = match tokenizer.encode_documents(engine, batch) {
            Ok(encodings) => encodings,
            Err(err) => {
                return Err(err);
            },
        };
        let raw = match embedder.embed_documents(batch) {
            Ok(raw) => raw,
            Err(err) => {
                return Err(err);
            },
        };
        let ghost given = raw.embeddings@;
        let mut matrices = match finish_batch(raw, &encodings, config.token_dim) {
            Ok(matrices) => matrices,
            Err(err) => {
                return Err(err);
            },
        };
        proof {
            lemma_no_shape_fault(given, encodings@, config.token_dim as nat, 0);
            assert forall|j: int| 0 <= j < matrices.len() implies {
                &&& rows_have_dim((#[trigger] matrices[j])@, config.token_dim as nat)
                &&& matrices[j].len() <= tokenizer.doc_max_length()
            } by {
                lemma_stripped_shape(given[j]@, encodings[j], config.token_dim as nat);
            }
            assert(matrices.len() == end - start);
            if k + 1 < ranges.len() {
                assert((k + 1) * config.batch_size == k * config.batch_size + config.batch_size)
                    by (nonlinear_arith);
                assert(ranges[k + 1].0 == (k + 1) * config.batch_size);
            } else {
                assert(ranges@.last() == ranges[k as int]);
            }
        }
        all.append(&mut matrices);
        k += 1;
    }
    Ok(TokenEmbeddings { embeddings: all })
}

/// Embeds a query for searching: the text is encoded in query mode, embedded by the
/// backend, held to its encoding and stripped of padding.
pub fn embed_query<T, E: Embedder<T>, C: Encoder>(
    embedder: &E,
    engine: &C,
    tokenizer: &TokenizerWrapper,
    text: &str,
    config: &ModelConfig,
) -> (embedded: Result<Vec<Vec<T>>, AppError>)
    ensures
        embedded matches Ok(matrix) ==> rows_have_dim(matrix@, config.token_dim as nat)
            && matrix.len() <= tokenizer.query_max_length(),
{
    let encoding = match tokenizer.encode_query(engine, text) {
        Ok(encoding) => encoding,
        Err(err) => {
            return Err(err);
        },
    };
    let raw = match embedder.embed_query(text) {
        Ok(raw) => raw,
        Err(err) => {
            return Err(err);
        },
    };
    let finished = finish_matrix(raw, &encoding, config.token_dim);
    proof {
        if finished is Ok {
            lemma_stripped_shape(raw@, encoding, config.token_dim as nat);
        }
    }
    finished
}

/// In a batch without fault no matrix at or after `from` has one.
pub proof fn lemma_no_shape_fault<T>(
    matrices: Seq<Vec<Vec<T>>>,
    encodings: Seq<Encoding>,
    dim: nat,
    from: int,
)
    requires
        0 <= from,
        matrices.len() == encodings.len(),
        first_shape_fault(matrices, encodings, dim, from) is None,
    ensures
        forall|j: int|
            from <= j < matrices.len() ==> matrix_fault(
                (#[trigger] matrices[j])@,
                encodings[j],
                dim,
            ) is None,
    decreases matrices.len() - from,
{
    if from < matrices.len() {
        lemma_no_shape_fault(matrices, encodings, dim, from + 1);
    }
}

} // verus!
