//! Embedding model configurations and their resolution by name or version tag.

use vstd::prelude::*;
use crate::text::str_eq;

verus! {

/// Configuration for an embedding model.
#[derive(Clone, Copy, Debug)]
pub struct ModelConfig {
    /// Repository that holds the artifacts.
    pub repo: &'static str,
    /// Name of the model artifact.
    pub model_file: &'static str,
    /// Name of the vocabulary artifact.
    pub tokenizer_file: &'static str,
    /// Dimension of one token embedding.
    pub token_dim: usize,
    /// Truncation length for documents.
    pub doc_max_length: usize,
    /// Truncation length for queries.
    pub query_max_length: usize,
    /// Version tag recorded with an index.
    pub version: &'static str,
    /// Largest number of documents embedded in one call.
    pub batch_size: usize,
}

/// Repository of the default model.
pub const MODEL_REPO: &'static str = "lightonai/LateOn-Code-edge";

/// Model artifact of the default model.
pub const MODEL_FILE: &'static str = "model.onnx";

/// Vocabulary artifact of the default model.
pub const TOKENIZER_FILE: &'static str = "tokenizer.json";

/// Token embedding dimension of the default model.
pub const TOKEN_DIM: usize = 48;

/// Document truncation length of the default model.
pub const DOC_MAX_LENGTH: usize = 512;

/// Query truncation length of the default model.
pub const QUERY_MAX_LENGTH: usize = 256;

/// Version tag of the default model.
pub const MODEL_VERSION: &'static str = "lateon-code-edge-v1";

/// Batch size of the default model.
pub const BATCH_SIZE: usize = 64;

/// The small model, which is the default.
pub open spec fn edge_model_spec() -> ModelConfig {
    ModelConfig {
        repo: MODEL_REPO,
        model_file: MODEL_FILE,
        tokenizer_file: TOKENIZER_FILE,
        token_dim: TOKEN_DIM,
        doc_max_length: DOC_MAX_LENGTH,
        query_max_length: QUERY_MAX_LENGTH,
        version: MODEL_VERSION,
        batch_size: BATCH_SIZE,
    }
}

/// The large model.
pub open spec fn full_model_spec() -> ModelConfig {
    ModelConfig {
        repo: "lightonai/LateOn-Code",
        model_file: "model.onnx",
        tokenizer_file: "tokenizer.json",
        token_dim: 128,
        doc_max_length: 512,
        query_max_length: 256,
        version: "lateon-code-v1",
        batch_size: 32,
    }
}

/// The small model, which is the default.
#[verifier::when_used_as_spec(edge_model_spec)]
pub fn edge_model() -> (config: ModelConfig)
    ensures
        config == edge_model_spec(),
{
    ModelConfig {
        repo: MODEL_REPO,
        model_file: MODEL_FILE,
        tokenizer_file: TOKENIZER_FILE,
        token_dim: TOKEN_DIM,
        doc_max_length: DOC_MAX_LENGTH,
        query_max_length: QUERY_MAX_LENGTH,
        version: MODEL_VERSION,
        batch_size: BATCH_SIZE,
    }
}

/// The large model.
#[verifier::when_used_as_spec(full_model_spec)]
pub fn full_model() -> (config: ModelConfig)
    ensures
        config == full_model_spec(),
{
    ModelConfig {
        repo: "lightonai/LateOn-Code",
        model_file: "model.onnx",
        tokenizer_file: "tokenizer.json",
        token_dim: 128,
        doc_max_length: 512,
        query_max_length: 256,
        version: "lateon-code-v1",
        batch_size: 32,
    }
}

/// The available models, each under its name.
pub open spec fn model_table() -> Seq<(&'static str, ModelConfig)> {
    seq![("edge", edge_model_spec()), ("full", full_model_spec())]
}

/// The available models, each under its name.
pub fn models() -> (table: Vec<(&'static str, ModelConfig)>)
    ensures
        table@ == model_table(),
{
    let mut table: Vec<(&'static str, ModelConfig)> = Vec::new();
    table.push(("edge", edge_model()));
    table.push(("full", full_model()));
    assert(table@ =~= model_table());
    table
}

/// The configuration of the first entry of `table` whose name is `name`.
pub open spec fn find_by_name(table: Seq<(&'static str, ModelConfig)>, name: Seq<char>) -> Option<
    ModelConfig,
>
    decreases table.len(),
{
    if table.len() == 0 {
        None
    } else if table[0].0@ == name {
        Some(table[0].1)
    } else {
        find_by_name(table.drop_first(), name)
    }
}

/// The configuration of the first entry of `table` whose version tag is `version`.
pub open spec fn find_by_version(
    table: Seq<(&'static str, ModelConfig)>,
    version: Seq<char>,
) -> Option<ModelConfig>
    decreases table.len(),
{
    if table.len() == 0 {
        None
    } else if table[0].1.version@ == version {
        Some(table[0].1)
    } else {
        find_by_version(table.drop_first(), version)
    }
}

/// The model that a name stands for: the one listed under it, and the default model
/// for no name or an unknown one.
pub open spec fn resolve_model_spec(name: Option<&str>) -> ModelConfig {
    match name {
        Some(n) => match find_by_name(model_table(), n@) {
            Some(config) => config,
            None => edge_model_spec(),
        },
        None => edge_model_spec(),
    }
}

/// The model that a version tag stands for: the one that carries it, and the default
/// model for an unknown tag.
pub open spec fn resolve_model_by_version_spec(version: &str) -> ModelConfig {
    match find_by_version(model_table(), version@) {
        Some(config) => config,
        None => edge_model_spec(),
    }
}

/// Resolve a model name to its config. Returns the default model for `None` and for
/// a name that no model has.
#[verifier::when_used_as_spec(resolve_model_spec)]
pub fn resolve_model(name: Option<&str>) -> (config: ModelConfig)
    ensures
        config == resolve_model_spec(name),
{
    match name {
        Some(n) => {
            let table = models();
            let mut i: usize = 0;
            assert(table@.skip(0) =~= table@);
            while i < table.len()
                invariant
                    i <= table.len(),
                    name == Some(n),
                    table@ == model_table(),
                    find_by_name(model_table(), n@) == find_by_name(table@.skip(i as int), n@),
                decreases table.len() - i,
            {
                let ghost rest = table@.skip(i as int);
                proof {
                    assert(rest[0] == table@[i as int]);
                    assert(rest.drop_first() =~= table@.skip(i + 1));
                }
                if str_eq(table[i].0, n) {
                    return table[i].1;
                }
                i += 1;
            }
            edge_model()
        },
        None => edge_model(),
    }
}

/// Resolve a model version string to its config. Returns the default model for a
/// tag that no model carries.
#[verifier::when_used_as_spec(resolve_model_by_version_spec)]
pub fn resolve_model_by_version(version: &str) -> (config: ModelConfig)
    ensures
        config == resolve_model_by_version_spec(version),
{
    let table = models();
    let mut i: usize = 0;
    assert(table@.skip(0) =~= table@);
    while i < table.len()
        invariant
            i <= table.len(),
            table@ == model_table(),
            find_by_version(model_table(), version@) == find_by_version(
                table@.skip(i as int),
                version@,
            ),
        decreases table.len() - i,
    {
        let ghost rest = table@.skip(i as int);
        proof {
            assert(rest[0] == table@[i as int]);
            assert(rest.drop_first() =~= table@.skip(i + 1));
        }
        if str_eq(table[i].1.version, version) {
            return table[i].1;
        }
        i += 1;
    }
    edge_model()
}

/// Each listed name resolves to its own model, and every other name to the default.
pub proof fn lemma_resolve_model_by_name(name: &str)
    ensures
        name@ == "edge"@ ==> resolve_model_spec(Some(name)) == edge_model_spec(),
        name@ == "full"@ ==> resolve_model_spec(Some(name)) == full_model_spec(),
        name@ != "edge"@ && name@ != "full"@ ==> resolve_model_spec(Some(name))
            == edge_model_spec(),
        resolve_model_spec(None) == edge_model_spec(),
{
    reveal_strlit("edge");
    reveal_strlit("full");
    reveal_with_fuel(find_by_name, 3);
    let table = model_table();
    assert(table.drop_first().drop_first().len() == 0);
    assert("edge"@[0] != "full"@[0]);
}

/// Each version tag resolves to the model that carries it, and every other tag to
/// the default.
pub proof fn lemma_resolve_model_by_version(version: &str)
    ensures
        version@ == "lateon-code-edge-v1"@ ==> resolve_model_by_version_spec(version)
            == edge_model_spec(),
        version@ == "lateon-code-v1"@ ==> resolve_model_by_version_spec(version)
            == full_model_spec(),
        version@ != "lateon-code-edge-v1"@ && version@ != "lateon-code-v1"@
            ==> resolve_model_by_version_spec(version) == edge_model_spec(),
{
    reveal_strlit("lateon-code-edge-v1");
    reveal_strlit("lateon-code-v1");
    reveal_with_fuel(find_by_version, 3);
    let table = model_table();
    assert(table.drop_first().drop_first().len() == 0);
    assert("lateon-code-edge-v1"@.len() != "lateon-code-v1"@.len());
}

} // verus!
