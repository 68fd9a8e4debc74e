use omengrep::embedding::{
    batch_ranges, embed_documents, embed_query, finish_batch, finish_matrix, Embedder, ShapeFault,
    TokenEmbeddings,
};
use omengrep::errors::AppError;
use omengrep::model::{edge_model, ModelConfig};
use omengrep::records::{assemble_records, block_ids, distinct_ids, Block, BlockMetadata};
use omengrep::tokenizer::{Encoder, Encoding, TokenizerWrapper};
use tokenizers::Tokenizer;

/// Runs the tokenizer that it is handed.
struct Engine;

fn plain(encoding: &tokenizers::Encoding) -> Encoding {
    Encoding {
        ids: encoding.get_ids().to_vec(),
        attention_mask: encoding.get_attention_mask().to_vec(),
    }
}

impl Encoder for Engine {
    fn encode(&self, tokenizer: &Tokenizer, text: &str) -> Result<Encoding, String> {
        match tokenizer.encode(text, true) {
            Ok(encoding) => Ok(plain(&encoding)),
            Err(e) => Err(e.to_string()),
        }
    }

    fn encode_batch(&self, tokenizer: &Tokenizer, texts: &[&str]) -> Result<Vec<Encoding>, String> {
        match tokenizer.encode_batch(texts.to_vec(), true) {
            Ok(all) => Ok(all.iter().map(plain).collect()),
            Err(e) => Err(e.to_string()),
        }
    }
}

fn load(vocabulary: &[u8]) -> Result<Tokenizer, String> {
    Tokenizer::from_bytes(vocabulary).map_err(|e| e.to_string())
}

/// An engine that is out of order.
struct DeadEngine;

impl Encoder for DeadEngine {
    fn encode(&self, _tokenizer: &Tokenizer, _text: &str) -> Result<Encoding, String> {
        Err("no engine".to_string())
    }

    fn encode_batch(&self, _tokenizer: &Tokenizer, _texts: &[&str]) -> Result<Vec<Encoding>, String> {
        Err("no engine".to_string())
    }
}
use std::sync::atomic::{AtomicUsize, Ordering};

fn word_vocabulary() -> Vec<u8> {
    let mut json = String::new();
    json.push_str("{\"version\":\"1.0\",\"truncation\":null,\"padding\":null,");
    json.push_str("\"added_tokens\":[],\"normalizer\":null,");
    json.push_str("\"pre_tokenizer\":{\"type\":\"Whitespace\"},");
    json.push_str("\"post_processor\":null,\"decoder\":null,");
    json.push_str("\"model\":{\"type\":\"WordLevel\",\"vocab\":{");
    json.push_str("\"[PAD]\":0,\"[UNK]\":1,\"a\":2,\"b\":3,\"c\":4},\"unk_token\":\"[UNK]\"}}");
    json.into_bytes()
}

fn config(token_dim: usize, doc_max_length: usize, batch_size: usize) -> ModelConfig {
    ModelConfig { token_dim, doc_max_length, query_max_length: 2, batch_size, ..edge_model() }
}

fn matrix(rows: usize, dim: usize, seed: f32) -> Vec<Vec<f32>> {
    let mut out = Vec::new();
    for r in 0..rows {
        out.push(vec![seed + r as f32; dim]);
    }
    out
}

/// Gives each text a row for each position of its batch, as a padded model run does.
struct PaddedBackend {
    dim: usize,
    limit: usize,
    calls: AtomicUsize,
    largest: AtomicUsize,
}

impl PaddedBackend {
    fn new(dim: usize, limit: usize) -> Self {
        PaddedBackend { dim, limit, calls: AtomicUsize::new(0), largest: AtomicUsize::new(0) }
    }
}

fn words(text: &str, limit: usize) -> usize {
    text.split_whitespace().count().min(limit)
}

impl Embedder<f32> for PaddedBackend {
    fn embed_documents(&self, texts: &[&str]) -> Result<TokenEmbeddings<f32>, AppError> {
        self.calls.fetch_add(1, Ordering::SeqCst);
        self.largest.fetch_max(texts.len(), Ordering::SeqCst);
        let longest = texts.iter().map(|t| words(t, self.limit)).max().unwrap_or(0);
        let mut embeddings = Vec::new();
        for (i, _) in texts.iter().enumerate() {
            embeddings.push(matrix(longest, self.dim, 100.0 * i as f32));
        }
        Ok(TokenEmbeddings { embeddings })
    }

    fn embed_query(&self, text: &str) -> Result<Vec<Vec<f32>>, AppError> {
        Ok(matrix(words(text, 2), self.dim, 0.5))
    }
}

/// Fails on every call.
struct BrokenBackend;

impl Embedder<f32> for BrokenBackend {
    fn embed_documents(&self, _texts: &[&str]) -> Result<TokenEmbeddings<f32>, AppError> {
        Err(AppError::Internal("backend gone".to_string()))
    }

    fn embed_query(&self, _text: &str) -> Result<Vec<Vec<f32>>, AppError> {
        Err(AppError::Internal("backend gone".to_string()))
    }
}

/// Forgets the last text of every batch.
struct ForgetfulBackend;

impl Embedder<f32> for ForgetfulBackend {
    fn embed_documents(&self, texts: &[&str]) -> Result<TokenEmbeddings<f32>, AppError> {
        let mut embeddings = Vec::new();
        for _ in 1..texts.len() {
            embeddings.push(matrix(1, 4, 0.0));
        }
        Ok(TokenEmbeddings { embeddings })
    }

    fn embed_query(&self, _text: &str) -> Result<Vec<Vec<f32>>, AppError> {
        Ok(matrix(7, 4, 0.0))
    }
}

fn block(id: &str, text: &str, start_line: usize) -> Block {
    Block {
        id: id.to_string(),
        text: text.to_string(),
        metadata: BlockMetadata {
            file: "src/lib.rs".to_string(),
            kind: "function".to_string(),
            name: id.to_string(),
            start_line,
            end_line: start_line + 2,
        },
    }
}

#[test]
fn batches_cover_all_documents_in_order() {
    assert_eq!(batch_ranges(0, 4), Vec::<(usize, usize)>::new());
    assert_eq!(batch_ranges(3, 4), vec![(0, 3)]);
    assert_eq!(batch_ranges(4, 4), vec![(0, 4)]);
    assert_eq!(batch_ranges(5, 4), vec![(0, 4), (4, 5)]);
    assert_eq!(batch_ranges(10, 3), vec![(0, 3), (3, 6), (6, 9), (9, 10)]);
    assert_eq!(batch_ranges(3, 1), vec![(0, 1), (1, 2), (2, 3)]);
    assert_eq!(batch_ranges(7, 0), Vec::<(usize, usize)>::new());
    assert_eq!(batch_ranges(usize::MAX, usize::MAX), vec![(0, usize::MAX)]);
}

#[test]
fn fifty_tokens_under_length_512_give_fifty_rows() {
    let mut attention_mask = vec![1u32; 50];
    attention_mask.extend(vec![0u32; 462]);
    let encoding = Encoding { ids: vec![9; 512], attention_mask };
    assert_eq!(encoding.len(), 512);
    assert_eq!(encoding.token_count(), 50);
    let rows = finish_matrix(matrix(512, 48, 0.0), &encoding, 48).unwrap();
    assert_eq!(rows.len(), 50);
    assert!(rows.iter().all(|row| row.len() == 48));
    assert_eq!(rows[0][0], 0.0);
    assert_eq!(rows[49][47], 49.0);
    // A backend that already stripped the padding is taken as it is.
    let rows = finish_matrix(matrix(50, 48, 1.0), &encoding, 48).unwrap();
    assert_eq!(rows.len(), 50);
    assert_eq!(rows[49][0], 50.0);
}

#[test]
fn matrix_faults_are_named() {
    let encoding = Encoding { ids: vec![1, 2, 0], attention_mask: vec![1, 1, 0] };
    let err = finish_matrix(matrix(4, 2, 0.0), &encoding, 2).unwrap_err();
    assert_eq!(
        err.to_string(),
        "Validation error for 'embeddings': rows do not match the tokens of the text"
    );
    let err = finish_matrix(matrix(3, 3, 0.0), &encoding, 2).unwrap_err();
    assert_eq!(
        err.to_string(),
        "Validation error for 'embeddings': a row does not have the token dimension"
    );
    assert_eq!(
        ShapeFault::CountMismatch.to_error().to_string(),
        "Validation error for 'embeddings': expected one matrix for each text"
    );
    let kept = finish_matrix(matrix(3, 2, 0.0), &encoding, 2).unwrap();
    assert_eq!(kept, vec![vec![0.0, 0.0], vec![1.0, 1.0]]);
    let gap = Encoding { ids: vec![1, 0, 2], attention_mask: vec![1, 0, 1] };
    let kept = finish_matrix(matrix(3, 1, 0.0), &gap, 1).unwrap();
    assert_eq!(kept, vec![vec![0.0], vec![2.0]]);
}

#[test]
fn batch_is_refused_as_a_whole() {
    let encodings = vec![
        Encoding { ids: vec![1, 0], attention_mask: vec![1, 0] },
        Encoding { ids: vec![1, 2], attention_mask: vec![1, 1] },
    ];
    let raw = TokenEmbeddings { embeddings: vec![matrix(2, 2, 0.0), matrix(2, 2, 10.0)] };
    let finished = finish_batch(raw, &encodings, 2).unwrap();
    assert_eq!(finished, vec![vec![vec![0.0, 0.0]], vec![vec![10.0, 10.0], vec![11.0, 11.0]]]);
    let raw = TokenEmbeddings { embeddings: vec![matrix(2, 2, 0.0)] };
    let err = finish_batch(raw, &encodings, 2).unwrap_err();
    assert_eq!(
        err.to_string(),
        "Validation error for 'embeddings': expected one matrix for each text"
    );
    let raw = TokenEmbeddings { embeddings: vec![matrix(2, 2, 0.0), matrix(5, 2, 0.0)] };
    assert!(finish_batch(raw, &encodings, 2).is_err());
    let raw = TokenEmbeddings { embeddings: vec![matrix(2, 2, 0.0), matrix(2, 3, 0.0)] };
    let err = finish_batch(raw, &encodings, 2).unwrap_err();
    assert_eq!(
        err.to_string(),
        "Validation error for 'embeddings': a row does not have the token dimension"
    );
}

#[test]
fn documents_are_embedded_in_batches_without_padding() {
    let tokenizer = TokenizerWrapper::new_with_config(&config(4, 3, 2), load(&word_vocabulary())).unwrap();
    let backend = PaddedBackend::new(4, 3);
    let texts = ["a", "a b c", "a b", "a b c a b c", "b"];
    let out = embed_documents(&backend, &Engine, &tokenizer, &texts, &config(4, 3, 2)).unwrap();
    assert_eq!(backend.calls.load(Ordering::SeqCst), 3);
    assert_eq!(backend.largest.load(Ordering::SeqCst), 2);
    let rows: Vec<usize> = out.embeddings.iter().map(|m| m.len()).collect();
    assert_eq!(rows, vec![1, 3, 2, 3, 1]);
    assert!(out.embeddings.iter().all(|m| m.iter().all(|row| row.len() == 4)));
    // Second text of the first batch, first of the second, only one of the third.
    assert_eq!(out.embeddings[1][2][0], 102.0);
    assert_eq!(out.embeddings[2][1][0], 1.0);
    assert_eq!(out.embeddings[4][0][0], 0.0);
}

#[test]
fn no_documents_need_no_call() {
    let tokenizer = TokenizerWrapper::new_with_config(&config(4, 3, 2), load(&word_vocabulary())).unwrap();
    let backend = PaddedBackend::new(4, 3);
    let texts: Vec<&str> = Vec::new();
    let out = embed_documents(&backend, &Engine, &tokenizer, &texts, &config(4, 3, 2)).unwrap();
    assert_eq!(out.embeddings.len(), 0);
    assert_eq!(backend.calls.load(Ordering::SeqCst), 0);
}

#[test]
fn batch_size_must_be_positive() {
    let tokenizer = TokenizerWrapper::new_with_config(&config(4, 3, 0), load(&word_vocabulary())).unwrap();
    let backend = PaddedBackend::new(4, 3);
    let err = match embed_documents(&backend, &Engine, &tokenizer, &["a"], &config(4, 3, 0)) {
        Err(err) => err,
        Ok(_) => panic!("a batch size of 0 was accepted"),
    };
    assert_eq!(err.to_string(), "Validation error for 'batch_size': must be positive");
    assert_eq!(backend.calls.load(Ordering::SeqCst), 0);
}

#[test]
fn backend_failure_fails_the_call() {
    let tokenizer = TokenizerWrapper::new_with_config(&config(4, 3, 2), load(&word_vocabulary())).unwrap();
    let err = match embed_documents(&BrokenBackend, &Engine, &tokenizer, &["a", "b", "c"], &config(4, 3, 2)) {
        Err(err) => err,
        Ok(_) => panic!("a failed backend gave embeddings"),
    };
    assert_eq!(err.to_string(), "Internal error: backend gone");
    assert!(embed_query(&BrokenBackend, &Engine, &tokenizer, "a", &config(4, 3, 2)).is_err());
    let err = match embed_documents(&ForgetfulBackend, &Engine, &tokenizer, &["a", "b"], &config(4, 3, 2)) {
        Err(err) => err,
        Ok(_) => panic!("a missing matrix went unnoticed"),
    };
    assert_eq!(
        err.to_string(),
        "Validation error for 'embeddings': expected one matrix for each text"
    );
    assert!(embed_query(&ForgetfulBackend, &Engine, &tokenizer, "a b c", &config(4, 3, 2)).is_err());
}

#[test]
fn engine_failure_fails_the_call() {
    let tokenizer =
        TokenizerWrapper::new_with_config(&config(4, 3, 2), load(&word_vocabulary())).unwrap();
    let backend = PaddedBackend::new(4, 3);
    let err = match embed_documents(&backend, &DeadEngine, &tokenizer, &["a"], &config(4, 3, 2)) {
        Err(err) => err,
        Ok(_) => panic!("a failed engine gave embeddings"),
    };
    assert_eq!(err.to_string(), "Internal error: no engine");
    assert_eq!(backend.calls.load(Ordering::SeqCst), 0);
    let err = match embed_query(&backend, &DeadEngine, &tokenizer, "a", &config(4, 3, 2)) {
        Err(err) => err,
        Ok(_) => panic!("a failed engine gave embeddings"),
    };
    assert_eq!(err.to_string(), "Internal error: no engine");
}

#[test]
fn query_is_embedded_in_query_mode() {
    let tokenizer = TokenizerWrapper::new_with_config(&config(4, 3, 2), load(&word_vocabulary())).unwrap();
    let backend = PaddedBackend::new(4, 3);
    let rows = embed_query(&backend, &Engine, &tokenizer, "a b c a", &config(4, 3, 2)).unwrap();
    assert_eq!(rows.len(), 2);
    assert_eq!(rows[1], vec![1.5, 1.5, 1.5, 1.5]);
    // The backend answers with rows of 4 numbers; another dimension is a fault.
    assert!(embed_query(&backend, &Engine, &tokenizer, "a", &config(5, 3, 2)).is_err());
}

#[test]
fn records_join_blocks_and_embeddings() {
    let blocks = vec![block("lib.rs:1-3", "fn a() {}", 1), block("lib.rs:5-7", "fn b() {}", 5)];
    let embeddings = TokenEmbeddings { embeddings: vec![matrix(3, 2, 0.0), matrix(1, 2, 9.0)] };
    let records = match assemble_records(&blocks, embeddings) {
        Ok(records) => records,
        Err(_) => panic!("matching blocks and embeddings were refused"),
    };
    assert_eq!(records.len(), 2);
    assert_eq!(records[0].block_id, "lib.rs:1-3");
    assert_eq!(records[0].raw_text, "fn a() {}");
    assert_eq!(records[0].token_embeddings.len(), 3);
    assert_eq!(records[0].metadata.file, "src/lib.rs");
    assert_eq!(records[0].metadata.kind, "function");
    assert_eq!(records[0].metadata.start_line, 1);
    assert_eq!(records[0].metadata.end_line, 3);
    assert_eq!(records[1].block_id, "lib.rs:5-7");
    assert_eq!(records[1].token_embeddings, vec![vec![9.0, 9.0]]);
    assert_eq!(records[1].metadata.name, "lib.rs:5-7");
    assert_eq!(block_ids(&blocks), vec!["lib.rs:1-3".to_string(), "lib.rs:5-7".to_string()]);
}

#[test]
fn records_need_one_matrix_each_and_distinct_ids() {
    let blocks = vec![block("one", "a", 1), block("two", "b", 2)];
    let embeddings = TokenEmbeddings { embeddings: vec![matrix(1, 2, 0.0)] };
    let err = match assemble_records(&blocks, embeddings) {
        Err(err) => err,
        Ok(_) => panic!("a missing matrix went unnoticed"),
    };
    assert_eq!(err.to_string(), "Validation error for 'blocks': expected one matrix for each block");
    let twice = vec![block("one", "a", 1), block("two", "b", 2), block("one", "c", 3)];
    assert!(!distinct_ids(&twice));
    assert!(distinct_ids(&blocks));
    assert!(distinct_ids(&Vec::new()));
    let embeddings =
        TokenEmbeddings { embeddings: vec![matrix(1, 2, 0.0), matrix(1, 2, 0.0), matrix(1, 2, 0.0)] };
    let err = match assemble_records(&twice, embeddings) {
        Err(err) => err,
        Ok(_) => panic!("a repeated block id went unnoticed"),
    };
    assert_eq!(err.to_string(), "Validation error for 'block_id': occurs twice");
}
