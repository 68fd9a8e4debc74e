use omengrep::errors::AppError;
use omengrep::model::{edge_model, ModelConfig};
use omengrep::padding::{count_real, strip_padding};
use omengrep::tokenizer::{
    check_batch, check_encoding, Encoder, Encoding, EncodingFault, TokenizerWrapper,
};
use tokenizers::Tokenizer;

/// Runs the tokenizer that it is handed.
struct Engine;

fn plain(encoding: &tokenizers::Encoding) -> Encoding {
    Encoding {
        ids: encoding.get_ids().to_vec(),
        attention_mask: encoding.get_attention_mask().to_vec(),
    }
}

impl Encoder for Engine {
    fn encode(&self, tokenizer: &Tokenizer, text: &str) -> Result<Encoding, String> {
        match tokenizer.encode(text, true) {
            Ok(encoding) => Ok(plain(&encoding)),
            Err(e) => Err(e.to_string()),
        }
    }

    fn encode_batch(&self, tokenizer: &Tokenizer, texts: &[&str]) -> Result<Vec<Encoding>, String> {
        match tokenizer.encode_batch(texts.to_vec(), true) {
            Ok(all) => Ok(all.iter().map(plain).collect()),
            Err(e) => Err(e.to_string()),
        }
    }
}

fn load(vocabulary: &[u8]) -> Result<Tokenizer, String> {
    Tokenizer::from_bytes(vocabulary).map_err(|e| e.to_string())
}

fn vocabulary(post_processor: &str) -> Vec<u8> {
    let mut json = String::new();
    json.push_str("{\"version\":\"1.0\",\"truncation\":null,\"padding\":null,");
    json.push_str("\"added_tokens\":[],\"normalizer\":null,");
    json.push_str("\"pre_tokenizer\":{\"type\":\"Whitespace\"},");
    json.push_str("\"post_processor\":");
    json.push_str(post_processor);
    json.push_str(",\"decoder\":null,");
    json.push_str("\"model\":{\"type\":\"WordLevel\",\"vocab\":{");
    json.push_str("\"[PAD]\":0,\"[UNK]\":1,\"[CLS]\":2,\"[SEP]\":3,");
    json.push_str("\"fn\":4,\"main\":5,\"let\":6,\"x\":7},\"unk_token\":\"[UNK]\"}}");
    json.into_bytes()
}

fn plain_vocabulary() -> Vec<u8> {
    vocabulary("null")
}

fn framed_vocabulary() -> Vec<u8> {
    let mut processor = String::new();
    processor.push_str("{\"type\":\"TemplateProcessing\",");
    processor.push_str("\"single\":[{\"SpecialToken\":{\"id\":\"[CLS]\",\"type_id\":0}},");
    processor.push_str("{\"Sequence\":{\"id\":\"A\",\"type_id\":0}},");
    processor.push_str("{\"SpecialToken\":{\"id\":\"[SEP]\",\"type_id\":0}}],");
    processor.push_str("\"pair\":[{\"SpecialToken\":{\"id\":\"[CLS]\",\"type_id\":0}},");
    processor.push_str("{\"Sequence\":{\"id\":\"A\",\"type_id\":0}},");
    processor.push_str("{\"SpecialToken\":{\"id\":\"[SEP]\",\"type_id\":0}},");
    processor.push_str("{\"Sequence\":{\"id\":\"B\",\"type_id\":1}},");
    processor.push_str("{\"SpecialToken\":{\"id\":\"[SEP]\",\"type_id\":1}}],");
    processor.push_str("\"special_tokens\":{");
    processor.push_str("\"[CLS]\":{\"id\":\"[CLS]\",\"ids\":[2],\"tokens\":[\"[CLS]\"]},");
    processor.push_str("\"[SEP]\":{\"id\":\"[SEP]\",\"ids\":[3],\"tokens\":[\"[SEP]\"]}}}");
    vocabulary(&processor)
}

fn config(doc_max_length: usize, query_max_length: usize) -> ModelConfig {
    ModelConfig { doc_max_length, query_max_length, ..edge_model() }
}

fn encoding(ids: Vec<u32>, attention_mask: Vec<u32>) -> Encoding {
    Encoding { ids, attention_mask }
}

#[test]
fn builds_from_vocabulary_bytes() {
    let wrapper = TokenizerWrapper::new_with_config(&config(3, 2), load(&plain_vocabulary())).unwrap();
    assert_eq!(wrapper.doc_max_length(), 3);
    assert_eq!(wrapper.query_max_length(), 2);
    let wrapper = TokenizerWrapper::new_with_config(&edge_model(), load(&plain_vocabulary())).unwrap();
    assert_eq!(wrapper.doc_max_length(), 512);
    assert_eq!(wrapper.query_max_length(), 256);
}

#[test]
fn malformed_vocabulary_is_rejected() {
    let built = TokenizerWrapper::new_with_config(&edge_model(), load(b"not a vocabulary"));
    match built {
        Err(AppError::Validation(e)) => {
            assert_eq!(e.field, "vocabulary");
            assert!(!e.message.is_empty());
            assert_eq!(e.value, None);
        },
        _ => panic!("a malformed vocabulary was accepted"),
    }
    match TokenizerWrapper::new_with_config(&edge_model(), load(b"")) {
        Err(err) => assert_eq!(
            err.to_string(),
            "Validation error for 'vocabulary': EOF while parsing a value at line 1 column 0"
        ),
        Ok(_) => panic!("an empty vocabulary was accepted"),
    }
    assert!(TokenizerWrapper::new_with_config(&edge_model(), load(b"{}")).is_err());
}

#[test]
fn length_must_leave_room_for_special_tokens() {
    let built = TokenizerWrapper::new_with_config(&config(1, 8), load(&framed_vocabulary()));
    match built {
        Err(err) => assert_eq!(
            err.to_string(),
            "Validation error for 'doc_max_length': shorter than the special tokens of the vocabulary"
        ),
        Ok(_) => panic!("a document length of 1 was accepted"),
    }
    let built = TokenizerWrapper::new_with_config(&config(8, 0), load(&framed_vocabulary()));
    match built {
        Err(err) => assert_eq!(
            err.to_string(),
            "Validation error for 'query_max_length': shorter than the special tokens of the vocabulary"
        ),
        Ok(_) => panic!("a query length of 0 was accepted"),
    }
    assert!(TokenizerWrapper::new_with_config(&config(2, 2), load(&framed_vocabulary())).is_ok());
    assert!(TokenizerWrapper::new_with_config(&config(0, 0), load(&plain_vocabulary())).is_ok());
}

#[test]
fn refused_vocabulary_keeps_its_message() {
    let built =
        TokenizerWrapper::new_with_config(&config(4, 2), Err("unexpected end of input".to_string()));
    match built {
        Err(err) => assert_eq!(
            err.to_string(),
            "Validation error for 'vocabulary': unexpected end of input"
        ),
        Ok(_) => panic!("a refusal gave a tokenizer"),
    }
    let wrapper = TokenizerWrapper::new_with_config(&config(4, 2), load(&plain_vocabulary())).unwrap();
    assert_eq!(wrapper.query_max_length(), 2);
}

#[test]
fn from_tokenizer_takes_a_loaded_tokenizer() {
    let base = load(&plain_vocabulary()).unwrap();
    let wrapper = TokenizerWrapper::from_tokenizer(base, 4, 2).unwrap();
    assert_eq!(wrapper.doc_max_length(), 4);
    let query = wrapper.encode_query(&Engine, "fn main let x").unwrap();
    assert_eq!(query.ids, vec![4, 5]);
}

#[test]
fn documents_are_truncated_at_document_length() {
    let wrapper = TokenizerWrapper::new_with_config(&config(3, 2), load(&plain_vocabulary())).unwrap();
    let encoded = wrapper.encode_documents(&Engine, &["fn main let x"]).unwrap();
    assert_eq!(encoded.len(), 1);
    assert_eq!(encoded[0].ids, vec![4, 5, 6]);
    assert_eq!(encoded[0].attention_mask, vec![1, 1, 1]);
    assert_eq!(encoded[0].token_count(), 3);
}

#[test]
fn queries_are_truncated_at_query_length() {
    let wrapper = TokenizerWrapper::new_with_config(&config(3, 2), load(&plain_vocabulary())).unwrap();
    let encoded = wrapper.encode_query(&Engine, "fn main let x").unwrap();
    assert_eq!(encoded.ids, vec![4, 5]);
    assert_eq!(encoded.attention_mask, vec![1, 1]);
    let encoded = wrapper.encode_query(&Engine, "x").unwrap();
    assert_eq!(encoded.ids, vec![7]);
    let encoded = wrapper.encode_query(&Engine, "").unwrap();
    assert_eq!(encoded.len(), 0);
    assert_eq!(encoded.token_count(), 0);
}

#[test]
fn document_length_may_be_below_query_length() {
    let wrapper =
        TokenizerWrapper::new_with_config(&config(2, 3), load(&plain_vocabulary())).unwrap();
    assert_eq!(wrapper.doc_max_length(), 2);
    assert_eq!(wrapper.query_max_length(), 3);
    let documents = wrapper.encode_documents(&Engine, &["fn main let x"]).unwrap();
    assert_eq!(documents[0].ids, vec![4, 5]);
    let query = wrapper.encode_query(&Engine, "fn main let x").unwrap();
    assert_eq!(query.ids, vec![4, 5, 6]);
    let framed =
        TokenizerWrapper::new_with_config(&config(3, 5), load(&framed_vocabulary())).unwrap();
    let documents = framed.encode_documents(&Engine, &["fn main let x", "x"]).unwrap();
    assert_eq!(documents[0].ids, vec![2, 4, 3]);
    assert_eq!(documents[1].ids, vec![2, 7, 3]);
    let query = framed.encode_query(&Engine, "fn main let x").unwrap();
    assert_eq!(query.ids, vec![2, 4, 5, 6, 3]);
}

#[test]
fn both_modes_share_one_vocabulary() {
    let wrapper = TokenizerWrapper::new_with_config(&config(8, 8), load(&plain_vocabulary())).unwrap();
    let document = wrapper.encode_documents(&Engine, &["let x unknown"]).unwrap();
    let query = wrapper.encode_query(&Engine, "let x unknown").unwrap();
    assert_eq!(document[0].ids, vec![6, 7, 1]);
    assert_eq!(query.ids, document[0].ids);
}

#[test]
fn batch_is_padded_to_its_longest_and_keeps_order() {
    let wrapper = TokenizerWrapper::new_with_config(&config(8, 8), load(&plain_vocabulary())).unwrap();
    let encoded = wrapper.encode_documents(&Engine, &["fn", "fn main let", "x x"]).unwrap();
    assert_eq!(encoded.len(), 3);
    assert_eq!(encoded[0].ids, vec![4, 0, 0]);
    assert_eq!(encoded[0].attention_mask, vec![1, 0, 0]);
    assert_eq!(encoded[1].ids, vec![4, 5, 6]);
    assert_eq!(encoded[1].attention_mask, vec![1, 1, 1]);
    assert_eq!(encoded[2].ids, vec![7, 7, 0]);
    assert_eq!(encoded[2].attention_mask, vec![1, 1, 0]);
    assert_eq!(encoded[0].len(), 3);
    assert_eq!(encoded[0].token_count(), 1);
    assert_eq!(encoded[2].token_count(), 2);
    assert_eq!(encoded[0].clone().strip_padding(), vec![4]);
    assert_eq!(encoded[2].clone().strip_padding(), vec![7, 7]);
    let nothing: Vec<&str> = Vec::new();
    assert_eq!(wrapper.encode_documents(&Engine, &nothing).unwrap().len(), 0);
}

#[test]
fn special_tokens_count_towards_the_length() {
    let wrapper = TokenizerWrapper::new_with_config(&config(3, 4), load(&framed_vocabulary())).unwrap();
    let document = wrapper.encode_documents(&Engine, &["fn main let"]).unwrap();
    assert_eq!(document[0].ids, vec![2, 4, 3]);
    let query = wrapper.encode_query(&Engine, "fn main let").unwrap();
    assert_eq!(query.ids, vec![2, 4, 5, 3]);
    assert_eq!(query.token_count(), 4);
}

#[test]
fn token_counts_stay_within_both_lengths() {
    let wrapper = TokenizerWrapper::new_with_config(&config(5, 2), load(&framed_vocabulary())).unwrap();
    let texts = ["", "x", "fn main", "fn main let x", "fn main let x fn main let x"];
    let documents = wrapper.encode_documents(&Engine, &texts).unwrap();
    for (i, text) in texts.iter().enumerate() {
        assert!(documents[i].token_count() <= 5);
        assert!(documents[i].clone().strip_padding().len() <= 5);
        let query = wrapper.encode_query(&Engine, text).unwrap();
        assert!(query.token_count() <= 2);
    }
    assert_eq!(documents[4].token_count(), 5);
    assert_eq!(documents[0].token_count(), 2);
    assert_eq!(wrapper.encode_query(&Engine, texts[4]).unwrap().token_count(), 2);
}

#[test]
fn encoding_checks_name_the_fault() {
    assert!(check_encoding(Ok(encoding(vec![1, 2], vec![1, 1])), 2).is_ok());
    assert!(check_encoding(Ok(encoding(vec![], vec![])), 0).is_ok());
    let err = check_encoding(Ok(encoding(vec![1, 2], vec![1])), 2).unwrap_err();
    assert_eq!(
        err.to_string(),
        "Validation error for 'encoding': ids and attention mask differ in length"
    );
    let err = check_encoding(Ok(encoding(vec![1, 2, 3], vec![1, 1, 0])), 2).unwrap_err();
    assert_eq!(err.to_string(), "Validation error for 'encoding': longer than the truncation length");
    let err = check_encoding(Err("no model".to_string()), 2).unwrap_err();
    assert_eq!(err.to_string(), "Internal error: no model");
    assert_eq!(
        EncodingFault::CountMismatch.to_error().to_string(),
        "Validation error for 'encoding': expected one encoding for each text"
    );
}

#[test]
fn batch_checks_count_then_each_encoding() {
    let good = vec![encoding(vec![1], vec![1]), encoding(vec![2, 3], vec![1, 1])];
    assert_eq!(check_batch(Ok(good.clone()), 2, 2).unwrap().len(), 2);
    let err = check_batch(Ok(good.clone()), 3, 2).unwrap_err();
    assert_eq!(
        err.to_string(),
        "Validation error for 'encoding': expected one encoding for each text"
    );
    let err = check_batch(Ok(good), 2, 1).unwrap_err();
    assert_eq!(err.to_string(), "Validation error for 'encoding': longer than the truncation length");
    let mixed = vec![encoding(vec![1, 2, 3], vec![1, 1, 1]), encoding(vec![2], vec![])];
    let err = check_batch(Ok(mixed), 2, 2).unwrap_err();
    assert_eq!(err.to_string(), "Validation error for 'encoding': longer than the truncation length");
    assert!(check_batch(Ok(Vec::new()), 0, 0).is_ok());
    let err = check_batch(Err("pre-tokenizer failed".to_string()), 0, 0).unwrap_err();
    assert_eq!(err.to_string(), "Internal error: pre-tokenizer failed");
}

#[test]
fn stripping_keeps_items_at_real_positions() {
    assert_eq!(strip_padding(vec!['a', 'b', 'c', 'd'], &[1, 0, 1, 0]), vec!['a', 'c']);
    assert_eq!(strip_padding(vec![1, 2, 3], &[1, 1, 1]), vec![1, 2, 3]);
    assert_eq!(strip_padding(vec![1, 2, 3], &[0, 0, 0]), Vec::<i32>::new());
    assert_eq!(strip_padding(vec![1, 2, 3], &[5, 0, 7]), vec![1, 3]);
    assert_eq!(strip_padding(vec![1, 2, 3], &[1]), vec![1]);
    assert_eq!(strip_padding(Vec::<u8>::new(), &[1, 1]), Vec::<u8>::new());
    assert_eq!(count_real(&[1, 1, 0, 0]), 2);
    assert_eq!(count_real(&[]), 0);
    assert_eq!(count_real(&[0, 3]), 1);
}
