//! Dual-mode tokenization: one vocabulary, two truncation lengths.

use vstd::prelude::*;
use tokenizers::Tokenizer;
use crate::errors::{internal_error, is_internal, is_validation, validation_error, AppError};
use crate::model::ModelConfig;
use crate::padding::{count_real, keep_real, lemma_keep_real_len, real_count, strip_padding};

verus! {

/// The tokenizer of the `tokenizers` crate, carried through as an opaque value.
#[verifier::external_type_specification]
#[verifier::external_body]
pub struct ExTokenizer(tokenizers::Tokenizer);

/// How many special tokens the post-processor of `tokenizer` adds to a single
/// sequence, or `None` if the tokenizer has no post-processor.
pub uninterp spec fn special_tokens(tokenizer: Tokenizer) -> Option<usize>;

/// What one text was encoded to: the token ids, and for each position whether
/// it holds a token of the text (non-zero) or padding (zero).
#[derive(Debug, Clone)]
pub struct Encoding {
    pub ids: Vec<u32>,
    pub attention_mask: Vec<u32>,
}

/// Asks the post-processor of the tokenizer (`Tokenizer::get_post_processor`) how many
/// tokens it adds to a single sequence (`PostProcessor::added_tokens`), and names the
/// answer; nothing is claimed about its size.
#[verifier::external_body]
fn special_token_count(tokenizer: &Tokenizer) -> (count: Option<usize>)
    ensures
        count == special_tokens(*tokenizer),
{
    match tokenizer.get_post_processor() {
        Some(processor) => Some(tokenizers::PostProcessor::added_tokens(processor, false)),
        None => None,
    }
}

/// The ids that the vocabulary of `tokenizer` gives its tokens, added tokens
/// included, as `TokenizerImpl::get_vocab` lists them.
pub uninterp spec fn vocabulary(tokenizer: Tokenizer) -> Map<Seq<char>, u32>;

/// The length at which `tokenizer` truncates: the `max_length` of its truncation
/// parameters, as `TokenizerImpl::get_truncation` gives them, or `None` where it
/// does not truncate.
pub uninterp spec fn truncation_length(tokenizer: Tokenizer) -> Option<usize>;

/// Whether `tokenizer` pads each batch on the right to its longest encoding: its
/// padding parameters, as `TokenizerImpl::get_padding` gives them, are the defaults
/// of the crate.
pub uninterp spec fn pads_to_longest(tokenizer: Tokenizer) -> bool;

/// Copies a tokenizer with its derived `Clone`; the copy has the same post-processor,
/// the same vocabulary and the same truncation and padding parameters.
#[verifier::external_body]
fn clone_tokenizer(tokenizer: &Tokenizer) -> (copy: Tokenizer)
    ensures
        special_tokens(copy) == special_tokens(*tokenizer),
        vocabulary(copy) == vocabulary(*tokenizer),
        truncation_length(copy) == truncation_length(*tokenizer),
        pads_to_longest(copy) == pads_to_longest(*tokenizer),
{
    tokenizer.clone()
}

/// Whether `max_length` leaves room for `added` special tokens; without a
/// post-processor there are none.
pub open spec fn has_room(added: Option<usize>, max_length: usize) -> bool {
    match added {
        Some(count) => count <= max_length,
        None => true,
    }
}

/// Whether `max_length` leaves room for the special tokens that the post-processor of
/// `tokenizer` adds.
pub open spec fn fits(tokenizer: Tokenizer, max_length: usize) -> bool {
    has_room(special_tokens(tokenizer), max_length)
}

/// Sets the truncation length with `TokenizerImpl::with_truncation`, leaving stride,
/// strategy and direction at their defaults. The call subtracts the post-processor's
/// special tokens from the length, so a shorter length is left out. It fails only where
/// the stride exceeds what is left of the length, which the default stride of 0 never
/// does. It assigns the truncation parameters and nothing else: afterwards the
/// tokenizer truncates at `max_length`, and its vocabulary, its post-processor and its
/// padding are as they were.
#[verifier::external_body]
fn set_truncation(tokenizer: &mut Tokenizer, max_length: usize) -> (outcome: Result<(), String>)
    requires
        fits(*old(tokenizer), max_length),
    ensures
        outcome is Ok,
        truncation_length(*final(tokenizer)) == Some(max_length),
        pads_to_longest(*final(tokenizer)) == pads_to_longest(*old(tokenizer)),
        special_tokens(*final(tokenizer)) == special_tokens(*old(tokenizer)),
        vocabulary(*final(tokenizer)) == vocabulary(*old(tokenizer)),
{
    let params = tokenizers::TruncationParams { max_length, ..Default::default() };
    match tokenizer.with_truncation(Some(params)) {
        Ok(_) => Ok(()),
        Err(e) => Err(e.to_string()),
    }
}

/// Switches padding on with `TokenizerImpl::with_padding` and the crate's default
/// parameters: each batch is padded on the right to its longest encoding. The call
/// assigns the padding parameters and nothing else: the vocabulary, the post-processor
/// and the truncation length are as they were.
#[verifier::external_body]
fn set_padding(tokenizer: &mut Tokenizer)
    ensures
        pads_to_longest(*final(tokenizer)),
        truncation_length(*final(tokenizer)) == truncation_length(*old(tokenizer)),
        special_tokens(*final(tokenizer)) == special_tokens(*old(tokenizer)),
        vocabulary(*final(tokenizer)) == vocabulary(*old(tokenizer)),
{
    tokenizer.with_padding(Some(tokenizers::PaddingParams::default()));
}

/// The engine that runs a configured tokenizer on texts. Loading a vocabulary and
/// encoding with it are its work; the library configures the tokenizer that it is
/// handed and judges what comes back.
///
/// The library promises nothing of the engine itself. In particular an engine may
/// panic, as the tokenizer does on some malformed vocabularies; that the library's
/// functions do not panic holds of their own code and not of the engine that they
/// are given.
pub trait Encoder {
    /// Encodes one text with `tokenizer`, special tokens included.
    fn encode(&self, tokenizer: &Tokenizer, text: &str) -> Result<Encoding, String>;

    /// Encodes several texts with `tokenizer`, special tokens included, one encoding
    /// for each text and in their order.
    fn encode_batch(&self, tokenizer: &Tokenizer, texts: &[&str]) -> Result<
        Vec<Encoding>,
        String,
    >;
}

impl Encoding {
    /// The ids and the attention mask cover the same positions.
    pub open spec fn wf(&self) -> bool {
        self.ids.len() == self.attention_mask.len()
    }

    /// The number of positions, padding included.
    pub open spec fn spec_len(&self) -> usize {
        self.ids.len()
    }

    /// The number of positions that hold a token of the text.
    pub open spec fn real_tokens(&self) -> nat {
        real_count(self.attention_mask@)
    }

    /// The number of positions, padding included.
    #[verifier::when_used_as_spec(spec_len)]
    pub fn len(&self) -> (n: usize)
        ensures
            n == self.spec_len(),
    {
        self.ids.len()
    }

    /// The number of positions that hold a token of the text.
    pub fn token_count(&self) -> (n: usize)
        ensures
            n == self.real_tokens(),
            self.wf() ==> n <= self.len(),
    {
        count_real(self.attention_mask.as_slice())
    }

    /// The ids of the tokens of the text, without the padding.
    pub fn strip_padding(self) -> (ids: Vec<u32>)
        ensures
            ids@ == keep_real(self.ids@, self.attention_mask@),
            self.wf() ==> ids.len() == self.real_tokens(),
    {
        strip_padding(self.ids, self.attention_mask.as_slice())
    }
}

/// What can be wrong with what the tokenizer handed back.
#[derive(Debug, Clone, Copy, PartialEq, Eq, Structural)]
pub enum EncodingFault {
    /// There is not one encoding for each text.
    CountMismatch,
    /// Ids and attention mask differ in length.
    MaskMismatch,
    /// The encoding is longer than the truncation length.
    TooLong,
}

impl EncodingFault {
    /// The reason that the error for this fault gives.
    pub open spec fn reason(self) -> Seq<char> {
        match self {
            EncodingFault::CountMismatch => "expected one encoding for each text"@,
            EncodingFault::MaskMismatch => "ids and attention mask differ in length"@,
            EncodingFault::TooLong => "longer than the truncation length"@,
        }
    }

    /// The validation error for this fault.
    pub fn to_error(self) -> (err: AppError)
        ensures
            is_validation(err, "encoding"@, self.reason()),
    {
        match self {
            EncodingFault::CountMismatch => validation_error(
                "encoding",
                "expected one encoding for each text",
            ),
            EncodingFault::MaskMismatch => validation_error(
                "encoding",
                "ids and attention mask differ in length",
            ),
            EncodingFault::TooLong => validation_error(
                "encoding",
                "longer than the truncation length",
            ),
        }
    }
}

/// The fault of one encoding under the truncation length `max_length`, if it has one.
pub open spec fn encoding_fault(encoding: Encoding, max_length: nat) -> Option<EncodingFault> {
    if !encoding.wf() {
        Some(EncodingFault::MaskMismatch)
    } else if encoding.len() > max_length {
        Some(EncodingFault::TooLong)
    } else {
        None
    }
}

/// The fault of the first faulty encoding, if there is one.
pub open spec fn first_fault(encodings: Seq<Encoding>, max_length: nat) -> Option<EncodingFault>
    decreases encodings.len(),
{
    if encodings.len() == 0 {
        None
    } else {
        match encoding_fault(encodings[0], max_length) {
            Some(fault) => Some(fault),
            None => first_fault(encodings.drop_first(), max_length),
        }
    }
}

/// The fault of a batch that should hold `expected` encodings, if it has one.
pub open spec fn batch_fault(encodings: Seq<Encoding>, expected: nat, max_length: nat) -> Option<
    EncodingFault,
> {
    if encodings.len() != expected {
        Some(EncodingFault::CountMismatch)
    } else {
        first_fault(encodings, max_length)
    }
}

/// A batch without fault holds only well-formed encodings within the length, and so
/// no encoding of it has more tokens than the length.
pub proof fn lemma_no_fault(encodings: Seq<Encoding>, max_length: nat)
    requires
        first_fault(encodings, max_length) is None,
    ensures
        forall|i: int|
            0 <= i < encodings.len() ==> {
                &&& (#[trigger] encodings[i]).wf()
                &&& encodings[i].len() <= max_length
                &&& encodings[i].real_tokens() <= max_length
            },
    decreases encodings.len(),
{
    if encodings.len() > 0 {
        lemma_no_fault(encodings.drop_first(), max_length);
        assert forall|i: int| 0 <= i < encodings.len() implies {
            &&& (#[trigger] encodings[i]).wf()
            &&& encodings[i].len() <= max_length
            &&& encodings[i].real_tokens() <= max_length
        } by {
            if i > 0 {
                assert(encodings[i] == encodings.drop_first()[i - 1]);
            }
            lemma_keep_real_len(encodings[i].attention_mask@, encodings[i].attention_mask@);
        }
    }
}

/// Judges what the tokenizer gave for one text. A failure of the tokenizer is passed
/// on as an internal error with its message. An encoding is accepted where it is
/// well-formed and within `max_length`; of any other the error says what is wrong.
pub fn check_encoding(encoded: Result<Encoding, String>, max_length: usize) -> (checked: Result<
    Encoding,
    AppError,
>)
    ensures
        match encoded {
            Ok(encoding) => match checked {
                Ok(accepted) => accepted == encoding && encoding_fault(
                    encoding,
                    max_length as nat,
                ) is None,
                Err(err) => encoding_fault(encoding, max_length as nat) matches Some(fault)
                    && is_validation(err, "encoding"@, fault.reason()),
            },
            Err(message) => checked matches Err(err) && is_internal(err, message@),
        },
{
    match encoded {
        Ok(encoding) => {
            if encoding.ids.len() != encoding.attention_mask.len() {
                Err(EncodingFault::MaskMismatch.to_error())
            } else if encoding.ids.len() > max_length {
                Err(EncodingFault::TooLong.to_error())
            } else {
                Ok(encoding)
            }
        },
        Err(message) => Err(internal_error(message)),
    }
}

/// Judges what the tokenizer gave for a batch of `expected` texts. A failure of the
/// tokenizer is passed on as an internal error with its message. A batch is accepted
/// where it holds `expected` encodings, each well-formed and within `max_length`; of
/// any other the error says what is wrong first.
pub fn check_batch(encoded: Result<Vec<Encoding>, String>, expected: usize, max_length: usize) -> (checked:
    Result<Vec<Encoding>, AppError>)
    ensures
        match encoded {
            Ok(encodings) => match checked {
                Ok(accepted) => accepted == encodings && batch_fault(
                    encodings@,
                    expected as nat,
                    max_length as nat,
                ) is None,
                Err(err) => batch_fault(encodings@, expected as nat, max_length as nat)
                    matches Some(fault) && is_validation(err, "encoding"@, fault.reason()),
            },
            Err(message) => checked matches Err(err) && is_internal(err, message@),
        },
{
    let encodings = match encoded {
        Ok(encodings) => encodings,
        Err(message) => {
            return Err(internal_error(message));
        },
    };
    if encodings.len() != expected {
        return Err(EncodingFault::CountMismatch.to_error());
    }
    let mut at: usize = 0;
    assert(encodings@.skip(0) =~= encodings@);
    while at < encodings.len()
        invariant
            at <= encodings.len(),
            encodings.len() == expected,
            encoded == Ok::<Vec<Encoding>, String>(encodings),
            first_fault(encodings@, max_length as nat) == first_fault(
                encodings@.skip(at as int),
                max_length as nat,
            ),
        decreases encodings.len() - at,
    {
        let ghost rest = encodings@.skip(at as int);
        proof {
            assert(rest[0] == encodings@[at as int]);
            assert(rest.drop_first() =~= encodings@.skip(at + 1));
        }
        if encodings[at].ids.len() != encodings[at].attention_mask.len() {
            assert(first_fault(rest, max_length as nat) == Some(EncodingFault::MaskMismatch));
            return Err(EncodingFault::MaskMismatch.to_error());
        }
        if encodings[at].ids.len() > max_length {
            assert(first_fault(rest, max_length as nat) == Some(EncodingFault::TooLong));
            return Err(EncodingFault::TooLong.to_error());
        }
        at += 1;
    }
    Ok(encodings)
}

/// The reason given when a truncation length is shorter than the special tokens.
pub open spec fn too_short() -> Seq<char> {
    "shorter than the special tokens of the vocabulary"@
}

/// A copy of `base` that truncates at `max_length` and pads; `field` names the length
/// in the error for one that is too short.
fn limited(base: &Tokenizer, max_length: usize, field: &str) -> (made: Result<
    Tokenizer,
    AppError,
>)
    ensures
        match made {
            Ok(tokenizer) => {
                &&& fits(*base, max_length)
                &&& vocabulary(tokenizer) == vocabulary(*base)
                &&& truncation_length(tokenizer) == Some(max_length)
                &&& pads_to_longest(tokenizer)
            },
            Err(err) => !fits(*base, max_length) && is_validation(err, field@, too_short()),
        },
{
    let room = match special_token_count(base) {
        Some(added) => added <= max_length,
        None => true,
    };
    if !room {
        return Err(validation_error(field, "shorter than the special tokens of the vocabulary"));
    }
    let mut tokenizer = clone_tokenizer(base);
    match set_truncation(&mut tokenizer, max_length) {
        Ok(_) => {
            set_padding(&mut tokenizer);
            Ok(tokenizer)
        },
        Err(message) => Err(internal_error(message)),
    }
}

/// One vocabulary behind two encoders: one that truncates at the document length, for
/// indexing, and one that truncates at the query length, for searching. Both pad.
pub struct TokenizerWrapper {
    doc_tokenizer: Tokenizer,
    query_tokenizer: Tokenizer,
    doc_max_length: usize,
    query_max_length: usize,
}

impl TokenizerWrapper {
    /// The length at which documents are truncated.
    pub closed spec fn spec_doc_max_length(&self) -> usize {
        self.doc_max_length
    }

    /// The length at which queries are truncated.
    pub closed spec fn spec_query_max_length(&self) -> usize {
        self.query_max_length
    }

    /// The vocabulary of the encoder for documents.
    pub closed spec fn doc_vocabulary(&self) -> Map<Seq<char>, u32> {
        vocabulary(self.doc_tokenizer)
    }

    /// The vocabulary of the encoder for queries.
    pub closed spec fn query_vocabulary(&self) -> Map<Seq<char>, u32> {
        vocabulary(self.query_tokenizer)
    }

    /// The length at which the encoder for documents truncates, if it does.
    pub closed spec fn doc_truncation(&self) -> Option<usize> {
        truncation_length(self.doc_tokenizer)
    }

    /// The length at which the encoder for queries truncates, if it does.
    pub closed spec fn query_truncation(&self) -> Option<usize> {
        truncation_length(self.query_tokenizer)
    }

    /// Whether the encoder for documents pads each batch to its longest encoding.
    pub closed spec fn doc_pads(&self) -> bool {
        pads_to_longest(self.doc_tokenizer)
    }

    /// Whether the encoder for queries pads each batch to its longest encoding.
    pub closed spec fn query_pads(&self) -> bool {
        pads_to_longest(self.query_tokenizer)
    }

    /// Both encoders have the vocabulary that they were built from.
    pub open spec fn shares_vocabulary(&self) -> bool {
        self.doc_vocabulary() == self.query_vocabulary()
    }

    /// The two encoders are what the engine is handed: over one vocabulary, the one
    /// for documents truncates at the document length, the one for queries at the
    /// query length, and both pad.
    #[verifier::type_invariant]
    pub open spec fn configured(&self) -> bool {
        &&& self.shares_vocabulary()
        &&& self.doc_truncation() == Some(self.doc_max_length())
        &&& self.query_truncation() == Some(self.query_max_length())
        &&& self.doc_pads()
        &&& self.query_pads()
    }

    /// The length at which documents are truncated.
    #[verifier::when_used_as_spec(spec_doc_max_length)]
    pub fn doc_max_length(&self) -> (n: usize)
        ensures
            n == self.doc_max_length(),
            self.configured(),
    {
        proof {
            use_type_invariant(self);
        }
        self.doc_max_length
    }

    /// The length at which queries are truncated.
    #[verifier::when_used_as_spec(spec_query_max_length)]
    pub fn query_max_length(&self) -> (n: usize)
        ensures
            n == self.query_max_length(),
            self.configured(),
    {
        proof {
            use_type_invariant(self);
        }
        self.query_max_length
    }

    /// Builds both encoders from what loading the vocabulary artifact gave, with the
    /// truncation lengths of `config`. A refusal is passed on as a rejected
    /// `vocabulary` with the message of the refusal. With a tokenizer this succeeds
    /// exactly when both lengths leave room for the special tokens of the vocabulary;
    /// otherwise the error names the first length that does not.
    pub fn new_with_config(config: &ModelConfig, loaded: Result<Tokenizer, String>) -> (built:
        Result<Self, AppError>)
        ensures
            match loaded {
                Ok(base) => match built {
                    Ok(wrapper) => {
                        &&& fits(base, config.doc_max_length)
                        &&& fits(base, config.query_max_length)
                        &&& wrapper.doc_max_length() == config.doc_max_length
                        &&& wrapper.query_max_length() == config.query_max_length
                        &&& wrapper.doc_vocabulary() == vocabulary(base)
                        &&& wrapper.query_vocabulary() == vocabulary(base)
                        &&& wrapper.configured()
                    },
                    Err(err) => if !fits(base, config.doc_max_length) {
                        is_validation(err, "doc_max_length"@, too_short())
                    } else {
                        !fits(base, config.query_max_length) && is_validation(
                            err,
                            "query_max_length"@,
                            too_short(),
                        )
                    },
                },
                Err(message) => built matches Err(err) && is_validation(
                    err,
                    "vocabulary"@,
                    message@,
                ),
            },
    {
        match loaded {
            Ok(base) => Self::from_tokenizer(base, config.doc_max_length, config.query_max_length),
            Err(message) => Err(validation_error("vocabulary", message.as_str())),
        }
    }

    /// Builds both encoders from one loaded tokenizer, so that both have its
    /// vocabulary. This succeeds exactly when both lengths leave room for the special
    /// tokens of the vocabulary; otherwise the error names the first length that does
    /// not.
    pub fn from_tokenizer(base: Tokenizer, doc_max_length: usize, query_max_length: usize) -> (built:
        Result<Self, AppError>)
        ensures
            match built {
                Ok(wrapper) => {
                    &&& fits(base, doc_max_length)
                    &&& fits(base, query_max_length)
                    &&& wrapper.doc_max_length() == doc_max_length
                    &&& wrapper.query_max_length() == query_max_length
                    &&& wrapper.doc_vocabulary() == vocabulary(base)
                    &&& wrapper.query_vocabulary() == vocabulary(base)
                    &&& wrapper.configured()
                },
                Err(err) => if !fits(base, doc_max_length) {
                    is_validation(err, "doc_max_length"@, too_short())
                } else {
                    !fits(base, query_max_length) && is_validation(
                        err,
                        "query_max_length"@,
                        too_short(),
                    )
                },
            },
    {
        let doc_tokenizer = match limited(&base, doc_max_length, "doc_max_length") {
            Ok(tokenizer) => tokenizer,
            Err(err) => {
                return Err(err);
            },
        };
        let query_tokenizer = match limited(&base, query_max_length, "query_max_length") {
            Ok(tokenizer) => tokenizer,
            Err(err) => {
                return Err(err);
            },
        };
        Ok(TokenizerWrapper { doc_tokenizer, query_tokenizer, doc_max_length, query_max_length })
    }

    /// Encodes texts for indexing, in their order. The engine is handed the encoder
    /// for documents, which truncates at the document length and pads, and the texts
    /// as they came. What comes back holds one well-formed encoding for each text,
    /// none longer than the document length. Without texts there is nothing to
    /// encode, and the engine is not asked.
    pub fn encode_documents<C: Encoder>(&self, engine: &C, texts: &[&str]) -> (encoded: Result<
        Vec<Encoding>,
        AppError,
    >)
        ensures
            self.configured(),
            texts.len() == 0 ==> encoded is Ok,
            encoded matches Ok(encodings) ==> {
                &&& encodings.len() == texts.len()
                &&& forall|i: int|
                    0 <= i < encodings.len() ==> {
                        &&& (#[trigger] encodings[i]).wf()
                        &&& encodings[i].len() <= self.doc_max_length()
                        &&& encodings[i].real_tokens() <= self.doc_max_length()
                    }
            },
    {
        proof {
            use_type_invariant(self);
        }
        if texts.len() == 0 {
            return Ok(Vec::new());
        }
        let checked = check_batch(
            engine.encode_batch(&self.doc_tokenizer, texts),
            texts.len(),
            self.doc_max_length,
        );
        proof {
            if checked is Ok {
                lemma_no_fault(checked->Ok_0@, self.doc_max_length as nat);
            }
        }
        checked
    }

    /// Encodes a query. The engine is handed the encoder for queries, which truncates
    /// at the query length and pads, and the text as it came. What comes back is
    /// well-formed and no longer than the query length.
    pub fn encode_query<C: Encoder>(&self, engine: &C, text: &str) -> (encoded: Result<
        Encoding,
        AppError,
    >)
        ensures
            self.configured(),
            encoded matches Ok(encoding) ==> {
                &&& encoding.wf()
                &&& encoding.len() <= self.query_max_length()
                &&& encoding.real_tokens() <= self.query_max_length()
            },
    {
        proof {
            use_type_invariant(self);
        }
        let checked = check_encoding(
            engine.encode(&self.query_tokenizer, text),
            self.query_max_length,
        );
        proof {
            if checked is Ok {
                let mask = checked->Ok_0.attention_mask@;
                lemma_keep_real_len(mask, mask);
            }
        }
        checked
    }
}

} // verus!
