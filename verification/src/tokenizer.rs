//! Tokenizers: settings read from GGUF metadata, and a prompt tokenizer
//! backed by the `tokenizers` library with a BPE check through `tiktoken`.

use std::collections::HashMap;

use tokenizers::Tokenizer as HfTokenizer;
use vstd::prelude::*;

use crate::error::RunnerError;
use crate::gguf_parser::{gguf_error_text, header_of, parse_gguf_reader, sp_layout};
use crate::gguf_types::{
    lookup_bool, lookup_str, lookup_u32, lookup_vocab_size, opt_str_view, GgufHeader, KvPairView,
};
use crate::model_manager::opt_text;
use crate::text::{decimal, push_decimal, push_str};

verus! {

/// Tokenizer settings of a GGUF model.
#[derive(Debug, Clone)]
pub struct GgufTokenizerConfig {
    /// Tokenizer model type (`llama`, `gpt2`, `bpe`, ...).
    pub model_type: String,
    pub vocab_size: u32,
    /// Pre-tokenizer type.
    pub pre_tokenizer_type: Option<String>,
    /// Post-processor type.
    pub post_processor_type: Option<String>,
    /// Tokens by id.
    pub added_tokens: HashMap<u32, String>,
    /// Splitting pattern.
    pub pattern: Option<String>,
    pub bos_token_id: Option<u32>,
    pub eos_token_id: Option<u32>,
    pub unk_token_id: Option<u32>,
    /// Whether a BOS token is added by default.
    pub add_bos_token: Option<bool>,
    /// Whether an EOS token is added by default.
    pub add_eos_token: Option<bool>,
}

/// Key under which the text of token `id` is stored.
pub open spec fn token_key(id: u32) -> Seq<char> {
    "tokenizer.ggml.tokens."@ + decimal(id as nat)
}

/// Number of token ids read from the metadata: the `Uint32` under
/// `tokenizer.ggml.tokens`, else under `tokenizer.ggml.length`, else 0.
pub open spec fn token_count_of(kvs: Seq<KvPairView>) -> u32 {
    match lookup_u32(kvs, "tokenizer.ggml.tokens"@) {
        Some(n) => n,
        None => match lookup_u32(kvs, "tokenizer.ggml.length"@) {
            Some(n) => n,
            None => 0,
        },
    }
}

/// The tokens by id read from metadata: every id below the token count whose
/// key holds text, mapped to that text.
pub open spec fn tokens_read(kvs: Seq<KvPairView>, m: Map<u32, String>) -> bool {
    &&& forall|id: u32|
        #[trigger] m.contains_key(id) <==> (id < token_count_of(kvs) && lookup_str(
            kvs,
            token_key(id),
        ) is Some)
    &&& forall|id: u32| #[trigger] m.contains_key(id) ==> lookup_str(kvs, token_key(id)) == Some(m[id]@)
}

/// Every setting of a tokenizer configuration is what the metadata records
/// under its key, with `llama` as the model type and 32000 as the vocabulary
/// size where none is recorded.
pub open spec fn config_of_metadata(c: GgufTokenizerConfig, kvs: Seq<KvPairView>) -> bool {
    &&& c.model_type@ == match lookup_str(kvs, "tokenizer.ggml.model"@) {
        Some(t) => t,
        None => "llama"@,
    }
    &&& c.vocab_size == match lookup_vocab_size(kvs) {
        Some(n) => n,
        None => 32000,
    }
    &&& tokens_read(kvs, c.added_tokens@)
    &&& opt_text(c.pre_tokenizer_type) == lookup_str(kvs, "tokenizer.ggml.pre"@)
    &&& opt_text(c.post_processor_type) == lookup_str(kvs, "tokenizer.ggml.postprocess"@)
    &&& opt_text(c.pattern) == lookup_str(kvs, "tokenizer.ggml.token_type"@)
    &&& c.bos_token_id == lookup_u32(kvs, "tokenizer.ggml.bos_token_id"@)
    &&& c.eos_token_id == lookup_u32(kvs, "tokenizer.ggml.eos_token_id"@)
    &&& c.unk_token_id == lookup_u32(kvs, "tokenizer.ggml.unk_token_id"@)
    &&& c.add_bos_token == lookup_bool(kvs, "tokenizer.ggml.add_bos_token"@)
    &&& c.add_eos_token == lookup_bool(kvs, "tokenizer.ggml.add_eos_token"@)
}

fn owned_text(t: Option<&str>) -> (r: Option<String>)
    ensures
        opt_text(r) == opt_str_view(t),
{
    match t {
        Some(x) => Some(x.to_string()),
        None => None,
    }
}

impl GgufTokenizerConfig {
    /// Tokenizer settings read from a GGUF header's metadata.
    pub fn from_gguf_header(header: &GgufHeader) -> (r: GgufTokenizerConfig)
        ensures
            config_of_metadata(r, header@.kv_pairs),
    {
        broadcast use vstd::std_specs::hash::group_hash_axioms;

        let model_type = match header.get_kv_str("tokenizer.ggml.model") {
            Some(t) => t.to_string(),
            None => "llama".to_string(),
        };
        proof {
            reveal_strlit("llama");
        }
        let vocab_size = match header.vocab_size() {
            Some(n) => n,
            None => 32000,
        };
        let token_count = match header.get_kv_u32("tokenizer.ggml.tokens") {
            Some(n) => n,
            None => match header.get_kv_u32("tokenizer.ggml.length") {
                Some(n) => n,
                None => 0,
            },
        };
        let ghost kvs = header@.kv_pairs;
        let mut added_tokens: HashMap<u32, String> = HashMap::new();
        let mut id: u32 = 0;
        while id < token_count
            invariant
                token_count == token_count_of(kvs),
                kvs == header@.kv_pairs,
                id <= token_count,
                forall|j: u32|
                    #[trigger] added_tokens@.contains_key(j) <==> (j < id && lookup_str(
                        kvs,
                        token_key(j),
                    ) is Some),
                forall|j: u32| #[trigger]
                    added_tokens@.contains_key(j) ==> lookup_str(kvs, token_key(j)) == Some(
                        added_tokens@[j]@,
                    ),
            decreases token_count - id,
        {
            let mut key = String::new();
            push_str(&mut key, "tokenizer.ggml.tokens.");
            push_decimal(&mut key, id as u64);
            proof {
                assert(key@ =~= token_key(id));
            }
            match header.get_kv_str(key.as_str()) {
                Some(value) => {
                    added_tokens.insert(id, value.to_string());
                },
                None => {},
            }
            id = id + 1;
        }
        let r = GgufTokenizerConfig {
            model_type,
            vocab_size,
            pre_tokenizer_type: owned_text(header.get_kv_str("tokenizer.ggml.pre")),
            post_processor_type: owned_text(header.get_kv_str("tokenizer.ggml.postprocess")),
            added_tokens,
            pattern: owned_text(header.get_kv_str("tokenizer.ggml.token_type")),
            bos_token_id: header.get_kv_u32("tokenizer.ggml.bos_token_id"),
            eos_token_id: header.get_kv_u32("tokenizer.ggml.eos_token_id"),
            unk_token_id: header.get_kv_u32("tokenizer.ggml.unk_token_id"),
            add_bos_token: header.get_kv_bool("tokenizer.ggml.add_bos_token"),
            add_eos_token: header.get_kv_bool("tokenizer.ggml.add_eos_token"),
        };
        r
    }
}

/// Text of the token with the given id, as a one-element sequence, or no
/// element where the id is unset or names no token.
pub open spec fn token_text_of(c: GgufTokenizerConfig, id: Option<u32>) -> Seq<Seq<char>> {
    match id {
        Some(i) => if c.added_tokens@.contains_key(i) {
            seq![c.added_tokens@[i]@]
        } else {
            Seq::empty()
        },
        None => Seq::empty(),
    }
}

/// Whether an id is neither the BOS nor the EOS id, an unset one counting
/// as id 0.
pub open spec fn is_plain_id(c: GgufTokenizerConfig, id: u32) -> bool {
    &&& id != match c.bos_token_id {
        Some(b) => b,
        None => 0,
    }
    &&& id != match c.eos_token_id {
        Some(e) => e,
        None => 0,
    }
}

impl GgufTokenizerConfig {
    fn token_text(&self, id: Option<u32>) -> (r: Vec<String>)
        ensures
            r@.map_values(|t: String| t@) == token_text_of(*self, id),
    {
        broadcast use vstd::std_specs::hash::group_hash_axioms;

        let mut out: Vec<String> = Vec::new();
        if let Some(i) = id {
            if let Some(t) = self.added_tokens.get(&i) {
                out.push(t.clone());
            }
        }
        proof {
            assert(out@.map_values(|t: String| t@) =~= token_text_of(*self, id));
        }
        out
    }

    /// Texts of the special tokens: the BOS token's, then the EOS token's,
    /// each where its id is set and names a token.
    pub fn special_tokens(&self) -> (r: Vec<String>)
        ensures
            r@.map_values(|t: String| t@) == token_text_of(*self, self.bos_token_id) + token_text_of(
                *self,
                self.eos_token_id,
            ),
    {
        let mut out = self.token_text(self.bos_token_id);
        let mut eos = self.token_text(self.eos_token_id);
        let ghost a = out@;
        let ghost b = eos@;
        out.append(&mut eos);
        proof {
            assert(out@ == a + b);
            assert((a + b).map_values(|t: String| t@) =~= a.map_values(|t: String| t@) + b.map_values(
                |t: String| t@,
            ));
        }
        out
    }

    /// Whether a token id is an ordinary one: neither the BOS nor the EOS id
    /// (an unset id counts as 0).
    pub fn is_plain_token_id(&self, id: u32) -> (r: bool)
        ensures
            r == is_plain_id(*self, id),
    {
        let bos = match self.bos_token_id {
            Some(b) => b,
            None => 0,
        };
        let eos = match self.eos_token_id {
            Some(e) => e,
            None => 0,
        };
        id != bos && id != eos
    }
}

/// Tokenizer settings of a GGUF header.
pub fn tokenizer_config_from_header(header: &GgufHeader) -> (r: GgufTokenizerConfig)
    ensures
        config_of_metadata(r, header@.kv_pairs),
{
    GgufTokenizerConfig::from_gguf_header(header)
}

/// Tokenizer settings of a GGUF file's bytes; a file that does not parse is
/// a tokenizer error carrying the parse error's text.
pub fn load_tokenizer_from_gguf(data: &[u8]) -> (r: Result<GgufTokenizerConfig, RunnerError>)
    requires
        data@.len() <= isize::MAX,
    ensures
        match sp_layout(data@) {
            Ok(l) => r matches Ok(c) && config_of_metadata(c, header_of(l).kv_pairs),
            Err(e) => r matches Err(RunnerError::Tokenizer(m)) && (gguf_error_text(e) matches Some(
                t,
            ) ==> m@ == t),
        },
{
    match parse_gguf_reader(data) {
        Ok(header) => Ok(GgufTokenizerConfig::from_gguf_header(&header)),
        Err(e) => Err(RunnerError::Tokenizer(e.message())),
    }
}

#[verifier::external_type_specification]
#[verifier::external_body]
pub struct ExHfTokenizer(HfTokenizer);

/// Whether `tiktoken` maps a model name to one of its encodings.
pub uninterp spec fn tiktoken_knows_model(model: Seq<char>) -> bool;

/// `tiktoken_rs::bpe_for_model`: succeeds exactly for the model names the
/// crate maps to an encoding, and otherwise fails with
/// `No tokenizer found for model <name>`. The encoding itself is not kept.
#[verifier::external_body]
fn bpe_for_model(model: &str) -> (r: Result<(), String>)
    ensures
        r is Ok <==> tiktoken_knows_model(model@),
        r matches Err(m) ==> m@ == "No tokenizer found for model "@ + model@,
{
    match tiktoken_rs::bpe_for_model(model) {
        Ok(_) => Ok(()),
        Err(e) => Err(e.to_string()),
    }
}

/// Whether `out` (the ids, or the error's text) is one outcome of
/// `tokenizers::Tokenizer::encode`, without special tokens, on `text` under
/// `tok`. A relation, not a function: a BPE model with dropout draws random
/// numbers while it merges, so one text may have several outcomes.
pub uninterp spec fn hf_encodes(tok: HfTokenizer, text: Seq<char>, out: Result<Seq<u32>, Seq<char>>) -> bool;

/// An encoding outcome by its views.
pub open spec fn encode_outcome(r: Result<Vec<u32>, String>) -> Result<Seq<u32>, Seq<char>> {
    match r {
        Ok(ids) => Ok(ids@),
        Err(m) => Err(m@),
    }
}

/// `tokenizers::Tokenizer::encode` without special tokens: the ids of the
/// encoding, or the error's text. What comes back is an outcome of encoding
/// the given prompt under the given tokenizer; which one is not stated, as
/// dropout may draw random numbers.
#[verifier::external_body]
fn hf_encode(tok: &HfTokenizer, prompt: &str) -> (r: Result<Vec<u32>, String>)
    ensures
        hf_encodes(*tok, prompt@, encode_outcome(r)),
{
    match tok.encode(prompt, false) {
        Ok(encoding) => Ok(encoding.get_ids().to_vec()),
        Err(e) => Err(e.to_string()),
    }
}

/// What `tokenizers::Tokenizer::decode` (keeping special tokens) gives for
/// ids under a tokenizer: the text, or the error's text. Decoding draws no
/// random numbers, so it depends on the tokenizer and the ids alone.
pub uninterp spec fn hf_decoded(tok: HfTokenizer, ids: Seq<u32>) -> Result<Seq<char>, Seq<char>>;

/// `tokenizers::Tokenizer::decode` keeping special tokens: the text, or the
/// error's text, as the named result gives them.
#[verifier::external_body]
fn hf_decode(tok: &HfTokenizer, tokens: &[u32]) -> (r: Result<String, String>)
    ensures
        match hf_decoded(*tok, tokens@) {
            Ok(s) => r matches Ok(x) && x@ == s,
            Err(m) => r matches Err(x) && x@ == m,
        },
{
    match tok.decode(tokens, false) {
        Ok(text) => Ok(text),
        Err(e) => Err(e.to_string()),
    }
}

/// Number of tokens in an encoding: the number of its ids.
pub fn count_tokens(ids: &[u32]) -> (r: usize)
    ensures
        r == ids@.len(),
{
    ids.len()
}

/// Message of a tokenizer used before one was loaded.
pub open spec fn not_initialized() -> Seq<char> {
    "tokenizer not initialized"@
}

/// The error of a tokenizer used before one was loaded.
fn not_initialized_error() -> (r: RunnerError)
    ensures
        r matches RunnerError::Tokenizer(m) && m@ == not_initialized(),
{
    RunnerError::Tokenizer("tokenizer not initialized".to_string())
}

/// Prompt tokenizer: a model name and, once loaded, a `tokenizers` tokenizer.
pub struct Tokenizer {
    pub model: String,
    pub tokenizer: Option<HfTokenizer>,
}

impl Tokenizer {
    /// A tokenizer for `model`, with nothing loaded yet.
    pub fn new(model: &str) -> (r: Tokenizer)
        ensures
            r.model@ == model@,
            r.tokenizer is None,
    {
        Tokenizer { model: model.to_string(), tokenizer: None }
    }

    /// Checks that `tiktoken` has a BPE encoding for the model; fails with a
    /// tokenizer error carrying `tiktoken`'s message otherwise. The tokenizer
    /// is left as it was.
    pub fn init_bpe(&mut self) -> (r: Result<(), RunnerError>)
        ensures
            *final(self) == *old(self),
            r is Ok <==> tiktoken_knows_model(old(self).model@),
            r matches Err(e) ==> (e matches RunnerError::Tokenizer(m) && m@
                == "No tokenizer found for model "@ + old(self).model@),
    {
        match bpe_for_model(self.model.as_str()) {
            Ok(()) => Ok(()),
            Err(m) => Err(RunnerError::Tokenizer(m)),
        }
    }

    /// Token ids of a prompt. Fails when no tokenizer is loaded; otherwise
    /// gives an outcome of encoding the prompt, its error as a tokenizer
    /// error.
    pub fn encode(&self, prompt: &str) -> (r: Result<Vec<u32>, RunnerError>)
        ensures
            self.tokenizer is None ==> (r matches Err(RunnerError::Tokenizer(m)) && m@
                == not_initialized()),
            self.tokenizer matches Some(t) ==> match r {
                Ok(ids) => hf_encodes(t, prompt@, Ok(ids@)),
                Err(e) => e matches RunnerError::Tokenizer(m) && hf_encodes(t, prompt@, Err(m@)),
            },
            r matches Err(e) ==> e is Tokenizer,
    {
        match &self.tokenizer {
            Some(tok) => match hf_encode(tok, prompt) {
                Ok(ids) => Ok(ids),
                Err(m) => Err(RunnerError::Tokenizer(m)),
            },
            None => Err(not_initialized_error()),
        }
    }

    /// Text of token ids. Fails when no tokenizer is loaded.
    pub fn decode(&self, tokens: &[u32]) -> (r: Result<String, RunnerError>)
        ensures
            self.tokenizer is None ==> (r matches Err(RunnerError::Tokenizer(m)) && m@
                == not_initialized()),
            self.tokenizer matches Some(t) ==> match hf_decoded(t, tokens@) {
                Ok(s) => r matches Ok(x) && x@ == s,
                Err(m) => r matches Err(RunnerError::Tokenizer(x)) && x@ == m,
            },
            r matches Err(e) ==> e is Tokenizer,
    {
        match &self.tokenizer {
            Some(tok) => match hf_decode(tok, tokens) {
                Ok(text) => Ok(text),
                Err(m) => Err(RunnerError::Tokenizer(m)),
            },
            None => Err(not_initialized_error()),
        }
    }

    /// Number of tokens of a prompt: the length of its encoding. Fails when
    /// no tokenizer is loaded.
    pub fn token_count(&self, prompt: &str) -> (r: Result<usize, RunnerError>)
        ensures
            self.tokenizer is None ==> (r matches Err(RunnerError::Tokenizer(m)) && m@
                == not_initialized()),
            self.tokenizer matches Some(t) ==> match r {
                Ok(n) => exists|ids: Seq<u32>| #[trigger]
                    hf_encodes(t, prompt@, Ok(ids)) && ids.len() == n,
                Err(e) => e matches RunnerError::Tokenizer(m) && hf_encodes(t, prompt@, Err(m@)),
            },
            r matches Err(e) ==> e is Tokenizer,
    {
        match &self.tokenizer {
            Some(tok) => match hf_encode(tok, prompt) {
                Ok(ids) => Ok(count_tokens(ids.as_slice())),
                Err(m) => Err(RunnerError::Tokenizer(m)),
            },
            None => Err(not_initialized_error()),
        }
    }
}

} // verus!
