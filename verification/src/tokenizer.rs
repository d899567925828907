use vstd::prelude::*;
use crate::errors::ChatError;

verus! {

/// tokenizers' tokenizer handle, opaque to verification.
#[verifier::external_type_specification]
#[verifier::external_body]
pub struct ExTokenizer(tokenizers::Tokenizer);

/// Fallback end-of-sequence id used when the vocabulary lacks an
/// explicit entry.
pub const FALLBACK_EOS_ID: u32 = 2;

/// Stateless mapping between text and token-id sequences, loaded once
/// from a tokenizer artifact and shared read-only afterwards.
///
/// Loading the artifact is I/O and stays with the caller; the adapter
/// wraps an already loaded tokenizer.
pub struct TokenizerAdapter {
    inner: tokenizers::Tokenizer,
}

impl TokenizerAdapter {
    /// Wraps a loaded tokenizer.
    pub fn new(inner: tokenizers::Tokenizer) -> TokenizerAdapter {
        TokenizerAdapter { inner }
    }

    /// Relies on tokenizers::TokenizerImpl::encode with special tokens
    /// added: text to token ids; fails when the vocabulary cannot
    /// process the input. The ids depend on the loaded artifact, so
    /// nothing is claimed of them; any failure comes back as the
    /// library's tokenization error.
    #[verifier::external_body]
    pub fn encode_ids(&self, text: &str) -> (r: Result<Vec<u32>, ChatError>)
        ensures
            match r {
                Ok(ids) => true,
                Err(e) => e == ChatError::Tokenization,
            },
    {
        match self.inner.encode(text, true) {
            Ok(enc) => Ok(enc.get_ids().to_vec()),
            Err(_) => Err(ChatError::Tokenization),
        }
    }

    /// Relies on tokenizers::TokenizerImpl::decode skipping special
    /// tokens: one token id back to its text. The text depends on the
    /// loaded artifact, so nothing is claimed of it; any failure comes
    /// back as the library's tokenization error.
    #[verifier::external_body]
    pub fn decode_one(&self, id: u32) -> (r: Result<String, ChatError>)
        ensures
            match r {
                Ok(s) => true,
                Err(e) => e == ChatError::Tokenization,
            },
    {
        match self.inner.decode(&[id], true) {
            Ok(s) => Ok(s),
            Err(_) => Err(ChatError::Tokenization),
        }
    }

    /// Relies on tokenizers::TokenizerImpl::get_vocab with added tokens:
    /// looks a token's id up in the vocabulary.
    #[verifier::external_body]
    pub fn vocab_id(&self, token: &str) -> (r: Option<u32>) {
        match self.inner.get_vocab(true).get(token) {
            Some(v) => Some(*v),
            None => None,
        }
    }

    /// End-of-sequence id: the vocabulary's `"</s>"` entry when present,
    /// else the stable fallback, so the generation loop always has a
    /// usable stop token. Never fails.
    pub fn eos_id(&self) -> u32 {
        eos_or_default(self.vocab_id("</s>"))
    }
}

/// The stop-token id for a vocabulary lookup outcome: the found id, or
/// the fixed fallback when the vocabulary has no end-of-sequence entry.
pub fn eos_or_default(found: Option<u32>) -> (r: u32)
    ensures
        r == match found {
            Some(id) => id,
            None => FALLBACK_EOS_ID,
        },
{
    match found {
        Some(id) => id,
        None => FALLBACK_EOS_ID,
    }
}

} // verus!
