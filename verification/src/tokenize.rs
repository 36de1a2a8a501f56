//! The external tokenizer: the text/token-id mapping at the system's edge.
//!
//! The tokenizer's vocabulary comes from a model file the adapter loads; the
//! core treats token ids as opaque small integers and makes no assumption
//! about what a given tokenizer encodes or decodes a value to, beyond what
//! the generation loop itself checks.  Failures are surfaced as `None` and
//! abort the current turn before any session state is touched.

use vstd::prelude::*;

verus! {

/// The tokenizers crate's tokenizer, held opaquely: what it maps text and
/// ids to is the loaded vocabulary's business.
#[verifier::external_type_specification]
#[verifier::external_body]
pub struct ExTokenizer(tokenizers::Tokenizer);

/// Relies on tokenizers::TokenizerImpl::encode: turns text into the token
/// ids the loaded vocabulary gives it.  What those ids are depends on the
/// tokenizer's data, so nothing is assumed of them.
#[verifier::external_body]
pub fn encode_text(tok: &tokenizers::Tokenizer, text: &str, add_special: bool) -> (r: Option<
    Vec<u32>,
>) {
    match tok.encode(text, add_special) {
        Ok(enc) => Some(enc.get_ids().to_vec()),
        Err(_) => None,
    }
}

/// Relies on tokenizers::TokenizerImpl::decode: turns token ids back into
/// text under the loaded vocabulary.  What text comes back depends on the
/// tokenizer's data, so nothing is assumed of it; the generation loop strips
/// the replacement characters an incomplete tail produces.
#[verifier::external_body]
pub fn decode_tokens(tok: &tokenizers::Tokenizer, ids: &Vec<u32>, skip_special: bool) -> (r:
    Option<Vec<char>>) {
    match tok.decode(ids.as_slice(), skip_special) {
        Ok(s) => Some(s.chars().collect()),
        Err(_) => None,
    }
}

/// Relies on tokenizers::TokenizerImpl::token_to_id: looks a named token up
/// in the loaded vocabulary.
#[verifier::external_body]
pub fn lookup_token(tok: &tokenizers::Tokenizer, name: &str) -> (r: Option<u32>) {
    tok.token_to_id(name)
}

} // verus!
