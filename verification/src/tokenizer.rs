//! The tokenizer of the `tokenizers` crate, as far as the library calls it.
use vstd::prelude::*;

use tokenizers::Tokenizer;

verus! {

/// `tokenizers::Tokenizer`, carried through the library as an opaque value.
#[verifier::external_type_specification]
#[verifier::external_body]
pub struct ExTokenizer(Tokenizer);

/// What `Tokenizer::decode(ids, true)` gives (special tokens skipped): the text,
/// or the message of the error. Decoding is a function of the tokenizer and the
/// ids alone.
pub uninterp spec fn decoded_text(tokenizer: Tokenizer, ids: Seq<u32>) -> Result<Seq<char>, Seq<char>>;

/// What `Tokenizer::token_to_id(token)` gives: the id of `token` in the
/// tokenizer's vocabulary (added tokens included), if it has one.
pub uninterp spec fn token_id_of(tokenizer: Tokenizer, token: Seq<char>) -> Option<u32>;

/// Calls `Tokenizer::decode(ids, true)`; the result is `decoded_text` of the
/// tokenizer and the ids, an error reported by its message.
#[verifier::external_body]
pub(crate) fn decode_ids(tokenizer: &Tokenizer, ids: &[u32]) -> (r: Result<String, String>)
    ensures
        match decoded_text(*tokenizer, ids@) {
            Ok(t) => r matches Ok(s) && s@ == t,
            Err(m) => r matches Err(e) && e@ == m,
        },
{
    match tokenizer.decode(ids, true) {
        Ok(text) => Ok(text),
        Err(err) => Err(err.to_string()),
    }
}

/// `ids` is an encoding that `Tokenizer::encode(text, add_special_tokens)` may
/// give. It is a relation, not a function: a model with dropout (BPE) encodes at
/// random, so one text may have several encodings.
pub uninterp spec fn may_encode(
    tokenizer: Tokenizer,
    text: Seq<char>,
    add_special_tokens: bool,
    ids: Seq<u32>,
) -> bool;

/// Calls `Tokenizer::encode(text, add_special_tokens)` and returns the ids of the
/// encoding, an error reported by its message. The ids are an encoding the
/// tokenizer may give for that text and flag (`may_encode`).
#[verifier::external_body]
pub(crate) fn encode_ids(
    tokenizer: &Tokenizer,
    text: &str,
    add_special_tokens: bool,
) -> (r: Result<Vec<u32>, String>)
    ensures
        r matches Ok(ids) ==> may_encode(*tokenizer, text@, add_special_tokens, ids@),
{
    match tokenizer.encode(text, add_special_tokens) {
        Ok(encoding) => Ok(encoding.get_ids().to_vec()),
        Err(err) => Err(err.to_string()),
    }
}

/// Calls `Tokenizer::token_to_id(token)`; the result is `token_id_of` of the
/// tokenizer and the token.
#[verifier::external_body]
pub(crate) fn token_id(tokenizer: &Tokenizer, token: &str) -> (r: Option<u32>)
    ensures
        r == token_id_of(*tokenizer, token@),
{
    tokenizer.token_to_id(token)
}

} // verus!
