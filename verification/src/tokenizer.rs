//! The vocabulary side of a Whisper checkpoint: looking tokens up and turning
//! decoded tokens back into text. The tokenizer itself is the `tokenizers` crate's.
use tokenizers::{DecoderWrapper, Tokenizer};
use vstd::prelude::*;

use crate::error::BuildError;

verus! {

/// The tokenizer of a checkpoint, as loaded from its `tokenizer.json`.
#[verifier::external_type_specification]
#[verifier::external_body]
pub struct ExTokenizer(Tokenizer);

/// The tokens that a tokenizer knows by name, each with its id: the added
/// tokens, and below them the tokens of its model.
pub uninterp spec fn vocabulary(tokenizer: Tokenizer) -> Map<Seq<char>, u32>;

/// What a tokenizer without a decoder, or with a byte-level one, makes of each
/// list of ids, with special tokens skipped or not. Empty for any other decoder.
pub uninterp spec fn texts(tokenizer: Tokenizer) -> Map<(Seq<u32>, bool), Seq<char>>;

/// The tokenizer turns every list of ids into text.
pub open spec fn decodes_all(tokenizer: Tokenizer) -> bool {
    forall|ids: Seq<u32>, skip: bool| #[trigger] texts(tokenizer).contains_key((ids, skip))
}

/// The id of a token, if the tokenizer knows it.
pub open spec fn id_of(tokenizer: Tokenizer, token: Seq<char>) -> Option<u32> {
    if vocabulary(tokenizer).contains_key(token) {
        Some(vocabulary(tokenizer)[token])
    } else {
        None
    }
}

/// `tokenizers::Tokenizer::token_to_id`: gives the id that the vocabulary holds
/// for the token, and nothing for a token that it does not hold.
#[verifier::external_body]
fn token_to_id(tokenizer: &Tokenizer, token: &str) -> (r: Option<u32>)
    ensures
        r is Some <==> vocabulary(*tokenizer).contains_key(token@),
        r is Some ==> r->0 == vocabulary(*tokenizer)[token@],
{
    tokenizer.token_to_id(token)
}

/// `tokenizers::Tokenizer::get_decoder`: tells a tokenizer whose decoder is
/// absent or byte-level from the others. With these two, `decode` returns text
/// for any ids; some other decoders panic on some of them.
#[verifier::external_body]
pub(crate) fn has_plain_decoder(tokenizer: &Tokenizer) -> (r: bool)
    ensures
        r == decodes_all(*tokenizer),
{
    match tokenizer.get_decoder() {
        None => true,
        Some(DecoderWrapper::ByteLevel(_)) => true,
        Some(DecoderWrapper::BPE(_)) => false,
        Some(DecoderWrapper::WordPiece(_)) => false,
        Some(DecoderWrapper::Metaspace(_)) => false,
        Some(DecoderWrapper::CTC(_)) => false,
        Some(DecoderWrapper::Sequence(_)) => false,
        Some(DecoderWrapper::Replace(_)) => false,
        Some(DecoderWrapper::Fuse(_)) => false,
        Some(DecoderWrapper::Strip(_)) => false,
        Some(DecoderWrapper::ByteFallback(_)) => false,
    }
}

/// `tokenizers::Tokenizer::decode`: gives the text that the tokenizer holds for
/// the ids.
#[verifier::external_body]
pub(crate) fn decode(tokenizer: &Tokenizer, ids: &[u32], skip_special_tokens: bool) -> (r: Result<String, String>)
    requires
        texts(*tokenizer).contains_key((ids@, skip_special_tokens)),
    ensures
        r is Ok,
        r->Ok_0@ == texts(*tokenizer)[(ids@, skip_special_tokens)],
{
    tokenizer.decode(ids, skip_special_tokens).map_err(|e| e.to_string())
}

/// Looks a token up.
pub fn token_id(tokenizer: &Tokenizer, token: &str) -> (r: Result<u32, BuildError>)
    ensures
        match id_of(*tokenizer, token@) {
            Some(id) => r == Ok::<u32, BuildError>(id),
            None => r matches Err(BuildError::MissingToken(name)) && name@ == token@,
        },
{
    match token_to_id(tokenizer, token) {
        Some(id) => Ok(id),
        None => Err(BuildError::MissingToken(token.to_string())),
    }
}

} // verus!
