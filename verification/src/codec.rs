//! How keys and values travel: UTF-8 texts, encoded in base64.
use crate::outcome::outcome;
use base64::engine::general_purpose;
use base64::Engine;
use vstd::prelude::*;
use vstd::utf8::*;

verus! {

/// The base64 text of `bytes`, in the standard alphabet with padding.
pub uninterp spec fn base64_encoded(bytes: Seq<u8>) -> Seq<char>;

/// The bytes of the base64 text `text`, or the message that says why it is none.
pub uninterp spec fn base64_decoded(text: Seq<char>) -> Result<Seq<u8>, Seq<char>>;

/// Decoding `text` gives `bytes`.
pub open spec fn decodes_to(text: Seq<char>, bytes: Seq<u8>) -> bool {
    base64_decoded(text) matches Ok(found) && found == bytes
}

/// The base64 text of `bytes` is read as `bytes` again.
pub open spec fn arrives(bytes: Seq<u8>) -> bool {
    decodes_to(base64_encoded(bytes), bytes)
}

/// The message that says why `bytes` are not UTF-8.
pub uninterp spec fn utf8_fault(bytes: Seq<u8>) -> Seq<char>;

/// Calls `base64::Engine::encode` on `general_purpose::STANDARD`. The claims: the text depends
/// on `bytes` alone, and decoding it with the same engine gives `bytes` back. The call
/// panics where the size of the text overflows, which it does for no slice that can exist.
#[verifier::external_body]
pub(crate) fn base64_encode(bytes: &[u8]) -> (text: String)
    ensures
        text@ == base64_encoded(bytes@),
        decodes_to(text@, bytes@),
{
    general_purpose::STANDARD.encode(bytes)
}

/// Calls `base64::Engine::decode` on `general_purpose::STANDARD`. The claim: the bytes, or the
/// text of the error, depend on `text` alone.
#[verifier::external_body]
pub(crate) fn base64_decode(text: &str) -> (bytes: Result<Vec<u8>, String>)
    ensures
        outcome(bytes) == base64_decoded(text@),
{
    general_purpose::STANDARD.decode(text).map_err(|error| error.to_string())
}

/// Calls `String::from_utf8`. The claims: it succeeds on valid UTF-8 and on nothing else, the
/// text is the one whose UTF-8 form `bytes` are, and the error's text depends on `bytes` alone.
#[verifier::external_body]
pub(crate) fn utf8_decode(bytes: Vec<u8>) -> (text: Result<String, String>)
    ensures
        match text {
            Ok(found) => valid_utf8(bytes@) && found@ == decode_utf8(bytes@),
            Err(message) => !valid_utf8(bytes@) && message@ == utf8_fault(bytes@),
        },
{
    String::from_utf8(bytes).map_err(|error| error.to_string())
}

/// The text that the base64 text `encoded` stands for, or the message that says why it stands
/// for none.
pub open spec fn decoded_text(encoded: Seq<char>) -> Result<Seq<char>, Seq<char>> {
    match base64_decoded(encoded) {
        Err(message) => Err(message),
        Ok(bytes) => if valid_utf8(bytes) {
            Ok(decode_utf8(bytes))
        } else {
            Err(utf8_fault(bytes))
        },
    }
}

/// The base64 form of the UTF-8 bytes of `text`.
pub open spec fn encoded_text(text: Seq<char>) -> Seq<char> {
    base64_encoded(encode_utf8(text))
}

/// The base64 form of `text`, from which [`decode_text`] reads `text` again.
pub fn encode_text(text: &str) -> (encoded: String)
    ensures
        encoded@ == encoded_text(text@),
        arrives(encode_utf8(text@)),
        decoded_text(encoded@) matches Ok(found) && found == text@,
{
    let encoded = base64_encode(text.as_bytes());
    proof {
        lemma_text_arrives(text@);
    }
    encoded
}

/// A text whose UTF-8 bytes arrive is read again.
pub proof fn lemma_text_arrives(text: Seq<char>)
    requires
        arrives(encode_utf8(text)),
    ensures
        decoded_text(encoded_text(text)) matches Ok(found) && found == text,
{
    encode_utf8_valid_utf8(text);
    encode_utf8_decode_utf8(text);
}

/// The text whose base64 form is `encoded`.
pub fn decode_text(encoded: &str) -> (text: Result<String, String>)
    ensures
        outcome(text) == decoded_text(encoded@),
{
    match base64_decode(encoded) {
        Ok(bytes) => utf8_decode(bytes),
        Err(message) => Err(message),
    }
}

} // verus!
