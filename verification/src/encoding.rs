//! Base64 and UTF-8.
use base64::Engine;
use vstd::prelude::*;
use vstd::string::*;
use vstd::utf8::*;

verus! {

/// What `base64::engine::general_purpose::STANDARD.encode` writes.
pub uninterp spec fn base64_text(bytes: Seq<u8>) -> Seq<char>;

/// What `base64::engine::general_purpose::STANDARD.decode` reads, or what its error says.
pub uninterp spec fn base64_of(text: Seq<char>) -> Result<Seq<u8>, Seq<char>>;

/// The bytes that a text writes in Base64; `None` where it writes none.
pub open spec fn base64_bytes(text: Seq<char>) -> Option<Seq<u8>> {
    match base64_of(text) {
        Ok(bytes) => Some(bytes),
        Err(_) => None,
    }
}

/// What is wrong with a text that is not Base64.
pub open spec fn base64_fault(text: Seq<char>) -> Seq<char> {
    match base64_of(text) {
        Ok(_) => Seq::empty(),
        Err(fault) => fault,
    }
}

/// `Engine::encode` of the standard Base64 engine. The text decodes to the bytes.
/// Bytes whose text would not fit into memory are left out.
#[verifier::external_body]
pub(crate) fn encode_base64(bytes: &Vec<u8>) -> (result: String)
    requires
        bytes@.len() <= usize::MAX / 4,
    ensures
        result@ == base64_text(bytes@),
        base64_bytes(result@) == Some(bytes@),
{
    base64::engine::general_purpose::STANDARD.encode(bytes)
}

/// `Engine::decode` of the standard Base64 engine: the bytes that the text writes,
/// or the text of the error that the engine reports. The engine accepts canonical text
/// only, so the bytes encode to the text again.
#[verifier::external_body]
pub(crate) fn decode_base64(data: &str) -> (result: Result<Vec<u8>, String>)
    ensures
        match result {
            Ok(bytes) => base64_of(data@) == Ok::<Seq<u8>, Seq<char>>(bytes@) && base64_text(
                bytes@,
            ) == data@,
            Err(fault) => base64_of(data@) == Err::<Seq<u8>, Seq<char>>(fault@),
        },
{
    base64::engine::general_purpose::STANDARD.decode(data).map_err(|error| error.to_string())
}

/// What `base64::engine::general_purpose::URL_SAFE_NO_PAD.decode` reads; `None` where
/// it reports an error.
pub uninterp spec fn base64_url_bytes(text: Seq<char>) -> Option<Seq<u8>>;

/// `Engine::decode` of the Base64 engine for links, without padding: the bytes that
/// the text writes, or nothing where the engine reports an error.
#[verifier::external_body]
pub(crate) fn decode_base64_url(data: &str) -> (result: Option<Vec<u8>>)
    ensures
        match result {
            Some(bytes) => base64_url_bytes(data@) == Some(bytes@),
            None => base64_url_bytes(data@) is None,
        },
{
    base64::engine::general_purpose::URL_SAFE_NO_PAD.decode(data).ok()
}

/// `std::str::from_utf8`: the text of bytes that are valid UTF-8, and nothing for
/// other bytes.
#[verifier::external_body]
pub(crate) fn utf8_text(bytes: &[u8]) -> (result: Option<String>)
    ensures
        match result {
            Some(t) => valid_utf8(bytes@) && encode_utf8(t@) == bytes@,
            None => !valid_utf8(bytes@),
        },
{
    std::str::from_utf8(bytes).ok().map(|t| t.to_owned())
}

/// The text that `String::from_utf8_lossy` gives.
pub uninterp spec fn lossy_text(bytes: Seq<u8>) -> Seq<char>;

/// `String::from_utf8_lossy`: the text of the bytes, with replacement characters
/// where they are not valid UTF-8.
#[verifier::external_body]
pub(crate) fn utf8_lossy(bytes: &[u8]) -> (result: String)
    ensures
        result@ == lossy_text(bytes@),
        valid_utf8(bytes@) ==> encode_utf8(result@) == bytes@,
{
    String::from_utf8_lossy(bytes).into_owned()
}

} // verus!
