//! API keys in the configuration file, off Windows: storing one is refused, as
//! there is no protection to give it; a key stored as base64 text is read back.
use vstd::prelude::*;
use vstd::utf8::{decode_utf8, encode_utf8, valid_utf8};
use base64::Engine;
use base64::engine::general_purpose::STANDARD;

verus! {

broadcast use vstd::string::group_string_axioms;

#[verifier::external_type_specification]
#[verifier::external_body]
pub struct ExDecodeError(base64::DecodeError);

#[verifier::external_type_specification]
#[verifier::external_body]
pub struct ExFromUtf8Error(std::string::FromUtf8Error);

/// The bytes that the `STANDARD` engine decodes `text` to, `None` where it rejects
/// the text.
pub uninterp spec fn base64_bytes(text: Seq<char>) -> Option<Seq<u8>>;

/// `base64::Engine::decode` with the `STANDARD` engine. Claimed: it succeeds
/// exactly when the engine accepts `text`, with the decoded bytes.
#[verifier::external_body]
fn base64_decode(text: &str) -> (r: Result<Vec<u8>, base64::DecodeError>)
    ensures
        match r {
            Ok(b) => base64_bytes(text@) == Some(b@),
            Err(_) => base64_bytes(text@) is None,
        },
{
    STANDARD.decode(text)
}

/// `String::from_utf8`: succeeds exactly on valid UTF-8, with the text it encodes.
#[verifier::external_body]
fn utf8_string(bytes: Vec<u8>) -> (r: Result<String, std::string::FromUtf8Error>)
    ensures
        r is Ok <==> valid_utf8(bytes@),
        r matches Ok(s) ==> s@ == decode_utf8(bytes@),
{
    String::from_utf8(bytes)
}

/// The key that stored text `encoded` stands for, where it stands for one.
pub open spec fn unprotected(encoded: Seq<char>) -> Option<Seq<char>> {
    match base64_bytes(encoded) {
        Some(b) => if valid_utf8(b) { Some(decode_utf8(b)) } else { None },
        None => None,
    }
}

/// Storing an API key off Windows: refused. Only Windows offers a real protection
/// of stored keys (DPAPI); a reversible encoding is not passed off as one.
pub fn protect_secret(secret: &str) -> (r: Result<String, String>)
    ensures
        r matches Err(m) && m@ == "当前平台不支持安全保存密钥：仅 Windows 提供 DPAPI 加密"@,
{
    Err(String::from_str("当前平台不支持安全保存密钥：仅 Windows 提供 DPAPI 加密"))
}

/// The API key that stored text stands for; `Err` carries the decoder's message when
/// the text is not base64 or does not decode to UTF-8.
pub fn unprotect_secret(encoded: &str) -> (r: Result<String, String>)
    ensures
        r is Ok <==> unprotected(encoded@) is Some,
        r matches Ok(s) ==> Some(s@) == unprotected(encoded@),
{
    let bytes = match base64_decode(encoded) {
        Ok(b) => b,
        Err(e) => return Err(e.to_string()),
    };
    match utf8_string(bytes) {
        Ok(s) => Ok(s),
        Err(e) => Err(e.to_string()),
    }
}

/// Law: base64 text of a key's UTF-8 bytes reads back as that key.
pub proof fn law_secret_round_trip(secret: Seq<char>, encoded: Seq<char>)
    requires
        base64_bytes(encoded) == Some(encode_utf8(secret)),
    ensures
        unprotected(encoded) == Some(secret),
{
    vstd::utf8::encode_utf8_valid_utf8(secret);
    vstd::utf8::encode_utf8_decode_utf8(secret);
}

} // verus!
