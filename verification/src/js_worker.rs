use base64::Engine;
use vstd::prelude::*;
use vstd::string::StringExecFns;
use vstd::utf8::{decode_utf8, valid_utf8};
use crate::error::NodegetError;
use crate::text::{trim, trim_str};

verus! {

/// What `base64`'s `STANDARD` engine (standard alphabet, padding) decodes
/// `input` to, or the text of its decoding error.
pub uninterp spec fn base64_standard_decode(input: Seq<u8>) -> Result<Seq<u8>, Seq<char>>;

/// The text of the error that `String::from_utf8` gives for `bytes`.
pub uninterp spec fn utf8_error_text(bytes: Seq<u8>) -> Seq<char>;

/// Decodes `input` with `base64::engine::general_purpose::STANDARD`. The
/// contract says only that the result, or the error's text, is
/// `base64_standard_decode` of the input.
#[verifier::external_body]
fn decode_base64_standard(input: &[u8]) -> (r: Result<Vec<u8>, String>)
    ensures
        match base64_standard_decode(input@) {
            Ok(bytes) => r matches Ok(v) && v@ == bytes,
            Err(text) => r matches Err(m) && m@ == text,
        },
{
    base64::engine::general_purpose::STANDARD.decode(input).map_err(|e| e.to_string())
}

/// Turns `bytes` into a `String` with `String::from_utf8`, which succeeds
/// exactly on valid UTF-8 and then holds the decoded characters.
#[verifier::external_body]
fn string_from_utf8(bytes: Vec<u8>) -> (r: Result<String, String>)
    ensures
        r is Ok <==> valid_utf8(bytes@),
        r matches Ok(s) ==> s@ == decode_utf8(bytes@),
        r matches Err(m) ==> m@ == utf8_error_text(bytes@),
{
    String::from_utf8(bytes).map_err(|e| e.to_string())
}

/// The outcome of checking a worker name and its base64-encoded script:
/// the decoded script, or the error (`true` for an input error, `false`
/// for a parse error) and its message.
pub open spec fn js_worker_script_outcome(name: Seq<char>, script_base64: Seq<char>) -> Result<Seq<char>, (bool, Seq<char>)> {
    if trim(name).len() == 0 {
        Err((true, "name cannot be empty"@))
    } else if trim(script_base64).len() == 0 {
        Err((true, "js_script_base64 cannot be empty"@))
    } else {
        match base64_standard_decode(vstd::utf8::encode_utf8(script_base64)) {
            Err(text) => Err((false, "Invalid js_script_base64: "@ + text)),
            Ok(bytes) => if !valid_utf8(bytes) {
                Err((false, "js_script_base64 is not valid UTF-8: "@ + utf8_error_text(bytes)))
            } else if trim(decode_utf8(bytes)).len() == 0 {
                Err((true, "Decoded js_script cannot be empty"@))
            } else {
                Ok(decode_utf8(bytes))
            },
        }
    }
}

/// Checks the name and the base64-encoded source of a JavaScript worker, as
/// creating or updating a worker does, and returns the decoded source.
pub fn decode_js_worker_script(name: &str, js_script_base64: &str) -> (r: Result<String, NodegetError>)
    ensures
        match js_worker_script_outcome(name@, js_script_base64@) {
            Ok(script) => r matches Ok(s) && s@ == script,
            Err((true, msg)) => r matches Err(NodegetError::InvalidInput(m)) && m@ == msg,
            Err((false, msg)) => r matches Err(NodegetError::ParseError(m)) && m@ == msg,
        },
{
    if trim_str(name).is_empty() {
        return Err(NodegetError::InvalidInput(String::from_str("name cannot be empty")));
    }
    if trim_str(js_script_base64).is_empty() {
        return Err(NodegetError::InvalidInput(String::from_str("js_script_base64 cannot be empty")));
    }
    let bytes = match decode_base64_standard(js_script_base64.as_bytes()) {
        Ok(bytes) => bytes,
        Err(text) => {
            return Err(NodegetError::ParseError(String::from_str("Invalid js_script_base64: ").concat(text.as_str())));
        },
    };
    let script = match string_from_utf8(bytes) {
        Ok(script) => script,
        Err(text) => {
            return Err(NodegetError::ParseError(String::from_str("js_script_base64 is not valid UTF-8: ").concat(text.as_str())));
        },
    };
    if trim_str(script.as_str()).is_empty() {
        return Err(NodegetError::InvalidInput(String::from_str("Decoded js_script cannot be empty")));
    }
    Ok(script)
}

} // verus!
