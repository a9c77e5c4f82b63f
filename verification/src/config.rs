//! The node's configuration, handed over as Base64 text.
use vstd::prelude::*;
use vstd::string::StringSliceAdditionalSpecFns;
use vstd::utf8::{decode_utf8, valid_utf8};

verus! {

/// `base64::DecodeError`, opaque: only its presence is used.
#[verifier::external_type_specification]
#[verifier::external_body]
pub struct ExDecodeError(base64::DecodeError);

/// `std::string::FromUtf8Error`, opaque: only its presence is used.
#[verifier::external_type_specification]
#[verifier::external_body]
pub struct ExFromUtf8Error(std::string::FromUtf8Error);

/// The bytes that the standard Base64 alphabet, with padding and with
/// trailing bits allowed, decodes `input` to; `None` when `input` is not
/// such Base64 text.
pub uninterp spec fn base64_standard_decode(input: Seq<u8>) -> Option<Seq<u8>>;

/// `base64::decode_config` with `base64::STANDARD.decode_allow_trailing_bits(true)`.
/// It panics when the input length plus 3 overflows, hence the `requires`.
#[verifier::external_body]
fn decode_base64(input: &[u8]) -> (res: Result<Vec<u8>, base64::DecodeError>)
    requires
        input@.len() + 3 <= usize::MAX,
    ensures
        match res {
            Ok(bytes) => base64_standard_decode(input@) == Some(bytes@),
            Err(_) => base64_standard_decode(input@) is None,
        },
{
    base64::decode_config(input, base64::STANDARD.decode_allow_trailing_bits(true))
}

/// `String::from_utf8`: the text the bytes encode in UTF-8, an error when
/// they are not valid UTF-8.
#[verifier::external_body]
fn string_from_utf8(bytes: Vec<u8>) -> (res: Result<String, std::string::FromUtf8Error>)
    ensures
        match res {
            Ok(s) => valid_utf8(bytes@) && s@ == decode_utf8(bytes@),
            Err(_) => !valid_utf8(bytes@),
        },
{
    String::from_utf8(bytes)
}

/// Errors of reading the configuration.
#[derive(Debug, PartialEq, Eq)]
pub enum ConfigError {
    /// The configuration is not Base64 text.
    Base64,
    /// The decoded configuration is not UTF-8 text.
    Utf8,
}

/// The configuration text that the Base64 text `config` encodes: Base64 is
/// decoded with the standard alphabet, then the bytes read as UTF-8.
pub fn decode_config(config: &str) -> (res: Result<String, ConfigError>)
    requires
        config.spec_bytes().len() + 3 <= usize::MAX,
    ensures
        match base64_standard_decode(config.spec_bytes()) {
            None => res == Err::<String, ConfigError>(ConfigError::Base64),
            Some(bytes) => if valid_utf8(bytes) {
                res matches Ok(text) && text@ == decode_utf8(bytes)
            } else {
                res == Err::<String, ConfigError>(ConfigError::Utf8)
            },
        },
{
    let decoded = match decode_base64(config.as_bytes()) {
        Ok(bytes) => bytes,
        Err(_) => {
            return Err(ConfigError::Base64);
        },
    };
    match string_from_utf8(decoded) {
        Ok(text) => Ok(text),
        Err(_) => Err(ConfigError::Utf8),
    }
}

} // verus!
