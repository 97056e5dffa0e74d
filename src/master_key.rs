//! The module's master key, kept base64-encoded at rest.

use vstd::prelude::*;
use crate::message::{failure, ResultCode, ResultMessage};

verus! {

#[verifier::external_type_specification]
#[verifier::external_body]
pub struct ExDecodeError(base64::DecodeError);

/// The bytes that standard base64 decoding gives for `s`, or `None` where
/// `s` is not valid base64.
pub uninterp spec fn base64_decoding(s: Seq<u8>) -> Option<Seq<u8>>;

/// Relies on base64::decode (standard alphabet): the result, or the failure,
/// depends on the input bytes alone.
#[verifier::external_body]
fn decode_base64(s: &[u8]) -> (r: Result<Vec<u8>, base64::DecodeError>)
    ensures
        match r {
            Ok(v) => base64_decoding(s@) == Some(v@),
            Err(_) => base64_decoding(s@) is None,
        },
{
    base64::decode(s)
}

/// The master key from the outcome of decoding its at-rest form: a key that
/// does not decode is a deployment defect.
pub fn master_key_from(decoded: Option<Vec<u8>>) -> (r: Result<Vec<u8>, ResultMessage>)
    ensures
        match decoded {
            Some(k) => r is Ok && r->Ok_0@ == k@,
            None => r is Err && r->Err_0.code == ResultCode::InternalError && r->Err_0.data is None,
        },
{
    match decoded {
        Some(k) => Ok(k),
        None => Err(failure(ResultCode::InternalError, None)),
    }
}

/// Decodes the master key from its base64 form.
pub fn decode_master_key(encoded: &[u8]) -> (r: Result<Vec<u8>, ResultMessage>)
    ensures
        match base64_decoding(encoded@) {
            Some(k) => r is Ok && r->Ok_0@ == k,
            None => r is Err && r->Err_0.code == ResultCode::InternalError && r->Err_0.data is None,
        },
{
    let decoded = match decode_base64(encoded) {
        Ok(k) => Some(k),
        Err(_) => None,
    };
    master_key_from(decoded)
}

} // verus!
