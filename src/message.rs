//! Result codes and result messages returned by every core operation.

use vstd::prelude::*;

verus! {

/// Outcome code of an operation.
#[derive(Clone, Copy, Debug, PartialEq, Eq, Structural)]
pub enum ResultCode {
    Success,
    IllegalPayload,
    BadRequest,
    CryptoError,
    InternalError,
}

/// A result code with an optional byte payload.
#[derive(Debug)]
pub struct ResultMessage {
    pub code: ResultCode,
    pub data: Option<Vec<u8>>,
}

impl ResultMessage {
    pub fn new(code: ResultCode, data: Option<Vec<u8>>) -> (r: ResultMessage)
        ensures
            r.code == code,
            r.data == data,
    {
        ResultMessage { code, data }
    }
}

/// A successful result carrying `data`.
pub fn success(data: Option<Vec<u8>>) -> (r: ResultMessage)
    ensures
        r.code == ResultCode::Success,
        r.data == data,
{
    ResultMessage::new(ResultCode::Success, data)
}

/// A result with the given code carrying `data`.
pub fn failure(code: ResultCode, data: Option<Vec<u8>>) -> (r: ResultMessage)
    ensures
        r.code == code,
        r.data == data,
{
    ResultMessage::new(code, data)
}

} // verus!
