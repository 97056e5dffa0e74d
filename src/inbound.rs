//! Inbound dispatch: decrypted application data for a known connection is
//! handed to the input handler bound to the connection's logical index.

use vstd::prelude::*;
use vstd::slice::{slice_subrange, slice_to_vec};
use crate::codec::{be16_bytes, be16_of, data_to_u16, u16_to_data};
use crate::connection::{ConnectionTable, ConnectionView, Encryption};
use crate::key_exchange::bytes_opt;
use crate::message::{failure, ResultCode, ResultMessage};

verus! {

/// What decrypting an inbound payload needs: the connection's key, its
/// algorithm, and its current nonce as associated data.
pub struct DecryptJob {
    pub connection_id: u16,
    pub key: Vec<u8>,
    pub encryption: Encryption,
    pub nonce: u16,
    pub associated_data: Vec<u8>,
    pub ciphertext: Vec<u8>,
}

/// Plaintext to hand to the input handler of `logical_index`.
pub struct Delivery {
    pub logical_index: u16,
    pub plaintext: Vec<u8>,
}

/// `c` with its nonce advanced by one.
pub open spec fn advanced(c: ConnectionView) -> ConnectionView {
    ConnectionView { nonce: (c.nonce + 1) as u16, ..c }
}

/// Whether an inbound payload for `id` on `t` that decrypted to `decrypted`
/// advances the connection: the connection exists, the payload decrypted,
/// and its nonce can still advance.
pub open spec fn input_accepted(t: Map<u16, ConnectionView>, id: u16, decrypted: Option<Seq<u8>>) -> bool {
    &&& t.contains_key(id)
    &&& decrypted is Some
    &&& t[id].nonce < u16::MAX
}

/// Parses an inbound payload `[connection_id:2][ciphertext]` and prepares its
/// decryption: a payload shorter than two bytes is an illegal payload, an
/// unknown connection a bad request.
pub fn handle_input_wrapper(table: &ConnectionTable, data: &[u8]) -> (r: Result<DecryptJob, ResultMessage>)
    ensures
        data@.len() < 2 ==> r is Err && r->Err_0.code == ResultCode::IllegalPayload
            && r->Err_0.data is None,
        data@.len() >= 2 && !table@.contains_key(be16_of(data@) as u16) ==> r is Err
            && r->Err_0.code == ResultCode::BadRequest && r->Err_0.data is None,
        data@.len() >= 2 && table@.contains_key(be16_of(data@) as u16) ==> r is Ok && {
            let j = r->Ok_0;
            let c = table@[j.connection_id];
            &&& j.connection_id as int == be16_of(data@)
            &&& j.key@ == c.key
            &&& j.encryption == c.encryption
            &&& j.nonce == c.nonce
            &&& j.associated_data@ == be16_bytes(c.nonce)
            &&& j.ciphertext@ == data@.subrange(2, data@.len() as int)
        },
{
    if data.len() < 2 {
        return Err(failure(ResultCode::IllegalPayload, None));
    }
    let conn_id = data_to_u16(data);
    let conn = match table.get(conn_id) {
        Some(c) => c,
        None => return Err(failure(ResultCode::BadRequest, None)),
    };
    let nonce = conn.get_nonce();
    let ad = u16_to_data(nonce);
    Ok(DecryptJob {
        connection_id: conn_id,
        key: slice_to_vec(conn.get_key().as_slice()),
        encryption: *conn.get_encryption(),
        nonce,
        associated_data: slice_to_vec(&ad),
        ciphertext: slice_to_vec(slice_subrange(data, 2, data.len())),
    })
}

/// Completes inbound dispatch on connection `conn_id`, given what decrypting
/// the payload gave (`None` where it failed). An unknown connection is a bad
/// request; a failed decryption, or a nonce that cannot advance, a crypto
/// error, with the table unchanged. Otherwise the nonce advances, and the
/// plaintext goes to the handler of the connection's logical index, or, where
/// `inputs` has none for it, the result is a bad request.
pub fn handle_input(
    table: &mut ConnectionTable,
    conn_id: u16,
    decrypted: Option<Vec<u8>>,
    inputs: &Vec<u16>,
) -> (r: Result<Delivery, ResultMessage>)
    ensures
        !old(table)@.contains_key(conn_id) ==> r is Err && r->Err_0.code == ResultCode::BadRequest,
        old(table)@.contains_key(conn_id) && !input_accepted(old(table)@, conn_id, bytes_opt(decrypted))
            ==> r is Err && r->Err_0.code == ResultCode::CryptoError,
        r is Err ==> r->Err_0.data is None,
        input_accepted(old(table)@, conn_id, bytes_opt(decrypted)) ==> {
            let c = old(table)@[conn_id];
            &&& final(table)@ == old(table)@.insert(conn_id, advanced(c))
            &&& inputs@.contains(c.index) ==> r is Ok && r->Ok_0.logical_index == c.index
                && r->Ok_0.plaintext@ == bytes_opt(decrypted)->Some_0
            &&& !inputs@.contains(c.index) ==> r is Err && r->Err_0.code == ResultCode::BadRequest
        },
        !input_accepted(old(table)@, conn_id, bytes_opt(decrypted)) ==> final(table)@ == old(table)@,
{
    let (index, nonce) = match table.get(conn_id) {
        Some(c) => (c.get_index(), c.get_nonce()),
        None => return Err(failure(ResultCode::BadRequest, None)),
    };
    let plaintext = match decrypted {
        Some(d) => d,
        None => return Err(failure(ResultCode::CryptoError, None)),
    };
    if nonce == u16::MAX {
        return Err(failure(ResultCode::CryptoError, None));
    }
    table.increment_nonce(conn_id);
    if has_handler(inputs, index) {
        Ok(Delivery { logical_index: index, plaintext })
    } else {
        Err(failure(ResultCode::BadRequest, None))
    }
}

/// Whether `inputs` lists a handler for `index`.
fn has_handler(inputs: &Vec<u16>, index: u16) -> (r: bool)
    ensures
        r == inputs@.contains(index),
{
    let mut i: usize = 0;
    while i < inputs.len()
        invariant
            i <= inputs.len(),
            forall|j: int| 0 <= j < i ==> inputs@[j] != index,
        decreases inputs.len() - i,
    {
        if inputs[i] == index {
            assert(inputs@[i as int] == index);
            return true;
        }
        i = i + 1;
    }
    false
}

} // verus!
