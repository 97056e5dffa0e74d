//! Key establishment: a session key, wrapped under the master key and bound
//! to a connection context, is installed as a new connection.

use vstd::prelude::*;
use vstd::slice::{slice_subrange, slice_to_vec};
use crate::codec::{be16_of, data_to_u16};
use crate::connection::{Connection, ConnectionTable, ConnectionView, Encryption};
use crate::message::{failure, success, ResultCode, ResultMessage};

verus! {

/// Length of the fixed part of a key delivery:
/// `[algorithm:1][connection_id:2][logical_index:2][nonce:2]`.
pub const KEY_HEADER_LEN: usize = 7;

/// A parsed key delivery. The wrapped key must be unwrapped with the master
/// key under `associated_data` before the connection can be installed.
pub struct KeyDelivery {
    pub algorithm: u8,
    pub connection_id: u16,
    pub logical_index: u16,
    /// The fixed part of the delivery, verbatim.
    pub associated_data: Vec<u8>,
    /// The wrapped session key, with its authentication tag.
    pub ciphertext: Vec<u8>,
}

/// The view of an optional byte vector.
pub open spec fn bytes_opt(o: Option<Vec<u8>>) -> Option<Seq<u8>> {
    match o {
        Some(v) => Some(v@),
        None => None,
    }
}

/// The connection that a successful establishment installs.
pub open spec fn established(logical_index: u16, algorithm: u8, key: Seq<u8>) -> ConnectionView {
    ConnectionView {
        index: logical_index,
        nonce: 0,
        key,
        encryption: Encryption::spec_from_u8(algorithm)->Some_0,
    }
}

/// Outcome of establishment for `delivery` on table `t`, given the session
/// key that unwrapping gave (`None` where authentication failed): the code
/// and the table after.
pub open spec fn set_key_step(
    t: Map<u16, ConnectionView>,
    connection_id: u16,
    logical_index: u16,
    algorithm: u8,
    unwrapped: Option<Seq<u8>>,
) -> (ResultCode, Map<u16, ConnectionView>) {
    match unwrapped {
        None => (ResultCode::CryptoError, t),
        Some(key) => if Encryption::spec_from_u8(algorithm) is None {
            (ResultCode::CryptoError, t)
        } else {
            (ResultCode::Success, t.insert(connection_id, established(logical_index, algorithm, key)))
        },
    }
}

/// Parses a key delivery
/// `[algorithm:1][connection_id:2][logical_index:2][nonce:2][ciphertext]`;
/// one shorter than its fixed part is an illegal payload.
pub fn set_key_wrapper(data: &[u8]) -> (r: Result<KeyDelivery, ResultMessage>)
    ensures
        data@.len() < 7 <==> r is Err,
        r is Err ==> r->Err_0.code == ResultCode::IllegalPayload && r->Err_0.data is None,
        r is Ok ==> {
            let d = r->Ok_0;
            &&& d.algorithm == data@[0]
            &&& d.connection_id as int == be16_of(data@.subrange(1, 3))
            &&& d.logical_index as int == be16_of(data@.subrange(3, 5))
            &&& d.associated_data@ == data@.subrange(0, 7)
            &&& d.ciphertext@ == data@.subrange(7, data@.len() as int)
        },
{
    if data.len() < KEY_HEADER_LEN {
        return Err(failure(ResultCode::IllegalPayload, None));
    }
    let conn_id = slice_subrange(data, 1, 3);
    let index = slice_subrange(data, 3, 5);
    Ok(KeyDelivery {
        algorithm: data[0],
        connection_id: data_to_u16(conn_id),
        logical_index: data_to_u16(index),
        associated_data: slice_to_vec(slice_subrange(data, 0, KEY_HEADER_LEN)),
        ciphertext: slice_to_vec(slice_subrange(data, KEY_HEADER_LEN, data.len())),
    })
}

/// Stores `conn` under `conn_id`, replacing any connection there.
pub fn add_connection(table: &mut ConnectionTable, conn_id: u16, conn: Connection)
    ensures
        final(table)@ == old(table)@.insert(conn_id, conn@),
{
    table.insert(conn_id, conn);
}

/// Installs the session key of `delivery`, given what unwrapping it under the
/// master key gave (`None` where authentication or decryption failed). On
/// failure, or for an unknown algorithm, the result is a crypto error and the
/// table is unchanged; otherwise the connection is stored with nonce 0,
/// replacing any earlier one with its id.
pub fn set_key(table: &mut ConnectionTable, delivery: &KeyDelivery, unwrapped: Option<Vec<u8>>) -> (r: ResultMessage)
    ensures
        (r.code, final(table)@) == set_key_step(
            old(table)@,
            delivery.connection_id,
            delivery.logical_index,
            delivery.algorithm,
            bytes_opt(unwrapped),
        ),
        r.data is None,
{
    let key = match unwrapped {
        Some(k) => k,
        None => return failure(ResultCode::CryptoError, None),
    };
    let enc = match Encryption::from_u8(delivery.algorithm) {
        Some(e) => e,
        None => return failure(ResultCode::CryptoError, None),
    };
    let conn = Connection::new(delivery.logical_index, 0, key, enc);
    add_connection(table, delivery.connection_id, conn);
    success(None)
}

} // verus!
