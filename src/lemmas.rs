//! Properties of the protocol that relate several operations.

use vstd::prelude::*;
use crate::codec::be16_bytes;
use crate::connection::{ConnectionView, Encryption};
use crate::inbound::{advanced, input_accepted};
use crate::key_exchange::set_key_step;
use crate::message::ResultCode;
use crate::outbound::{after_commits, among_first, EncryptJob};

verus! {

/// A key delivery whose wrapped key fails authentication is a crypto error
/// and leaves every connection as it was.
pub proof fn lemma_failed_unwrap_changes_nothing(
    t: Map<u16, ConnectionView>,
    connection_id: u16,
    logical_index: u16,
    algorithm: u8,
)
    ensures
        set_key_step(t, connection_id, logical_index, algorithm, None) == (ResultCode::CryptoError, t),
{
}

/// Establishing a key for connection `id` sets its nonce to 0; a following
/// accepted inbound payload on `id` advances it to 1, after which the
/// associated data that decryption uses is no longer the one of nonce 0.
pub proof fn lemma_nonce_progression(
    t: Map<u16, ConnectionView>,
    id: u16,
    logical_index: u16,
    algorithm: u8,
    key: Seq<u8>,
    plaintext: Seq<u8>,
)
    requires
        Encryption::spec_from_u8(algorithm) is Some,
    ensures
        ({
            let (code, t1) = set_key_step(t, id, logical_index, algorithm, Some(key));
            let t2 = t1.insert(id, advanced(t1[id]));
            &&& code == ResultCode::Success
            &&& t1.contains_key(id) && t1[id].nonce == 0
            &&& input_accepted(t1, id, Some(plaintext))
            &&& t2[id].nonce == 1
            &&& be16_bytes(t2[id].nonce) != be16_bytes(t1[id].nonce)
        }),
{
    let (code, t1) = set_key_step(t, id, logical_index, algorithm, Some(key));
    let t2 = t1.insert(id, advanced(t1[id]));
    assert(be16_bytes(t2[id].nonce)[1] != be16_bytes(t1[id].nonce)[1]);
}

/// After a fan-out in which the first `n` jobs committed, every connection
/// that one of them names has its nonce advanced by exactly one, and every
/// other connection is unchanged.
pub proof fn lemma_fan_out_advances_once(
    t: Map<u16, ConnectionView>,
    jobs: Seq<EncryptJob>,
    n: int,
    k: u16,
)
    requires
        t.contains_key(k),
        among_first(jobs, n, k) ==> t[k].nonce < u16::MAX,
    ensures
        after_commits(t, jobs, n).contains_key(k),
        among_first(jobs, n, k) ==> after_commits(t, jobs, n)[k].nonce == t[k].nonce + 1,
        among_first(jobs, n, k) ==> after_commits(t, jobs, n)[k] == (ConnectionView { nonce: (t[k].nonce + 1) as u16, ..t[k] }),
        !among_first(jobs, n, k) ==> after_commits(t, jobs, n)[k] == t[k],
{
}

} // verus!
