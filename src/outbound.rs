//! Outbound dispatch: application output for a logical index is encrypted
//! for every connection bound to it and forwarded to the Event Manager.

use vstd::prelude::*;
use vstd::slice::slice_to_vec;
use crate::codec::{be16_bytes, u16_to_data};
use crate::connection::{ConnectionTable, ConnectionView, Encryption};
use crate::inbound::advanced;

verus! {

/// Largest ciphertext that fits in a frame to the Event Manager.
pub const MAX_FRAME_DATA: usize = 65531;

/// What encrypting output for one connection needs: the connection's key,
/// its algorithm, and its current nonce as associated data.
pub struct EncryptJob {
    pub connection_id: u16,
    pub key: Vec<u8>,
    pub encryption: Encryption,
    pub nonce: u16,
    pub associated_data: Vec<u8>,
}

/// Ciphertext to forward to the Event Manager for one connection.
pub struct Forward {
    pub connection_id: u16,
    pub ciphertext: Vec<u8>,
}

/// Whether `job` is the encryption job of connection `id` in state `c`.
pub open spec fn job_for(job: EncryptJob, id: u16, c: ConnectionView) -> bool {
    &&& job.connection_id == id
    &&& job.key@ == c.key
    &&& job.encryption == c.encryption
    &&& job.nonce == c.nonce
    &&& job.associated_data@ == be16_bytes(c.nonce)
}

/// Whether job `i` of `jobs` commits on table `t` (the table before the fan-out),
/// given the encryption outcomes `sealed`: it encrypted, it names a connection
/// at the nonce it was encrypted with, that nonce can advance, and no earlier
/// job names the same connection.
pub open spec fn job_commits(
    t: Map<u16, ConnectionView>,
    jobs: Seq<EncryptJob>,
    sealed: Seq<Option<Vec<u8>>>,
    i: int,
) -> bool {
    let id = jobs[i].connection_id;
    &&& 0 <= i < jobs.len()
    &&& i < sealed.len()
    &&& sealed[i] is Some
    &&& t.contains_key(id)
    &&& t[id].nonce == jobs[i].nonce
    &&& jobs[i].nonce < u16::MAX
    &&& forall|j: int| 0 <= j < i ==> jobs[j].connection_id != id
}

/// Whether one of the first `n` jobs names connection `id`.
pub open spec fn among_first(jobs: Seq<EncryptJob>, n: int, id: u16) -> bool {
    exists|j: int| 0 <= j < n && jobs[j].connection_id == id
}

/// The table after the first `n` jobs committed: each of their connections
/// has its nonce advanced once.
pub open spec fn after_commits(t: Map<u16, ConnectionView>, jobs: Seq<EncryptJob>, n: int) -> Map<u16, ConnectionView> {
    Map::new(
        |k: u16| t.contains_key(k),
        |k: u16| if among_first(jobs, n, k) { advanced(t[k]) } else { t[k] },
    )
}

/// The encryption jobs for every connection bound to `index`, one per
/// connection, each at the connection's current nonce.
pub fn output_jobs(table: &ConnectionTable, index: u16) -> (r: Vec<EncryptJob>)
    ensures
        forall|a: int, b: int| 0 <= a < r.len() && 0 <= b < r.len() && a != b
            ==> r@[a].connection_id != r@[b].connection_id,
        forall|a: int| 0 <= a < r.len() ==> {
            let id = #[trigger] r@[a].connection_id;
            table@.contains_key(id) && table@[id].index == index && job_for(r@[a], id, table@[id])
        },
        forall|k: u16| table@.contains_key(k) && table@[k].index == index
            ==> exists|a: int| 0 <= a < r.len() && #[trigger] r@[a].connection_id == k,
{
    let ids = table.ids();
    let mut jobs: Vec<EncryptJob> = Vec::new();
    let mut i: usize = 0;
    while i < ids.len()
        invariant
            i <= ids.len(),
            ids@.no_duplicates(),
            forall|k: u16| table@.contains_key(k) <==> ids@.contains(k),
            forall|a: int| #![trigger jobs@[a]] 0 <= a < jobs.len() ==> exists|m: int| 0 <= m < i && #[trigger] ids@[m] == jobs@[a].connection_id,
            forall|a: int, b: int| 0 <= a < jobs.len() && 0 <= b < jobs.len() && a != b
                ==> jobs@[a].connection_id != jobs@[b].connection_id,
            forall|a: int| 0 <= a < jobs.len() ==> {
                let id = #[trigger] jobs@[a].connection_id;
                table@.contains_key(id) && table@[id].index == index && job_for(jobs@[a], id, table@[id])
            },
            forall|m: int| 0 <= m < i && table@[#[trigger] ids@[m]].index == index
                ==> exists|a: int| 0 <= a < jobs.len() && jobs@[a].connection_id == ids@[m],
        decreases ids.len() - i,
    {
        let id = ids[i];
        assert(ids@.contains(id));
        let conn = table.get(id).unwrap();
        if conn.get_index() == index {
            let nonce = conn.get_nonce();
            let ad = u16_to_data(nonce);
            let job = EncryptJob {
                connection_id: id,
                key: slice_to_vec(conn.get_key().as_slice()),
                encryption: *conn.get_encryption(),
                nonce,
                associated_data: slice_to_vec(&ad),
            };
            let ghost old_jobs = jobs@;
            jobs.push(job);
            proof {
                assert forall|a: int| #![trigger jobs@[a]] 0 <= a < jobs.len() implies exists|m: int| 0 <= m < i + 1 && #[trigger] ids@[m] == jobs@[a].connection_id by {
                    if a < old_jobs.len() {
                        assert(old_jobs[a] == jobs@[a]);
                    } else {
                        assert(ids@[i as int] == jobs@[a].connection_id);
                    }
                }
                assert forall|m: int| 0 <= m < i + 1 && table@[#[trigger] ids@[m]].index == index
                    implies exists|a: int| 0 <= a < jobs.len() && jobs@[a].connection_id == ids@[m] by {
                    if m < i {
                        let a = choose|a: int| 0 <= a < old_jobs.len() && old_jobs[a].connection_id == ids@[m];
                        assert(jobs@[a] == old_jobs[a]);
                    } else {
                        assert(jobs@[old_jobs.len() as int].connection_id == ids@[m]);
                    }
                }
            }
        }
        i = i + 1;
    }
    proof {
        assert forall|k: u16| table@.contains_key(k) && table@[k].index == index
            implies exists|a: int| 0 <= a < jobs.len() && #[trigger] jobs@[a].connection_id == k by {
            assert(ids@.contains(k));
            let m = choose|m: int| 0 <= m < ids.len() && ids@[m] == k;
            assert(table@[ids@[m]].index == index);
        }
    }
    jobs
}

/// Commits the fan-out of output for `jobs`, given the encryption outcomes
/// `sealed` (`None` where encryption failed), in order. The first job that
/// does not commit ends the fan-out: no later job commits. Each committed
/// job advances its connection's nonce by one and yields its ciphertext for
/// forwarding.
pub fn handle_output(table: &mut ConnectionTable, jobs: &Vec<EncryptJob>, sealed: &Vec<Option<Vec<u8>>>) -> (r: Vec<Forward>)
    ensures
        r.len() <= jobs.len(),
        forall|i: int| 0 <= i < r.len() ==> job_commits(old(table)@, jobs@, sealed@, i)
            && r@[i].connection_id == jobs@[i].connection_id
            && r@[i].ciphertext@ == sealed@[i]->Some_0@,
        r.len() < jobs.len() ==> !job_commits(old(table)@, jobs@, sealed@, r.len() as int),
        final(table)@ == after_commits(old(table)@, jobs@, r.len() as int),
{
    let ghost t0 = table@;
    let mut out: Vec<Forward> = Vec::new();
    let mut i: usize = 0;
    let mut stopped = false;
    proof { assert(table@ =~= after_commits(t0, jobs@, 0)); }
    while i < jobs.len() && !stopped
        invariant
            i <= jobs.len(),
            out.len() == i,
            forall|m: int| 0 <= m < i ==> job_commits(t0, jobs@, sealed@, m)
                && out@[m].connection_id == jobs@[m].connection_id
                && out@[m].ciphertext@ == sealed@[m]->Some_0@,
            stopped ==> !job_commits(t0, jobs@, sealed@, i as int),
            table@ == after_commits(t0, jobs@, i as int),
        decreases jobs.len() - i + (if stopped { 0int } else { 1int }),
    {
        let job = &jobs[i];
        let id = job.connection_id;
        let mut commits = i < sealed.len() && sealed[i].is_some() && job.nonce < u16::MAX;
        if commits {
            match table.get(id) {
                Some(c) => {
                    if c.get_nonce() != job.nonce {
                        commits = false;
                    }
                },
                None => {
                    commits = false;
                },
            }
        }
        if commits && seen_before(jobs, i, id) {
            commits = false;
        }
        proof {
            if !among_first(jobs@, i as int, id) {
                assert(table@.contains_key(id) == t0.contains_key(id));
                assert(t0.contains_key(id) ==> table@[id] == t0[id]);
            }
        }
        if !commits {
            stopped = true;
        } else {
            let ct = match &sealed[i] {
                Some(v) => slice_to_vec(v.as_slice()),
                None => Vec::new(),
            };
            table.increment_nonce(id);
            out.push(Forward { connection_id: id, ciphertext: ct });
            proof {
                assert forall|k: u16| #[trigger] among_first(jobs@, i + 1, k)
                    == (among_first(jobs@, i as int, k) || k == id) by {
                    if among_first(jobs@, i + 1, k) && k != id {
                        let j = choose|j: int| 0 <= j < i + 1 && jobs@[j].connection_id == k;
                        assert(j < i);
                    }
                    if k == id {
                        assert(jobs@[i as int].connection_id == k);
                    }
                }
                assert(table@ =~= after_commits(t0, jobs@, i + 1));
            }
            i = i + 1;
        }
    }
    out
}

/// Whether one of the first `n` jobs names connection `id`.
fn seen_before(jobs: &Vec<EncryptJob>, n: usize, id: u16) -> (r: bool)
    requires
        n <= jobs.len(),
    ensures
        r == among_first(jobs@, n as int, id),
{
    let mut j: usize = 0;
    while j < n
        invariant
            j <= n <= jobs.len(),
            forall|m: int| 0 <= m < j ==> jobs@[m].connection_id != id,
        decreases n - j,
    {
        if jobs[j].connection_id == id {
            return true;
        }
        j = j + 1;
    }
    false
}

/// The frame `[connection_id:2][ciphertext]` for the Event Manager, or `None`
/// where the ciphertext is too large for a frame.
pub fn em_frame(connection_id: u16, ciphertext: &Vec<u8>) -> (r: Option<Vec<u8>>)
    ensures
        ciphertext.len() > MAX_FRAME_DATA <==> r is None,
        r is Some ==> r->Some_0@ == be16_bytes(connection_id) + ciphertext@,
{
    if ciphertext.len() > MAX_FRAME_DATA {
        return None;
    }
    let id = u16_to_data(connection_id);
    let mut frame = slice_to_vec(&id);
    let mut i: usize = 0;
    while i < ciphertext.len()
        invariant
            i <= ciphertext.len(),
            frame@ == be16_bytes(connection_id) + ciphertext@.subrange(0, i as int),
        decreases ciphertext.len() - i,
    {
        frame.push(ciphertext[i]);
        i = i + 1;
        assert(frame@ =~= be16_bytes(connection_id) + ciphertext@.subrange(0, i as int));
    }
    assert(ciphertext@.subrange(0, ciphertext.len() as int) =~= ciphertext@);
    Some(frame)
}

} // verus!
