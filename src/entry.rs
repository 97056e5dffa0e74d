//! The entry router: the single external call boundary of the module.

use vstd::prelude::*;
use vstd::slice::{slice_subrange, slice_to_vec};
use crate::codec::{be16_of, data_to_u16};
use crate::message::{failure, ResultCode, ResultMessage};

verus! {

/// Entry id of key establishment.
pub const SET_KEY_ENTRY: u16 = 0;

/// Entry id of inbound dispatch.
pub const HANDLE_INPUT_ENTRY: u16 = 1;

/// The operation that an entry id selects.
#[derive(Clone, Copy, Debug, PartialEq, Eq, Structural)]
pub enum Entrypoint {
    SetKey,
    HandleInput,
    Application(u16),
}

/// The operation that `id` selects, given the ids of the application's
/// own entrypoints; ids 0 and 1 are reserved for the core.
pub open spec fn spec_entrypoint(id: u16, app_entries: Seq<u16>) -> Option<Entrypoint> {
    if id == SET_KEY_ENTRY {
        Some(Entrypoint::SetKey)
    } else if id == HANDLE_INPUT_ENTRY {
        Some(Entrypoint::HandleInput)
    } else if app_entries.contains(id) {
        Some(Entrypoint::Application(id))
    } else {
        None
    }
}

/// A request routed to an operation, with the operation's payload.
pub struct Route {
    pub entry: Entrypoint,
    pub payload: Vec<u8>,
}

pub fn entrypoint_of(id: u16, app_entries: &Vec<u16>) -> (r: Option<Entrypoint>)
    ensures
        r == spec_entrypoint(id, app_entries@),
{
    if id == SET_KEY_ENTRY {
        return Some(Entrypoint::SetKey);
    }
    if id == HANDLE_INPUT_ENTRY {
        return Some(Entrypoint::HandleInput);
    }
    let mut i: usize = 0;
    while i < app_entries.len()
        invariant
            i <= app_entries.len(),
            id != SET_KEY_ENTRY && id != HANDLE_INPUT_ENTRY,
            forall|j: int| 0 <= j < i ==> app_entries@[j] != id,
        decreases app_entries.len() - i,
    {
        if app_entries[i] == id {
            assert(app_entries@[i as int] == id);
            return Some(Entrypoint::Application(id));
        }
        i = i + 1;
    }
    None
}

/// Routes a request `[entry_id:2][payload]`: a request shorter than two
/// bytes is an illegal payload, an entry id with no operation a bad request;
/// otherwise the operation and the rest of the request.
pub fn handle_entrypoint(data: &[u8], app_entries: &Vec<u16>) -> (r: Result<Route, ResultMessage>)
    ensures
        data@.len() < 2 ==> r is Err && r->Err_0.code == ResultCode::IllegalPayload
            && r->Err_0.data is None,
        data@.len() >= 2 ==> match spec_entrypoint(be16_of(data@) as u16, app_entries@) {
            None => r is Err && r->Err_0.code == ResultCode::BadRequest && r->Err_0.data is None,
            Some(e) => r is Ok && r->Ok_0.entry == e
                && r->Ok_0.payload@ == data@.subrange(2, data@.len() as int),
        },
{
    if data.len() < 2 {
        return Err(failure(ResultCode::IllegalPayload, None));
    }
    let id = data_to_u16(data);
    match entrypoint_of(id, app_entries) {
        Some(entry) => {
            let payload = slice_to_vec(slice_subrange(data, 2, data.len()));
            Ok(Route { entry, payload })
        },
        None => Err(failure(ResultCode::BadRequest, None)),
    }
}

} // verus!
