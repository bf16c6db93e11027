use vstd::prelude::*;

use crate::state::Addr;

verus! {

/// The initialization request. It carries no fields: the caller identity
/// comes out-of-band from the host transaction context.
pub struct InstantiateMsg {}

/// An execute request.
pub enum ExecuteMsg {
    EnterRaffle { entering_address: String },
}

/// A read-only query request. The address is already typed: validation is
/// assumed to have happened before this layer, at decode time.
pub enum QueryMsg {
    GetEntries { entry_address: Addr },
}

/// The payload answering `QueryMsg::GetEntries`.
pub struct EntriesResponse {
    pub entries: u8,
}

} // verus!
