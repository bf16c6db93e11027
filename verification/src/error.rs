use vstd::prelude::*;

verus! {

/// The errors a raffle call can end in.
///
/// `ValidationError` reports a malformed target address (the verdict of the
/// host's address oracle); `WrongAddress` reports an unauthorized delegated
/// entry; `NotFound` reports a query for an address with no ledger entry.
#[derive(Clone, Copy, Debug, PartialEq, Eq)]
pub enum ContractError {
    ValidationError,
    WrongAddress,
    NotFound,
}

} // verus!
