use vstd::prelude::*;
use vstd::pervasive::unreached;

use crate::error::ContractError;
use crate::msg::{ExecuteMsg, InstantiateMsg, QueryMsg};
use crate::response::Response;
use crate::state::{bumped_count, spec_increment, Addr, MessageInfo, State, Storage};

verus! {

/// The authorization rule of the raffle: entering one's own address is
/// always permitted; entering anyone else's is reserved for the owner.
pub open spec fn authorized(owner: Seq<char>, caller: Seq<char>, target: Seq<char>) -> bool {
    target == caller || caller == owner
}

/// The owner recorded in the store.
pub open spec fn stored_owner(storage: Storage) -> Seq<char>
    recommends
        storage.state is Some,
{
    storage.state->Some_0.owner@
}

/// What one authorization-gated upsert leaves behind: permission decides
/// between success with exactly the target's count bumped, and a
/// `WrongAddress` failure with the store untouched.
pub open spec fn upsert_outcome(
    before: Storage,
    after: Storage,
    caller: Seq<char>,
    target: Seq<char>,
    r: Result<Response, ContractError>,
) -> bool {
    let owner = stored_owner(before);
    &&& (r is Ok <==> authorized(owner, caller, target))
    &&& (authorized(owner, caller, target) ==> after.entries@ == before.entries@.insert(
        target,
        bumped_count(before.entries@, target),
    ))
    &&& (!authorized(owner, caller, target) ==> r == Err::<Response, ContractError>(
        ContractError::WrongAddress,
    ) && after == before)
}

/// Whether a call ended in the oracle rejecting the target address.
pub open spec fn is_validation_error(r: Result<Response, ContractError>) -> bool {
    r matches Err(e) && e is ValidationError
}

/// The increment-or-initialize transform an upsert applies to the count it
/// found: absent becomes 1, a present count goes up by one, saturating at
/// the one-byte maximum of 255.
pub fn increment_entry(num_entries: Option<u8>) -> (r: u8)
    ensures
        r == spec_increment(num_entries),
        r >= 1,
{
    match num_entries {
        Some(number) => if number == 255 {
            255
        } else {
            number + 1
        },
        None => 1,
    }
}

/// The oracle's verdict on a raw address string: whether
/// `MockApi::addr_validate` accepts it. The oracle is deterministic, a
/// function of its input alone, so the verdict carries a name; which
/// strings it accepts is not stated here.
pub uninterp spec fn oracle_accepts(s: Seq<char>) -> bool;

/// Relies on `cosmwasm_std::testing::MockApi::addr_validate`, the
/// address-validation oracle: on success it hands back `Addr::unchecked`
/// of the input, the string unchanged, and it rejects every input shorter
/// than three bytes, the empty string among them.
#[verifier::external_body]
fn validate_address(s: &str) -> (r: Option<Addr>)
    ensures
        r is Some <==> oracle_accepts(s@),
        r matches Some(a) ==> a@ == s@,
        s@.len() == 0 ==> r is None,
{
    let api = cosmwasm_std::testing::MockApi::default();
    match cosmwasm_std::Api::addr_validate(&api, s) {
        Ok(valid) => Some(Addr::unchecked(valid.into_string())),
        Err(_) => None,
    }
}

/// True exactly when `caller` may enter `target` under `owner`'s raffle.
pub fn enter_allowed(owner: &Addr, caller: &Addr, target: &Addr) -> (r: bool)
    ensures
        r == authorized(owner@, caller@, target@),
{
    target.same_as(caller) || caller.same_as(owner)
}

/// The authorization-gated state transition on an already-validated target:
/// checks the rule against the owner record, then atomically upserts the
/// ledger at the target.
pub fn enter_raffle(storage: &mut Storage, info: &MessageInfo, entry_address: Addr) -> (r:
    Result<Response, ContractError>)
    requires
        old(storage).wf(),
        old(storage).state is Some,
    ensures
        final(storage).wf(),
        final(storage).state == old(storage).state,
        upsert_outcome(*old(storage), *final(storage), info.sender@, entry_address@, r),
        r matches Ok(resp) ==> resp.messages@.len() == 0 && resp.attributes@.len() == 1
            && resp.attributes@[0].key@ == "method"@ && resp.attributes@[0].value@
            == "enter_raffle"@,
{
    let allowed = match &storage.state {
        Some(state) => enter_allowed(&state.owner, &info.sender, &entry_address),
        None => unreached(),
    };
    if !allowed {
        return Err(ContractError::WrongAddress);
    }
    storage.entries.upsert(entry_address);
    Ok(Response::new().add_attribute("method", "enter_raffle"))
}

/// Validates the raw target address through the host oracle, then runs the
/// authorization-gated upsert. The call ends in `ValidationError` exactly
/// when the oracle rejects the target, whoever the caller is, and then
/// mutates nothing; on an accepted target the call behaves as
/// `enter_raffle` on it, which the oracle hands back unchanged.
pub fn try_upsert_entry(storage: &mut Storage, info: MessageInfo, entering_address: String) -> (r:
    Result<Response, ContractError>)
    requires
        old(storage).wf(),
        old(storage).state is Some,
    ensures
        final(storage).wf(),
        final(storage).state == old(storage).state,
        is_validation_error(r) <==> !oracle_accepts(entering_address@),
        is_validation_error(r) ==> *final(storage) == *old(storage),
        !is_validation_error(r) ==> upsert_outcome(
            *old(storage),
            *final(storage),
            info.sender@,
            entering_address@,
            r,
        ),
        r matches Ok(resp) ==> resp.messages@.len() == 0 && resp.attributes@.len() == 1
            && resp.attributes@[0].key@ == "method"@ && resp.attributes@[0].value@
            == "enter_raffle"@,
        entering_address@.len() == 0 ==> is_validation_error(r),
{
    match validate_address(entering_address.as_str()) {
        None => Err(ContractError::ValidationError),
        Some(entry_address) => enter_raffle(storage, &info, entry_address),
    }
}

/// Dispatches an execute request.
pub fn execute(storage: &mut Storage, info: MessageInfo, msg: ExecuteMsg) -> (r: Result<
    Response,
    ContractError,
>)
    requires
        old(storage).wf(),
        old(storage).state is Some,
    ensures
        final(storage).wf(),
        final(storage).state == old(storage).state,
        is_validation_error(r) ==> *final(storage) == *old(storage),
        match msg {
            ExecuteMsg::EnterRaffle { entering_address } => {
                &&& is_validation_error(r) <==> !oracle_accepts(entering_address@)
                &&& !is_validation_error(r) ==> upsert_outcome(
                    *old(storage),
                    *final(storage),
                    info.sender@,
                    entering_address@,
                    r,
                )
                &&& r matches Ok(resp) ==> resp.messages@.len() == 0 && resp.attributes@.len()
                    == 1 && resp.attributes@[0].key@ == "method"@ && resp.attributes@[0].value@
                    == "enter_raffle"@
                &&& entering_address@.len() == 0 ==> is_validation_error(r)
            },
        },
{
    match msg {
        ExecuteMsg::EnterRaffle { entering_address } => try_upsert_entry(
            storage,
            info,
            entering_address,
        ),
    }
}

/// Creates the owner record from the caller the host transaction context
/// supplies; the ledger is left untouched. This is the one write the owner
/// record ever sees: the host guarantees initialization runs at most once.
pub fn instantiate(storage: &mut Storage, info: MessageInfo, _msg: InstantiateMsg) -> (r: Result<
    Response,
    ContractError,
>)
    requires
        old(storage).wf(),
    ensures
        final(storage).wf(),
        final(storage).state matches Some(state) && state.owner@ == info.sender@,
        final(storage).entries@ == old(storage).entries@,
        r matches Ok(resp) && resp.messages@.len() == 0 && resp.attributes@.len() == 2
            && resp.attributes@[0].key@ == "method"@ && resp.attributes@[0].value@
            == "instantiate"@ && resp.attributes@[1].key@ == "owner"@
            && resp.attributes@[1].value@ == info.sender@,
{
    let owner_text = info.sender.as_str().to_owned();
    storage.state = Some(State { owner: info.sender });
    Ok(
        Response::new().add_attribute("method", "instantiate").add_attribute(
            "owner",
            owner_text.as_str(),
        ),
    )
}

/// What a ledger read at `k` answers: the stored count, or `NotFound` for
/// an address that was never entered — never a count of zero.
pub open spec fn query_result(m: Map<Seq<char>, u8>, k: Seq<char>) -> Result<u8, ContractError> {
    if m.contains_key(k) {
        Ok(m[k])
    } else {
        Err(ContractError::NotFound)
    }
}

/// Pure read of the ledger at an already-validated address.
pub fn get_entries(storage: &Storage, entry_address: &Addr) -> (r: Result<u8, ContractError>)
    requires
        storage.wf(),
    ensures
        r == query_result(storage.entries@, entry_address@),
{
    match storage.entries.get(entry_address) {
        Some(count) => Ok(count),
        None => Err(ContractError::NotFound),
    }
}

/// Dispatches a query request.
pub fn query(storage: &Storage, msg: QueryMsg) -> (r: Result<u8, ContractError>)
    requires
        storage.wf(),
    ensures
        match msg {
            QueryMsg::GetEntries { entry_address } => r == query_result(
                storage.entries@,
                entry_address@,
            ),
        },
{
    match msg {
        QueryMsg::GetEntries { entry_address } => get_entries(storage, &entry_address),
    }
}

} // verus!
