use counter::contract::{
    enter_allowed, enter_raffle, execute, get_entries, increment_entry, instantiate, query,
    try_upsert_entry,
};
use counter::msg::{ExecuteMsg, InstantiateMsg, QueryMsg};
use counter::state::{Addr, Entries, MessageInfo, Storage};
use counter::ContractError;

fn addr(s: &str) -> Addr {
    Addr::unchecked(s.to_string())
}

fn info(sender: &str) -> MessageInfo {
    MessageInfo { sender: addr(sender) }
}

fn initialized(owner: &str) -> Storage {
    let mut storage = Storage::new();
    instantiate(&mut storage, info(owner), InstantiateMsg {}).unwrap();
    storage
}

fn count_of(storage: &Storage, who: &str) -> Result<u8, ContractError> {
    query(storage, QueryMsg::GetEntries { entry_address: addr(who) })
}

#[test]
fn proper_initialization_and_enter_raffle() {
    let mut deps = Storage::new();

    let msg = InstantiateMsg {};
    let res = instantiate(&mut deps, info("creator"), msg).unwrap();
    assert_eq!(0, res.messages.len());

    // user can submit their own address
    let msg = ExecuteMsg::EnterRaffle { entering_address: "creator".to_string() };
    let _res = execute(&mut deps, info("creator"), msg);

    let res = query(&deps, QueryMsg::GetEntries { entry_address: addr("creator") }).unwrap();
    let value: u8 = res;
    assert_eq!(1, value);

    // user cannot submit another person's address
    let msg = ExecuteMsg::EnterRaffle { entering_address: "creator".to_string() };
    let res = execute(&mut deps, info("not creator"), msg);
    match res.unwrap_err() {
        ContractError::WrongAddress => assert_eq!(true, true),
        e => panic!("Unexpected error: {:?}", e),
    }

    // admin can submit another person's address
    let msg = ExecuteMsg::EnterRaffle { entering_address: "not creator".to_string() };
    let _res = execute(&mut deps, info("creator"), msg);

    let res = query(&deps, QueryMsg::GetEntries { entry_address: addr("not creator") }).unwrap();
    let value: u8 = res;
    assert_eq!(1, value);
}

#[test]
fn instantiate_records_owner_and_attributes() {
    let mut storage = Storage::new();
    let res = instantiate(&mut storage, info("creator"), InstantiateMsg {}).unwrap();
    assert_eq!(res.attributes.len(), 2);
    assert_eq!(res.attributes[0].key, "method");
    assert_eq!(res.attributes[0].value, "instantiate");
    assert_eq!(res.attributes[1].key, "owner");
    assert_eq!(res.attributes[1].value, "creator");
    assert!(storage.state.is_some());
}

#[test]
fn self_entry_always_succeeds() {
    // the caller is not the owner, yet may enter itself
    let mut storage = initialized("creator");
    let res = try_upsert_entry(&mut storage, info("alice"), "alice".to_string()).unwrap();
    assert_eq!(res.attributes.len(), 1);
    assert_eq!(res.attributes[0].key, "method");
    assert_eq!(res.attributes[0].value, "enter_raffle");
    assert_eq!(count_of(&storage, "alice"), Ok(1));

    // and again: the count goes up by exactly one
    try_upsert_entry(&mut storage, info("alice"), "alice".to_string()).unwrap();
    assert_eq!(count_of(&storage, "alice"), Ok(2));
}

#[test]
fn delegated_entry_requires_ownership() {
    let mut storage = initialized("creator");
    let res = try_upsert_entry(&mut storage, info("alice"), "bobby".to_string());
    assert_eq!(res.unwrap_err(), ContractError::WrongAddress);
    // the target's ledger entry is unchanged: still absent
    assert_eq!(count_of(&storage, "bobby"), Err(ContractError::NotFound));
}

#[test]
fn owner_may_enter_on_behalf_of_anyone() {
    let mut storage = initialized("creator");
    assert!(try_upsert_entry(&mut storage, info("creator"), "bobby".to_string()).is_ok());
    assert_eq!(count_of(&storage, "bobby"), Ok(1));
    assert!(try_upsert_entry(&mut storage, info("creator"), "carol".to_string()).is_ok());
    assert_eq!(count_of(&storage, "carol"), Ok(1));
}

#[test]
fn repeated_entries_count_up_from_one() {
    let mut storage = initialized("creator");
    for expected in 1..=5u8 {
        try_upsert_entry(&mut storage, info("alice"), "alice".to_string()).unwrap();
        assert_eq!(count_of(&storage, "alice"), Ok(expected));
    }
}

#[test]
fn count_saturates_at_the_one_byte_maximum() {
    let mut storage = initialized("creator");
    for _ in 0..255 {
        try_upsert_entry(&mut storage, info("alice"), "alice".to_string()).unwrap();
    }
    assert_eq!(count_of(&storage, "alice"), Ok(255));
    try_upsert_entry(&mut storage, info("alice"), "alice".to_string()).unwrap();
    assert_eq!(count_of(&storage, "alice"), Ok(255));
}

#[test]
fn absent_is_not_found_never_zero() {
    let storage = initialized("creator");
    assert_eq!(count_of(&storage, "nobody"), Err(ContractError::NotFound));
}

#[test]
fn validation_precedes_authorization() {
    // the empty string is no well-formed address, even for the owner
    let mut storage = initialized("creator");
    let res = try_upsert_entry(&mut storage, info("creator"), "".to_string());
    assert_eq!(res.unwrap_err(), ContractError::ValidationError);
    assert_eq!(count_of(&storage, "creator"), Err(ContractError::NotFound));

    // the mock oracle also rejects addresses shorter than three bytes
    let res = try_upsert_entry(&mut storage, info("creator"), "ab".to_string());
    assert_eq!(res.unwrap_err(), ContractError::ValidationError);
}

#[test]
fn end_to_end_scenario() {
    let mut storage = initialized("creator");

    assert!(try_upsert_entry(&mut storage, info("creator"), "creator".to_string()).is_ok());
    assert_eq!(count_of(&storage, "creator"), Ok(1));

    let res = try_upsert_entry(&mut storage, info("not_creator"), "creator".to_string());
    assert_eq!(res.unwrap_err(), ContractError::WrongAddress);
    assert_eq!(count_of(&storage, "creator"), Ok(1));

    assert!(try_upsert_entry(&mut storage, info("creator"), "not_creator".to_string()).is_ok());
    assert_eq!(count_of(&storage, "not_creator"), Ok(1));
}

#[test]
fn increment_entry_exact_values() {
    assert_eq!(increment_entry(None), 1);
    assert_eq!(increment_entry(Some(1)), 2);
    assert_eq!(increment_entry(Some(41)), 42);
    assert_eq!(increment_entry(Some(254)), 255);
    assert_eq!(increment_entry(Some(255)), 255);
}

#[test]
fn enter_allowed_matches_the_rule() {
    assert!(enter_allowed(&addr("owner"), &addr("alice"), &addr("alice")));
    assert!(enter_allowed(&addr("owner"), &addr("owner"), &addr("alice")));
    assert!(enter_allowed(&addr("owner"), &addr("owner"), &addr("owner")));
    assert!(!enter_allowed(&addr("owner"), &addr("alice"), &addr("bobby")));
}

#[test]
fn ledger_upsert_and_get() {
    let mut entries = Entries::new();
    assert_eq!(entries.get(&addr("alice")), None);
    entries.upsert(addr("alice"));
    assert_eq!(entries.get(&addr("alice")), Some(1));
    entries.upsert(addr("alice"));
    entries.upsert(addr("bobby"));
    assert_eq!(entries.get(&addr("alice")), Some(2));
    assert_eq!(entries.get(&addr("bobby")), Some(1));
    assert_eq!(entries.get(&addr("carol")), None);
}

#[test]
fn enter_raffle_skips_no_validation_for_typed_addresses() {
    // a pre-validated target reaches the ledger directly
    let mut storage = initialized("creator");
    let res = enter_raffle(&mut storage, &info("alice"), addr("alice"));
    assert!(res.is_ok());
    assert_eq!(get_entries(&storage, &addr("alice")), Ok(1));
}
