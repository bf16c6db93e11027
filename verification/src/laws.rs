use vstd::prelude::*;

use crate::contract::{authorized, query_result};
use crate::error::ContractError;
use crate::state::{bumped_count, Entries};

verus! {

/// The count the ledger answers for `k`: the stored value, or 0 where no
/// record exists.
pub open spec fn entry_count(m: Map<Seq<char>, u8>, k: Seq<char>) -> int {
    if m.contains_key(k) {
        m[k] as int
    } else {
        0
    }
}

/// The ledger after one successful entry for `target`.
pub open spec fn ledger_after_entry(m: Map<Seq<char>, u8>, target: Seq<char>) -> Map<
    Seq<char>,
    u8,
> {
    m.insert(target, bumped_count(m, target))
}

/// Self-entry always succeeds: entering one's own address is authorized
/// whoever the owner is, and, below the one-byte cap of 255, raises the
/// caller's count by exactly one.
pub proof fn law_self_entry(owner: Seq<char>, a: Seq<char>, m: Map<Seq<char>, u8>)
    requires
        entry_count(m, a) < 255,
    ensures
        authorized(owner, a, a),
        entry_count(ledger_after_entry(m, a), a) == entry_count(m, a) + 1,
{
}

/// Delegated entry requires ownership: a caller that is neither the target
/// nor the owner is not authorized, so by `upsert_outcome` its call fails
/// with `WrongAddress` and leaves the target's ledger entry unchanged.
pub proof fn law_delegated_entry_requires_ownership(
    owner: Seq<char>,
    caller: Seq<char>,
    target: Seq<char>,
)
    requires
        caller != target,
        caller != owner,
    ensures
        !authorized(owner, caller, target),
{
}

/// The owner may enter on behalf of anyone: a call by the owner is
/// authorized whatever the target.
pub proof fn law_owner_enters_any(owner: Seq<char>, target: Seq<char>)
    ensures
        authorized(owner, owner, target),
{
}

/// The ledger after `n` successful entries for `target`.
pub open spec fn ledger_after_entries(m: Map<Seq<char>, u8>, target: Seq<char>, n: nat) -> Map<
    Seq<char>,
    u8,
>
    decreases n,
{
    if n == 0 {
        m
    } else {
        ledger_after_entry(ledger_after_entries(m, target, (n - 1) as nat), target)
    }
}

/// Counting repeats, the call's effect does not collapse: `n` successful
/// entries for a target with no prior record leave a stored count of
/// exactly `n` — the first creates count 1, not 0. Beyond 255, the
/// one-byte maximum, the count saturates instead; hence the bound.
pub proof fn law_repeated_entries_count(m: Map<Seq<char>, u8>, target: Seq<char>, n: nat)
    requires
        !m.contains_key(target),
        n <= 255,
    ensures
        n > 0 ==> ledger_after_entries(m, target, n).contains_key(target),
        entry_count(ledger_after_entries(m, target, n), target) == n,
    decreases n,
{
    if n > 0 {
        law_repeated_entries_count(m, target, (n - 1) as nat);
    }
}

/// Absent versus zero: a query for an address with no record answers
/// `NotFound`, never a count of 0; one for a recorded address answers its
/// stored count, which in a well-formed ledger is at least 1.
pub proof fn law_absent_vs_zero(entries: &Entries, k: Seq<char>)
    requires
        entries.wf(),
    ensures
        !entries@.contains_key(k) ==> query_result(entries@, k) == Err::<u8, ContractError>(
            ContractError::NotFound,
        ),
        entries@.contains_key(k) ==> (query_result(entries@, k) matches Ok(c) && c >= 1),
{
    entries.lemma_counts_at_least_one();
}

} // verus!
