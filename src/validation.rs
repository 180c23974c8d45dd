use vstd::prelude::*;
use crate::merger::credit_of;
use crate::types::{same_bytes, AccountId, Balance, GenesisError, SessionKeys, VestingEntry};

verus! {

/// `who` has at least one entry with a positive balance.
pub open spec fn has_positive_entry(balances: Seq<(AccountId, Balance)>, who: AccountId) -> bool {
    exists|i: int| 0 <= i < balances.len() && #[trigger] balances[i] == (who, balances[i].1) && balances[i].1 > 0
}

/// Two validators' session keys share no key of any role.
pub open spec fn keys_disjoint(a: SessionKeys, b: SessionKeys) -> bool {
    a.aura != b.aura && a.grandpa != b.grandpa && a.im_online != b.im_online
}

/// No two validators of the session table share a key of any role.
pub open spec fn keys_unique(session: Seq<(AccountId, SessionKeys)>) -> bool {
    forall|i: int, j: int| 0 <= i < j < session.len() ==> keys_disjoint(#[trigger] session[i].1, #[trigger] session[j].1)
}

/// Every staker's stash differs from its controller.
pub open spec fn stash_controller_distinct(stakers: Seq<(AccountId, AccountId, Balance)>) -> bool {
    forall|k: int| 0 <= k < stakers.len() ==> (#[trigger] stakers[k]).0 != stakers[k].1
}

/// Staker `k` is the first whose stash is its controller.
pub open spec fn first_stash_is_controller(stakers: Seq<(AccountId, AccountId, Balance)>, k: int) -> bool {
    0 <= k < stakers.len() && stakers[k].0 == stakers[k].1 && stash_controller_distinct(stakers.take(k))
}

/// Validator `j` is the first that shares a key with an earlier one.
pub open spec fn first_shared_key(session: Seq<(AccountId, SessionKeys)>, j: int) -> bool {
    &&& 0 <= j < session.len()
    &&& keys_unique(session.take(j))
    &&& exists|i: int| 0 <= i < j && !keys_disjoint(#[trigger] session[i].1, session[j].1)
}

/// Every staker's stash and controller, and every account of the session
/// table, has a positive balance entry.
pub open spec fn validators_funded(
    balances: Seq<(AccountId, Balance)>,
    stakers: Seq<(AccountId, AccountId, Balance)>,
    session: Seq<(AccountId, SessionKeys)>,
) -> bool {
    &&& forall|k: int| 0 <= k < stakers.len() ==> has_positive_entry(balances, #[trigger] stakers[k].0)
    &&& forall|k: int| 0 <= k < stakers.len() ==> has_positive_entry(balances, #[trigger] stakers[k].1)
    &&& forall|k: int| 0 <= k < session.len() ==> has_positive_entry(balances, #[trigger] session[k].0)
}

/// No vesting schedule locks more than its account's effective balance.
pub open spec fn vesting_covered(balances: Seq<(AccountId, Balance)>, vesting: Seq<VestingEntry>) -> bool {
    forall|k: int| 0 <= k < vesting.len() ==> (#[trigger] vesting[k]).locked <= credit_of(balances, vesting[k].who)
}

/// Whether `who` has a positive balance entry.
pub fn find_positive_entry(balances: &Vec<(AccountId, Balance)>, who: &AccountId) -> (r: bool)
    ensures
        r == has_positive_entry(balances@, *who),
{
    let mut i: usize = 0;
    while i < balances.len()
        invariant
            0 <= i <= balances@.len(),
            forall|k: int| 0 <= k < i ==> !(#[trigger] balances@[k] == (*who, balances@[k].1) && balances@[k].1 > 0),
        decreases balances@.len() - i,
    {
        if balances[i].1 > 0 && same_bytes(&balances[i].0.bytes, &who.bytes) {
            assert(balances@[i as int] == (*who, balances@[i as int].1));
            return true;
        }
        i = i + 1;
    }
    false
}

/// The effective balance of `who`, saturated at the largest balance.
pub fn credit_saturating(balances: &Vec<(AccountId, Balance)>, who: &AccountId) -> (r: Balance)
    ensures
        r as int == if credit_of(balances@, *who) > u128::MAX { u128::MAX as int } else { credit_of(balances@, *who) },
{
    let mut acc: Balance = 0;
    let mut i: usize = 0;
    while i < balances.len()
        invariant
            0 <= i <= balances@.len(),
            acc as int == if credit_of(balances@.take(i as int), *who) > u128::MAX {
                u128::MAX as int
            } else {
                credit_of(balances@.take(i as int), *who)
            },
            credit_of(balances@.take(i as int), *who) >= 0,
        decreases balances@.len() - i,
    {
        proof {
            let t = balances@.take(i as int + 1);
            assert(t.drop_last() =~= balances@.take(i as int));
            assert(t.last() == balances@[i as int]);
        }
        if same_bytes(&balances[i].0.bytes, &who.bytes) {
            assert(balances@[i as int].0 == *who);
            acc = acc.saturating_add(balances[i].1);
        }
        i = i + 1;
    }
    assert(balances@.take(i as int) =~= balances@);
    acc
}

/// Checks that no two validators share a key of any role; the error names
/// the first validator that shares one with an earlier validator.
pub fn check_keys_unique(session: &Vec<(AccountId, SessionKeys)>) -> (r: Result<(), GenesisError>)
    ensures
        r is Ok <==> keys_unique(session@),
        r matches Err(e) ==> e matches GenesisError::DuplicateAuthorityKey { validator } && first_shared_key(
            session@,
            validator as int,
        ),
{
    let mut j: usize = 0;
    while j < session.len()
        invariant
            0 <= j <= session@.len(),
            forall|a: int, b: int| 0 <= a < b < j ==> keys_disjoint(#[trigger] session@[a].1, #[trigger] session@[b].1),
        decreases session@.len() - j,
    {
        let mut i: usize = 0;
        while i < j
            invariant
                0 <= i <= j < session@.len(),
                forall|a: int| 0 <= a < i ==> keys_disjoint(#[trigger] session@[a].1, session@[j as int].1),
                forall|a: int, b: int| 0 <= a < b < j ==> keys_disjoint(#[trigger] session@[a].1, #[trigger] session@[b].1),
            decreases j - i,
        {
            let a = &session[i].1;
            let b = &session[j].1;
            if same_bytes(&a.aura.bytes, &b.aura.bytes) || same_bytes(&a.grandpa.bytes, &b.grandpa.bytes)
                || same_bytes(&a.im_online.bytes, &b.im_online.bytes) {
                assert(!keys_disjoint(session@[i as int].1, session@[j as int].1));
                assert forall|a: int, b: int| 0 <= a < b < session@.take(j as int).len() implies keys_disjoint(
                    #[trigger] session@.take(j as int)[a].1,
                    #[trigger] session@.take(j as int)[b].1,
                ) by {
                    assert(session@.take(j as int)[a] == session@[a]);
                    assert(session@.take(j as int)[b] == session@[b]);
                }
                return Err(GenesisError::DuplicateAuthorityKey { validator: j });
            }
            i = i + 1;
        }
        j = j + 1;
    }
    Ok(())
}

/// Checks that no staker's stash is its controller; the error names the first
/// that is.
pub fn check_stash_controller(stakers: &Vec<(AccountId, AccountId, Balance)>) -> (r: Result<(), GenesisError>)
    ensures
        r is Ok <==> stash_controller_distinct(stakers@),
        r matches Err(e) ==> e matches GenesisError::StashIsController { validator } && first_stash_is_controller(
            stakers@,
            validator as int,
        ),
{
    let mut k: usize = 0;
    while k < stakers.len()
        invariant
            0 <= k <= stakers@.len(),
            stash_controller_distinct(stakers@.take(k as int)),
        decreases stakers@.len() - k,
    {
        if same_bytes(&stakers[k].0.bytes, &stakers[k].1.bytes) {
            assert(stakers@[k as int].0 == stakers@[k as int].1);
            return Err(GenesisError::StashIsController { validator: k });
        }
        assert(stakers@.take(k as int + 1) =~= stakers@.take(k as int).push(stakers@[k as int]));
        k = k + 1;
    }
    assert(stakers@.take(k as int) =~= stakers@);
    Ok(())
}

/// Checks that every validator account is funded; the error names the first
/// staker, or failing that the first session entry, without a positive balance
/// entry.
pub fn check_validators_funded(
    balances: &Vec<(AccountId, Balance)>,
    stakers: &Vec<(AccountId, AccountId, Balance)>,
    session: &Vec<(AccountId, SessionKeys)>,
) -> (r: Result<(), GenesisError>)
    ensures
        r is Ok <==> validators_funded(balances@, stakers@, session@),
        r matches Err(e) ==> e matches GenesisError::UnfundedValidator { validator } && (
            (validator < stakers@.len() && !(has_positive_entry(balances@, stakers@[validator as int].0)
                && has_positive_entry(balances@, stakers@[validator as int].1)))
            || (validator < session@.len() && !has_positive_entry(balances@, session@[validator as int].0))),
{
    let mut k: usize = 0;
    while k < stakers.len()
        invariant
            0 <= k <= stakers@.len(),
            forall|a: int| 0 <= a < k ==> has_positive_entry(balances@, #[trigger] stakers@[a].0),
            forall|a: int| 0 <= a < k ==> has_positive_entry(balances@, #[trigger] stakers@[a].1),
        decreases stakers@.len() - k,
    {
        if !find_positive_entry(balances, &stakers[k].0) || !find_positive_entry(balances, &stakers[k].1) {
            return Err(GenesisError::UnfundedValidator { validator: k });
        }
        k = k + 1;
    }
    let mut k: usize = 0;
    while k < session.len()
        invariant
            0 <= k <= session@.len(),
            forall|a: int| 0 <= a < stakers@.len() ==> has_positive_entry(balances@, #[trigger] stakers@[a].0),
            forall|a: int| 0 <= a < stakers@.len() ==> has_positive_entry(balances@, #[trigger] stakers@[a].1),
            forall|a: int| 0 <= a < k ==> has_positive_entry(balances@, #[trigger] session@[a].0),
        decreases session@.len() - k,
    {
        if !find_positive_entry(balances, &session[k].0) {
            return Err(GenesisError::UnfundedValidator { validator: k });
        }
        k = k + 1;
    }
    Ok(())
}

/// Checks that no vesting schedule locks more than its account is credited;
/// the error names the first schedule that does.
pub fn check_vesting_covered(balances: &Vec<(AccountId, Balance)>, vesting: &Vec<VestingEntry>) -> (r: Result<(), GenesisError>)
    ensures
        r is Ok <==> vesting_covered(balances@, vesting@),
        r matches Err(e) ==> e matches GenesisError::VestingExceedsBalance { record } && record < vesting@.len()
            && vesting@[record as int].locked > credit_of(balances@, vesting@[record as int].who),
{
    let mut k: usize = 0;
    while k < vesting.len()
        invariant
            0 <= k <= vesting@.len(),
            forall|a: int| 0 <= a < k ==> (#[trigger] vesting@[a]).locked <= credit_of(balances@, vesting@[a].who),
        decreases vesting@.len() - k,
    {
        let credit = credit_saturating(balances, &vesting[k].who);
        if vesting[k].locked > credit {
            return Err(GenesisError::VestingExceedsBalance { record: k });
        }
        k = k + 1;
    }
    Ok(())
}

} // verus!

verus! {

/// At most one staker is the first whose stash is its controller.
pub proof fn lemma_first_stash_is_controller_unique(stakers: Seq<(AccountId, AccountId, Balance)>, k1: int, k2: int)
    requires
        first_stash_is_controller(stakers, k1),
        first_stash_is_controller(stakers, k2),
    ensures
        k1 == k2,
{
    if k1 < k2 {
        assert(stakers.take(k2)[k1] == stakers[k1]);
    } else if k2 < k1 {
        assert(stakers.take(k1)[k2] == stakers[k2]);
    }
}

/// At most one validator is the first that shares a key with an earlier one.
pub proof fn lemma_first_shared_key_unique(session: Seq<(AccountId, SessionKeys)>, j1: int, j2: int)
    requires
        first_shared_key(session, j1),
        first_shared_key(session, j2),
    ensures
        j1 == j2,
{
    if j1 < j2 {
        let i = choose|i: int| 0 <= i < j1 && !keys_disjoint(#[trigger] session[i].1, session[j1].1);
        assert(session.take(j2)[i] == session[i]);
        assert(session.take(j2)[j1] == session[j1]);
    } else if j2 < j1 {
        let i = choose|i: int| 0 <= i < j2 && !keys_disjoint(#[trigger] session[i].1, session[j2].1);
        assert(session.take(j1)[i] == session[i]);
        assert(session.take(j1)[j2] == session[j2]);
    }
}

} // verus!

verus! {

/// Every account of `refs` is in `index`.
pub open spec fn covered(index: Seq<AccountId>, refs: Seq<AccountId>) -> bool {
    forall|i: int| 0 <= i < refs.len() ==> index.contains(#[trigger] refs[i])
}

/// Account `k` of `refs` is the first missing from `index`.
pub open spec fn first_uncovered(index: Seq<AccountId>, refs: Seq<AccountId>, k: int) -> bool {
    0 <= k < refs.len() && !index.contains(refs[k]) && covered(index, refs.take(k))
}

/// At most one account is the first missing from an index.
pub proof fn lemma_first_uncovered_unique(index: Seq<AccountId>, refs: Seq<AccountId>, k1: int, k2: int)
    requires
        first_uncovered(index, refs, k1),
        first_uncovered(index, refs, k2),
    ensures
        k1 == k2,
{
    if k1 < k2 {
        assert(refs.take(k2)[k1] == refs[k1]);
    } else if k2 < k1 {
        assert(refs.take(k1)[k2] == refs[k2]);
    }
}

/// Whether `who` is in `index`.
pub fn index_contains(index: &Vec<AccountId>, who: &AccountId) -> (r: bool)
    ensures
        r == index@.contains(*who),
{
    let mut i: usize = 0;
    while i < index.len()
        invariant
            0 <= i <= index@.len(),
            forall|k: int| 0 <= k < i ==> index@[k] != *who,
        decreases index@.len() - i,
    {
        if same_bytes(&index[i].bytes, &who.bytes) {
            assert(index@[i as int] == *who);
            return true;
        }
        i = i + 1;
    }
    false
}

/// Checks that every account of `refs` is in `index`; the error names the
/// first that is not.
pub fn check_covered(index: &Vec<AccountId>, refs: &Vec<AccountId>) -> (r: Result<(), GenesisError>)
    ensures
        r is Ok <==> covered(index@, refs@),
        r matches Err(e) ==> exists|k: int| #[trigger] first_uncovered(index@, refs@, k)
            && e == (GenesisError::UnindexedAccount { account: refs@[k] }),
{
    let mut k: usize = 0;
    while k < refs.len()
        invariant
            0 <= k <= refs@.len(),
            covered(index@, refs@.take(k as int)),
        decreases refs@.len() - k,
    {
        if !index_contains(index, &refs[k]) {
            assert(first_uncovered(index@, refs@, k as int));
            return Err(GenesisError::UnindexedAccount { account: refs[k] });
        }
        assert(refs@.take(k as int + 1) =~= refs@.take(k as int).push(refs@[k as int]));
        k = k + 1;
    }
    assert(refs@.take(k as int) =~= refs@);
    Ok(())
}

} // verus!
