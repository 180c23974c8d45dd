use vstd::prelude::*;
use vstd::string::*;
use crate::keys::{hard_junctions, account_of_seed, authority_keys_of_seed, get_account_id_from_seed, get_authority_keys_from_seed};
use crate::loader::{allocation_decoded, get_lockdrop_participants_allocation, RawAllocation, TESTNET_DEFAULT_BALANCE};
use crate::merger::{accounts_of, credit_of, account_index, flatten, merge_balances, source_views};
use crate::types::{
    AccountId, AuthorityKeys, Balance, BlockNumber, GenesisError, SessionKeys, ValidatorRecord, VestingEntry,
    DAYS, DOLLARS, MILLICENTS,
};
use crate::validation::{
    check_covered, covered, first_uncovered, check_stash_controller, first_shared_key, first_stash_is_controller, stash_controller_distinct,
    check_keys_unique, check_validators_funded, check_vesting_covered, has_positive_entry, keys_unique,
    validators_funded, vesting_covered,
};

verus! {

/// What each development account is credited.
pub const ENDOWMENT: Balance = 10_000_000 * DOLLARS;

/// What each development validator bonds of its endowment.
pub const ENDOWMENT_STAKED: Balance = 9_000_000 * DOLLARS;

/// What a public validator keeps unbonded of its stake.
pub const UNBONDED_RESERVE: Balance = 10 * DOLLARS;

/// The block at which the development council's terms end.
pub const DEV_COUNCIL_TERM_END: BlockNumber = 1_000_000;

/// The block at which the public council's terms end.
pub const PUBLIC_COUNCIL_TERM_END: BlockNumber = 6 * 28 * DAYS;

/// The network a genesis state is built for.
#[derive(Clone, Copy, Debug, PartialEq, Eq)]
pub enum NetworkProfile {
    Development,
    LocalTestnet,
    PublicTestnet,
    PublicMainnet,
}

/// The fixed data of a public network: its validators, its foundation
/// allocation and its privileged accounts.
pub struct NetworkFixtures {
    /// Validators whose stash is credited with their stake.
    pub validators: Vec<ValidatorRecord>,
    /// Validators of the lockdrop, funded by the lockdrop allocation alone
    /// (main network only).
    pub lockdrop_validators: Vec<ValidatorRecord>,
    /// The foundation's allocation.
    pub allocation: Vec<(AccountId, Balance)>,
    /// What each validator's controller is credited.
    pub controller_endowment: Balance,
    pub root_key: AccountId,
    pub identity_verifiers: Vec<AccountId>,
    pub election_members: Vec<AccountId>,
    /// Addresses of the nodes that new nodes first connect to.
    pub boot_nodes: Vec<String>,
}

/// Initial state of the staking module.
pub struct StakingConfig {
    pub validator_count: u32,
    pub minimum_validator_count: u32,
    /// `(stash, controller, bonded balance)`, each a validator.
    pub stakers: Vec<(AccountId, AccountId, Balance)>,
    pub invulnerables: Vec<AccountId>,
    pub slash_reward_percent: u32,
}

/// Initial state of the council elections.
pub struct ElectionsConfig {
    /// `(member, block at which its term ends)`.
    pub members: Vec<(AccountId, BlockNumber)>,
    pub desired_seats: u32,
    pub presentation_duration: BlockNumber,
    pub term_duration: BlockNumber,
}

/// Initial state of the identity module.
pub struct IdentityConfig {
    pub verifiers: Vec<AccountId>,
    pub expiration_length: BlockNumber,
    pub registration_bond: Balance,
}

/// Initial state of the signaling module.
pub struct SignalingConfig {
    pub voting_length: BlockNumber,
    pub proposal_creation_bond: Balance,
}

/// Initial state of the treasury reward module.
pub struct TreasuryRewardConfig {
    pub current_payout: Balance,
    pub minting_interval: BlockNumber,
}

/// The ledger's state at block zero.
pub struct GenesisSnapshot {
    /// Credits; an account named more than once gets their sum.
    pub balances: Vec<(AccountId, Balance)>,
    pub vesting: Vec<VestingEntry>,
    /// Accounts registered in the account index.
    pub indices: Vec<AccountId>,
    /// `(stash, session keys)` of each validator.
    pub session_keys: Vec<(AccountId, SessionKeys)>,
    pub staking: StakingConfig,
    pub council_members: Vec<AccountId>,
    pub elections: ElectionsConfig,
    pub contracts_gas_price: Balance,
    pub sudo_key: AccountId,
    pub identity: IdentityConfig,
    pub signaling: SignalingConfig,
    pub treasury_reward: TreasuryRewardConfig,
}

pub open spec fn stashes(auths: Seq<AuthorityKeys>) -> Seq<AccountId> {
    auths.map_values(|k: AuthorityKeys| k.stash)
}

pub open spec fn controllers(auths: Seq<AuthorityKeys>) -> Seq<AccountId> {
    auths.map_values(|k: AuthorityKeys| k.controller)
}

/// Each account credited with `amount`.
pub open spec fn endowed(accounts: Seq<AccountId>, amount: Balance) -> Seq<(AccountId, Balance)> {
    accounts.map_values(|a: AccountId| (a, amount))
}

/// The session table: each validator's stash with its keys.
pub open spec fn session_table(auths: Seq<AuthorityKeys>) -> Seq<(AccountId, SessionKeys)> {
    auths.map_values(|k: AuthorityKeys| (k.stash, k.keys))
}

/// Each validator bonding `bonded`.
pub open spec fn bonded_stakers(auths: Seq<AuthorityKeys>, bonded: Balance) -> Seq<(AccountId, AccountId, Balance)> {
    auths.map_values(|k: AuthorityKeys| (k.stash, k.controller, bonded))
}

/// Each member with the block at which its term ends.
pub open spec fn term_members(members: Seq<AccountId>, end: BlockNumber) -> Seq<(AccountId, BlockNumber)> {
    members.map_values(|a: AccountId| (a, end))
}

/// All the tables of a snapshot hold the invariants of a genesis state: every
/// validator funded, no stash its own controller, no authority key shared, no
/// vesting beyond its credit.
pub open spec fn tables_valid(
    balances: Seq<(AccountId, Balance)>,
    stakers: Seq<(AccountId, AccountId, Balance)>,
    session: Seq<(AccountId, SessionKeys)>,
    vesting: Seq<VestingEntry>,
) -> bool {
    &&& validators_funded(balances, stakers, session)
    &&& stash_controller_distinct(stakers)
    &&& keys_unique(session)
    &&& vesting_covered(balances, vesting)
}

pub open spec fn snapshot_valid(s: GenesisSnapshot) -> bool {
    tables_valid(s.balances@, s.staking.stakers@, s.session_keys@, s.vesting@)
}

/// The accounts that a genesis state names outside its balances table, in
/// this order: the root account, the identity verifiers, the council, the
/// elected members, the invulnerable validators and the vesting accounts.
pub open spec fn refs_of(
    root_key: AccountId,
    verifiers: Seq<AccountId>,
    council: Seq<AccountId>,
    members: Seq<(AccountId, BlockNumber)>,
    invulnerables: Seq<AccountId>,
    vesting: Seq<VestingEntry>,
) -> Seq<AccountId> {
    seq![root_key] + verifiers + council + members.map_values(|m: (AccountId, BlockNumber)| m.0) + invulnerables
        + vesting.map_values(|v: VestingEntry| v.who)
}

/// The accounts that a snapshot names outside its balances table.
pub open spec fn referenced_accounts(s: GenesisSnapshot) -> Seq<AccountId> {
    refs_of(
        s.sudo_key,
        s.identity.verifiers@,
        s.council_members@,
        s.elections.members@,
        s.staking.invulnerables@,
        s.vesting@,
    )
}

/// The account index holds every account that the snapshot names anywhere.
pub open spec fn index_covers(s: GenesisSnapshot) -> bool {
    let ix = s.indices@;
    &&& forall|i: int| 0 <= i < s.balances@.len() ==> ix.contains(#[trigger] s.balances@[i].0)
    &&& forall|i: int| 0 <= i < s.vesting@.len() ==> ix.contains(#[trigger] s.vesting@[i].who)
    &&& forall|i: int| 0 <= i < s.session_keys@.len() ==> ix.contains(#[trigger] s.session_keys@[i].0)
    &&& forall|i: int| 0 <= i < s.staking.stakers@.len() ==> ix.contains(#[trigger] s.staking.stakers@[i].0)
    &&& forall|i: int| 0 <= i < s.staking.stakers@.len() ==> ix.contains(#[trigger] s.staking.stakers@[i].1)
    &&& forall|i: int| 0 <= i < s.staking.invulnerables@.len() ==> ix.contains(#[trigger] s.staking.invulnerables@[i])
    &&& forall|i: int| 0 <= i < s.council_members@.len() ==> ix.contains(#[trigger] s.council_members@[i])
    &&& forall|i: int| 0 <= i < s.elections.members@.len() ==> ix.contains(#[trigger] s.elections.members@[i].0)
    &&& forall|i: int| 0 <= i < s.identity.verifiers@.len() ==> ix.contains(#[trigger] s.identity.verifiers@[i])
    &&& ix.contains(s.sudo_key)
}

proof fn lemma_concat_contains(a: Seq<AccountId>, b: Seq<AccountId>)
    ensures
        forall|i: int| 0 <= i < a.len() ==> (a + b).contains(#[trigger] a[i]),
        forall|i: int| 0 <= i < b.len() ==> (a + b).contains(#[trigger] b[i]),
{
    assert forall|i: int| 0 <= i < a.len() implies (a + b).contains(#[trigger] a[i]) by {
        assert((a + b)[i] == a[i]);
    }
    assert forall|i: int| 0 <= i < b.len() implies (a + b).contains(#[trigger] b[i]) by {
        assert((a + b)[a.len() + i] == b[i]);
    }
}

proof fn lemma_contains_grows(a: Seq<AccountId>, b: Seq<AccountId>, x: AccountId)
    requires
        a.contains(x),
    ensures
        (a + b).contains(x),
{
    let i = choose|i: int| 0 <= i < a.len() && a[i] == x;
    assert((a + b)[i] == x);
}

/// An index of the balances' accounts that holds every other account the
/// snapshot names covers the snapshot, once every validator is funded.
pub proof fn lemma_index_covers(s: GenesisSnapshot)
    requires
        s.indices@ == accounts_of(s.balances@),
        covered(s.indices@, referenced_accounts(s)),
        validators_funded(s.balances@, s.staking.stakers@, s.session_keys@),
    ensures
        index_covers(s),
{
    let ab = accounts_of(s.balances@);
    let r1 = seq![s.sudo_key];
    let r2 = s.identity.verifiers@;
    let r3 = s.council_members@;
    let r4 = s.elections.members@.map_values(|m: (AccountId, BlockNumber)| m.0);
    let r5 = s.staking.invulnerables@;
    let r6 = s.vesting@.map_values(|v: VestingEntry| v.who);
    let refs = referenced_accounts(s);
    assert(refs == r1 + r2 + r3 + r4 + r5 + r6);
    let ix = s.indices@;
    assert forall|x: AccountId| refs.contains(x) implies ix.contains(x) by {
        let i = choose|i: int| 0 <= i < refs.len() && refs[i] == x;
        assert(ix.contains(refs[i]));
    }
    assert forall|x: AccountId| (r1 + r2 + r3 + r4 + r5).contains(x) implies ix.contains(x) by {
        lemma_contains_grows(r1 + r2 + r3 + r4 + r5, r6, x);
    }
    assert forall|x: AccountId| (r1 + r2 + r3 + r4).contains(x) implies ix.contains(x) by {
        lemma_contains_grows(r1 + r2 + r3 + r4, r5, x);
    }
    assert forall|x: AccountId| (r1 + r2 + r3).contains(x) implies ix.contains(x) by {
        lemma_contains_grows(r1 + r2 + r3, r4, x);
    }
    assert forall|x: AccountId| (r1 + r2).contains(x) implies ix.contains(x) by {
        lemma_contains_grows(r1 + r2, r3, x);
    }
    assert forall|x: AccountId| r1.contains(x) implies ix.contains(x) by {
        lemma_contains_grows(r1, r2, x);
    }
    lemma_concat_contains(r1, r2);
    lemma_concat_contains(r1 + r2, r3);
    lemma_concat_contains(r1 + r2 + r3, r4);
    lemma_concat_contains(r1 + r2 + r3 + r4, r5);
    lemma_concat_contains(r1 + r2 + r3 + r4 + r5, r6);
    assert(r1[0] == s.sudo_key);
    assert forall|i: int| 0 <= i < s.elections.members@.len() implies ix.contains(#[trigger] s.elections.members@[i].0) by {
        assert(r4[i] == s.elections.members@[i].0);
    }
    assert forall|i: int| 0 <= i < s.vesting@.len() implies ix.contains(#[trigger] s.vesting@[i].who) by {
        assert(r6[i] == s.vesting@[i].who);
    }
    assert forall|i: int| 0 <= i < s.balances@.len() implies ix.contains(#[trigger] s.balances@[i].0) by {
        assert(ab[i] == s.balances@[i].0);
    }
    assert forall|who: AccountId| has_positive_entry(s.balances@, who) implies ix.contains(who) by {
        let i = choose|i: int| 0 <= i < s.balances@.len() && #[trigger] s.balances@[i] == (who, s.balances@[i].1)
            && s.balances@[i].1 > 0;
        assert(ab[i] == who);
    }
}

fn member_accounts(members: &Vec<(AccountId, BlockNumber)>) -> (r: Vec<AccountId>)
    ensures
        r@ == members@.map_values(|m: (AccountId, BlockNumber)| m.0),
{
    let mut r: Vec<AccountId> = Vec::new();
    let mut i: usize = 0;
    while i < members.len()
        invariant
            0 <= i <= members@.len(),
            r@ == members@.take(i as int).map_values(|m: (AccountId, BlockNumber)| m.0),
        decreases members@.len() - i,
    {
        r.push(members[i].0);
        assert(members@.take(i as int + 1).map_values(|m: (AccountId, BlockNumber)| m.0) =~= members@.take(
            i as int,
        ).map_values(|m: (AccountId, BlockNumber)| m.0).push(members@[i as int].0));
        i = i + 1;
    }
    assert(members@.take(i as int) =~= members@);
    r
}

fn vesting_accounts(vesting: &Vec<VestingEntry>) -> (r: Vec<AccountId>)
    ensures
        r@ == vesting@.map_values(|v: VestingEntry| v.who),
{
    let mut r: Vec<AccountId> = Vec::new();
    let mut i: usize = 0;
    while i < vesting.len()
        invariant
            0 <= i <= vesting@.len(),
            r@ == vesting@.take(i as int).map_values(|v: VestingEntry| v.who),
        decreases vesting@.len() - i,
    {
        r.push(vesting[i].who);
        assert(vesting@.take(i as int + 1).map_values(|v: VestingEntry| v.who) =~= vesting@.take(i as int).map_values(
            |v: VestingEntry| v.who,
        ).push(vesting@[i as int].who));
        i = i + 1;
    }
    assert(vesting@.take(i as int) =~= vesting@);
    r
}

/// The accounts that a snapshot names outside its balances table.
pub fn referenced_list(s: &GenesisSnapshot) -> (r: Vec<AccountId>)
    ensures
        r@ == referenced_accounts(*s),
{
    let mut refs = vec![s.sudo_key];
    let mut part = copy_vec(&s.identity.verifiers);
    refs.append(&mut part);
    let mut part = copy_vec(&s.council_members);
    refs.append(&mut part);
    let mut part = member_accounts(&s.elections.members);
    refs.append(&mut part);
    let mut part = copy_vec(&s.staking.invulnerables);
    refs.append(&mut part);
    let mut part = vesting_accounts(&s.vesting);
    refs.append(&mut part);
    refs
}

/// Checks the invariants of a genesis state.
pub fn check_snapshot(s: &GenesisSnapshot) -> (r: Result<(), GenesisError>)
    ensures
        r is Ok <==> snapshot_valid(*s),
        r matches Err(e) ==> (e is DuplicateAuthorityKey || e is UnfundedValidator || e is VestingExceedsBalance
            || e is StashIsController),
{
    check_validators_funded(&s.balances, &s.staking.stakers, &s.session_keys)?;
    check_stash_controller(&s.staking.stakers)?;
    check_keys_unique(&s.session_keys)?;
    check_vesting_covered(&s.balances, &s.vesting)?;
    Ok(())
}

fn stash_list(auths: &Vec<AuthorityKeys>) -> (r: Vec<AccountId>)
    ensures
        r@ == stashes(auths@),
{
    let mut r: Vec<AccountId> = Vec::new();
    let mut i: usize = 0;
    while i < auths.len()
        invariant
            0 <= i <= auths@.len(),
            r@ == stashes(auths@.take(i as int)),
        decreases auths@.len() - i,
    {
        r.push(auths[i].stash);
        assert(stashes(auths@.take(i as int + 1)) =~= stashes(auths@.take(i as int)).push(auths@[i as int].stash));
        i = i + 1;
    }
    assert(auths@.take(i as int) =~= auths@);
    r
}

fn controller_list(auths: &Vec<AuthorityKeys>) -> (r: Vec<AccountId>)
    ensures
        r@ == controllers(auths@),
{
    let mut r: Vec<AccountId> = Vec::new();
    let mut i: usize = 0;
    while i < auths.len()
        invariant
            0 <= i <= auths@.len(),
            r@ == controllers(auths@.take(i as int)),
        decreases auths@.len() - i,
    {
        r.push(auths[i].controller);
        assert(controllers(auths@.take(i as int + 1)) =~= controllers(auths@.take(i as int)).push(auths@[i as int].controller));
        i = i + 1;
    }
    assert(auths@.take(i as int) =~= auths@);
    r
}

fn endow(accounts: &Vec<AccountId>, amount: Balance) -> (r: Vec<(AccountId, Balance)>)
    ensures
        r@ == endowed(accounts@, amount),
{
    let mut r: Vec<(AccountId, Balance)> = Vec::new();
    let mut i: usize = 0;
    while i < accounts.len()
        invariant
            0 <= i <= accounts@.len(),
            r@ == endowed(accounts@.take(i as int), amount),
        decreases accounts@.len() - i,
    {
        r.push((accounts[i], amount));
        assert(endowed(accounts@.take(i as int + 1), amount) =~= endowed(accounts@.take(i as int), amount).push((accounts@[i as int], amount)));
        i = i + 1;
    }
    assert(accounts@.take(i as int) =~= accounts@);
    r
}

fn session_list(auths: &Vec<AuthorityKeys>) -> (r: Vec<(AccountId, SessionKeys)>)
    ensures
        r@ == session_table(auths@),
{
    let mut r: Vec<(AccountId, SessionKeys)> = Vec::new();
    let mut i: usize = 0;
    while i < auths.len()
        invariant
            0 <= i <= auths@.len(),
            r@ == session_table(auths@.take(i as int)),
        decreases auths@.len() - i,
    {
        r.push((auths[i].stash, auths[i].keys));
        assert(session_table(auths@.take(i as int + 1)) =~= session_table(auths@.take(i as int)).push((auths@[i as int].stash, auths@[i as int].keys)));
        i = i + 1;
    }
    assert(auths@.take(i as int) =~= auths@);
    r
}

fn bonded_staker_list(auths: &Vec<AuthorityKeys>, bonded: Balance) -> (r: Vec<(AccountId, AccountId, Balance)>)
    ensures
        r@ == bonded_stakers(auths@, bonded),
{
    let mut r: Vec<(AccountId, AccountId, Balance)> = Vec::new();
    let mut i: usize = 0;
    while i < auths.len()
        invariant
            0 <= i <= auths@.len(),
            r@ == bonded_stakers(auths@.take(i as int), bonded),
        decreases auths@.len() - i,
    {
        r.push((auths[i].stash, auths[i].controller, bonded));
        assert(bonded_stakers(auths@.take(i as int + 1), bonded) =~= bonded_stakers(auths@.take(i as int), bonded).push(
            (auths@[i as int].stash, auths@[i as int].controller, bonded),
        ));
        i = i + 1;
    }
    assert(auths@.take(i as int) =~= auths@);
    r
}

fn term_member_list(members: &Vec<AccountId>, end: BlockNumber) -> (r: Vec<(AccountId, BlockNumber)>)
    ensures
        r@ == term_members(members@, end),
{
    let mut r: Vec<(AccountId, BlockNumber)> = Vec::new();
    let mut i: usize = 0;
    while i < members.len()
        invariant
            0 <= i <= members@.len(),
            r@ == term_members(members@.take(i as int), end),
        decreases members@.len() - i,
    {
        r.push((members[i], end));
        assert(term_members(members@.take(i as int + 1), end) =~= term_members(members@.take(i as int), end).push((members@[i as int], end)));
        i = i + 1;
    }
    assert(members@.take(i as int) =~= members@);
    r
}

fn copy_vec<T: Copy>(items: &Vec<T>) -> (r: Vec<T>)
    ensures
        r@ == items@,
{
    let mut r: Vec<T> = Vec::new();
    let mut i: usize = 0;
    while i < items.len()
        invariant
            0 <= i <= items@.len(),
            r@ == items@.take(i as int),
        decreases items@.len() - i,
    {
        r.push(items[i]);
        assert(items@.take(i as int + 1) =~= items@.take(i as int).push(items@[i as int]));
        i = i + 1;
    }
    assert(items@.take(i as int) =~= items@);
    r
}

} // verus!

verus! {

/// The sources of a development network's balances: the extra accounts, the
/// validators' stashes and their controllers, each credited `ENDOWMENT`.
pub open spec fn dev_balance_sources(auths: Seq<AuthorityKeys>, extras: Seq<AccountId>) -> Seq<Seq<(AccountId, Balance)>> {
    seq![endowed(extras, ENDOWMENT), endowed(stashes(auths), ENDOWMENT), endowed(controllers(auths), ENDOWMENT)]
}

/// A number of development validators that the elections can seat.
pub open spec fn dev_authorities_ok(n: nat) -> bool {
    0 < n && n + 2 <= u32::MAX
}

/// `s` is the development genesis state of validators `auths`, with root
/// account `root_key`, the endowed `extras` and the identity verifier
/// `verifier`.
pub open spec fn dev_snapshot(
    auths: Seq<AuthorityKeys>,
    root_key: AccountId,
    extras: Seq<AccountId>,
    verifier: AccountId,
    s: GenesisSnapshot,
) -> bool {
    &&& s.balances@ == flatten(dev_balance_sources(auths, extras))
    &&& s.vesting@.len() == 0
    &&& s.indices@ == accounts_of(s.balances@)
    &&& s.session_keys@ == session_table(auths)
    &&& s.staking.validator_count == 7
    &&& s.staking.minimum_validator_count == 4
    &&& s.staking.stakers@ == bonded_stakers(auths, ENDOWMENT_STAKED)
    &&& s.staking.invulnerables@ == stashes(auths)
    &&& s.staking.slash_reward_percent == 10
    &&& s.council_members@ == controllers(auths)
    &&& s.elections.members@ == term_members(controllers(auths), DEV_COUNCIL_TERM_END)
    &&& s.elections.desired_seats == auths.len() + 2
    &&& s.elections.presentation_duration == DAYS
    &&& s.elections.term_duration == 28 * DAYS
    &&& s.contracts_gas_price == MILLICENTS
    &&& s.sudo_key == root_key
    &&& s.identity.verifiers@ == seq![verifier]
    &&& s.identity.expiration_length == DAYS
    &&& s.identity.registration_bond == DOLLARS
    &&& s.signaling.voting_length == 3 * DAYS
    &&& s.signaling.proposal_creation_bond == 100 * DOLLARS
    &&& s.treasury_reward.current_payout == 158 * DOLLARS
    &&& s.treasury_reward.minting_interval == 1
}

/// The conditions on the validators under which a development network can be
/// built: a number that the elections can seat, no stash its own controller
/// and no authority key shared.
pub open spec fn dev_conditions(auths: Seq<AuthorityKeys>) -> bool {
    &&& dev_authorities_ok(auths.len())
    &&& stash_controller_distinct(bonded_stakers(auths, ENDOWMENT_STAKED))
    &&& keys_unique(session_table(auths))
}

/// The account index of a development network.
pub open spec fn dev_index(auths: Seq<AuthorityKeys>, extras: Seq<AccountId>) -> Seq<AccountId> {
    accounts_of(flatten(dev_balance_sources(auths, extras)))
}

/// The accounts a development network names outside its balances table.
pub open spec fn dev_refs(auths: Seq<AuthorityKeys>, root_key: AccountId, verifier: AccountId) -> Seq<AccountId> {
    refs_of(
        root_key,
        seq![verifier],
        controllers(auths),
        term_members(controllers(auths), DEV_COUNCIL_TERM_END),
        stashes(auths),
        Seq::empty(),
    )
}

/// The account index of a development network holds every account it names.
pub open spec fn dev_indexed(auths: Seq<AuthorityKeys>, root_key: AccountId, extras: Seq<AccountId>, verifier: AccountId) -> bool {
    covered(dev_index(auths, extras), dev_refs(auths, root_key, verifier))
}

/// The error a development network fails with: the validator count first, then
/// the first validator whose stash is its controller, then the first that
/// shares a key, then the first named account missing from the index.
pub open spec fn dev_error(
    auths: Seq<AuthorityKeys>,
    root_key: AccountId,
    extras: Seq<AccountId>,
    verifier: AccountId,
    e: GenesisError,
) -> bool {
    if !dev_authorities_ok(auths.len()) {
        e == GenesisError::ConfigurationError
    } else if !stash_controller_distinct(bonded_stakers(auths, ENDOWMENT_STAKED)) {
        e matches GenesisError::StashIsController { validator } && first_stash_is_controller(
            bonded_stakers(auths, ENDOWMENT_STAKED),
            validator as int,
        )
    } else if !keys_unique(session_table(auths)) {
        e matches GenesisError::DuplicateAuthorityKey { validator } && first_shared_key(
            session_table(auths),
            validator as int,
        )
    } else {
        exists|k: int| #[trigger] first_uncovered(dev_index(auths, extras), dev_refs(auths, root_key, verifier), k)
            && e == (GenesisError::UnindexedAccount { account: dev_refs(auths, root_key, verifier)[k] })
    }
}

/// The outcome of building a development network from these inputs.
pub open spec fn dev_built(
    auths: Seq<AuthorityKeys>,
    root_key: AccountId,
    extras: Seq<AccountId>,
    verifier: AccountId,
    r: Result<GenesisSnapshot, GenesisError>,
) -> bool {
    &&& r is Ok <==> dev_conditions(auths) && dev_indexed(auths, root_key, extras, verifier)
    &&& r matches Ok(s) ==> dev_snapshot(auths, root_key, extras, verifier, s) && snapshot_valid(s) && index_covers(s)
    &&& r matches Err(e) ==> dev_error(auths, root_key, extras, verifier, e)
}

/// Builds the genesis state of a development network from its validators,
/// its root account, the extra accounts to endow and the identity verifier.
/// Every validator and extra account gets `ENDOWMENT`; every validator bonds
/// `ENDOWMENT_STAKED` and cannot be removed by the staking module.
#[verifier::rlimit(60)]
pub fn build_development_snapshot(
    initial_authorities: &Vec<AuthorityKeys>,
    root_key: AccountId,
    extra_accounts: &Vec<AccountId>,
    verifier: AccountId,
) -> (r: Result<GenesisSnapshot, GenesisError>)
    ensures
        dev_built(initial_authorities@, root_key, extra_accounts@, verifier, r),
{
    let ghost auths = initial_authorities@;
    let n = initial_authorities.len();
    if n == 0 || n > (u32::MAX - 2) as usize {
        return Err(GenesisError::ConfigurationError);
    }
    let stash = stash_list(initial_authorities);
    let controller = controller_list(initial_authorities);
    let stakers = bonded_staker_list(initial_authorities, ENDOWMENT_STAKED);
    match check_stash_controller(&stakers) {
        Ok(()) => {},
        Err(e) => {
            assert(dev_error(auths, root_key, extra_accounts@, verifier, e));
            return Err(e);
        },
    }
    let session_keys = session_list(initial_authorities);
    match check_keys_unique(&session_keys) {
        Ok(()) => {},
        Err(e) => {
            assert(dev_error(auths, root_key, extra_accounts@, verifier, e));
            return Err(e);
        },
    }
    let sources = vec![endow(extra_accounts, ENDOWMENT), endow(&stash, ENDOWMENT), endow(&controller, ENDOWMENT)];
    assert(source_views(sources@) =~= dev_balance_sources(auths, extra_accounts@));
    let balances = merge_balances(&sources);
    let indices = account_index(&balances);
    let snapshot = GenesisSnapshot {
        balances,
        vesting: Vec::new(),
        indices,
        session_keys,
        staking: StakingConfig {
            validator_count: 7,
            minimum_validator_count: 4,
            stakers,
            invulnerables: stash,
            slash_reward_percent: 10,
        },
        council_members: copy_vec(&controller),
        elections: ElectionsConfig {
            members: term_member_list(&controller, DEV_COUNCIL_TERM_END),
            desired_seats: n as u32 + 2,
            presentation_duration: DAYS,
            term_duration: 28 * DAYS,
        },
        contracts_gas_price: MILLICENTS,
        sudo_key: root_key,
        identity: IdentityConfig { verifiers: vec![verifier], expiration_length: DAYS, registration_bond: DOLLARS },
        signaling: SignalingConfig { voting_length: 3 * DAYS, proposal_creation_bond: 100 * DOLLARS },
        treasury_reward: TreasuryRewardConfig { current_payout: 158 * DOLLARS, minting_interval: 1 },
    };
    assert(snapshot.balances@ == flatten(dev_balance_sources(auths, extra_accounts@)));
    assert(snapshot.identity.verifiers@ == seq![verifier]);
    assert(snapshot.elections.desired_seats == auths.len() + 2);
    assert(snapshot.vesting@ =~= Seq::<VestingEntry>::empty());
    assert(snapshot.indices@ == dev_index(auths, extra_accounts@));
    assert(referenced_accounts(snapshot) == dev_refs(auths, root_key, verifier));
    let refs = referenced_list(&snapshot);
    match check_covered(&snapshot.indices, &refs) {
        Ok(()) => {},
        Err(e) => {
            assert(dev_error(auths, root_key, extra_accounts@, verifier, e));
            return Err(e);
        },
    }
    proof {
        let e = endowed(extra_accounts@, ENDOWMENT);
        let st = endowed(stashes(auths), ENDOWMENT);
        let c = endowed(controllers(auths), ENDOWMENT);
        crate::merger::lemma_flatten_three(e, st, c);
        let b = snapshot.balances@;
        assert(b == e + st + c);
        assert forall|k: int| 0 <= k < auths.len() implies has_positive_entry(b, auths[k].stash)
            && has_positive_entry(b, auths[k].controller) by {
            assert(b[e.len() + k] == (auths[k].stash, ENDOWMENT));
            assert(b[e.len() + st.len() + k] == (auths[k].controller, ENDOWMENT));
        }
        let stakers = snapshot.staking.stakers@;
        assert forall|k: int| 0 <= k < stakers.len() implies has_positive_entry(b, #[trigger] stakers[k].0) by {
            assert(stakers[k].0 == auths[k].stash);
        }
        assert forall|k: int| 0 <= k < stakers.len() implies has_positive_entry(b, #[trigger] stakers[k].1) by {
            assert(stakers[k].1 == auths[k].controller);
        }
        let session = snapshot.session_keys@;
        assert forall|k: int| 0 <= k < session.len() implies has_positive_entry(b, #[trigger] session[k].0) by {
            assert(session[k].0 == auths[k].stash);
        }
        lemma_index_covers(snapshot);
    }
    assert(dev_snapshot(auths, root_key, extra_accounts@, verifier, snapshot));
    assert(snapshot_valid(snapshot));
    Ok(snapshot)
}

/// Validators' own accounts are always in a development network's index, so
/// when the root account is a validator's stash and the verifier a validator's
/// controller, the index holds every account the network names.
pub proof fn lemma_dev_indexed(
    auths: Seq<AuthorityKeys>,
    extras: Seq<AccountId>,
    root: int,
    verifier: int,
)
    requires
        0 <= root < auths.len(),
        0 <= verifier < auths.len(),
    ensures
        dev_indexed(auths, auths[root].stash, extras, auths[verifier].controller),
{
    let e = endowed(extras, ENDOWMENT);
    let st = endowed(stashes(auths), ENDOWMENT);
    let c = endowed(controllers(auths), ENDOWMENT);
    crate::merger::lemma_flatten_three(e, st, c);
    let b = e + st + c;
    let ix = dev_index(auths, extras);
    assert(ix == accounts_of(b));
    assert forall|k: int| 0 <= k < auths.len() implies ix.contains(#[trigger] auths[k].stash) by {
        assert(ix[e.len() + k] == auths[k].stash);
    }
    assert forall|k: int| 0 <= k < auths.len() implies ix.contains(#[trigger] auths[k].controller) by {
        assert(ix[e.len() + st.len() + k] == auths[k].controller);
    }
    let r1 = seq![auths[root].stash];
    let r2 = seq![auths[verifier].controller];
    let r3 = controllers(auths);
    let r4 = term_members(controllers(auths), DEV_COUNCIL_TERM_END).map_values(|m: (AccountId, BlockNumber)| m.0);
    let r5 = stashes(auths);
    let r6 = Seq::<VestingEntry>::empty().map_values(|v: VestingEntry| v.who);
    let refs = dev_refs(auths, auths[root].stash, auths[verifier].controller);
    assert(refs == r1 + r2 + r3 + r4 + r5 + r6);
    assert(r6.len() == 0);
    let n2 = 2int;
    let n3 = n2 + auths.len();
    let n4 = n3 + auths.len();
    assert forall|i: int| 0 <= i < refs.len() implies ix.contains(#[trigger] refs[i]) by {
        if i == 0 {
            assert(refs[i] == r1[0]);
        } else if i < n2 {
            assert(refs[i] == r2[0]);
        } else if i < n3 {
            assert(refs[i] == r3[i - n2]);
            assert(r3[i - n2] == auths[i - n2].controller);
        } else if i < n4 {
            assert(refs[i] == r4[i - n3]);
            assert(r4[i - n3] == auths[i - n3].controller);
        } else {
            assert(refs[i] == r5[i - n4]);
            assert(r5[i - n4] == auths[i - n4].stash);
        }
    }
}

/// The network's protocol identifier.
pub const DEFAULT_PROTOCOL_ID: &'static str = "edg";

/// Display metadata of the native token; no part of the ledger's state.
pub struct ChainProperties {
    pub token_decimals: u32,
    pub token_symbol: String,
}

/// Additional chain specification parameters for the node's core modules.
pub struct Extensions {
    /// Block numbers with known hashes, if any are pinned.
    pub fork_blocks: Option<Vec<(BlockNumber, [u8; 32])>>,
}

/// A network's specification: its names, how to reach it, and its genesis state.
pub struct ChainSpec {
    pub name: String,
    pub id: String,
    pub boot_nodes: Vec<String>,
    pub telemetry_url: Option<String>,
    pub protocol_id: String,
    pub properties: Option<ChainProperties>,
    pub extensions: Extensions,
    pub genesis: GenesisSnapshot,
}

/// The seeds of the extra accounts endowed on development networks.
pub open spec fn dev_extra_seeds() -> Seq<Seq<char>> {
    seq!["Aaron"@, "Abigail"@, "Adam"@, "Alan"@, "Albert"@, "Alex"@]
}

/// The extra accounts of development networks: the account of each extra seed.
pub open spec fn dev_extras() -> Seq<AccountId> {
    Seq::new(6, |i: int| choose|a: AccountId| account_of_seed(dev_extra_seeds()[i], a))
}

/// The identity verifier of development networks: the account of seed `Alice`.
pub open spec fn dev_verifier() -> AccountId {
    choose|a: AccountId| account_of_seed("Alice"@, a)
}

/// The outcome of building a development network with validators `auths` and
/// root account `root_key`.
pub open spec fn dev_outcome(auths: Seq<AuthorityKeys>, root_key: AccountId, r: Result<GenesisSnapshot, GenesisError>) -> bool {
    dev_built(auths, root_key, dev_extras(), dev_verifier(), r)
}

/// Builds the genesis state of a development network with these validators
/// and this root account.
pub fn development_genesis_config(
    initial_authorities: &Vec<AuthorityKeys>,
    root_key: AccountId,
) -> (r: Result<GenesisSnapshot, GenesisError>)
    ensures
        dev_outcome(initial_authorities@, root_key, r),
{
    proof {
        reveal_strlit("Aaron");
        reveal_strlit("Abigail");
        reveal_strlit("Adam");
        reveal_strlit("Alan");
        reveal_strlit("Albert");
        reveal_strlit("Alex");
        reveal_strlit("Alice");
        assert(hard_junctions("Aaron"@));
        assert(hard_junctions("Abigail"@));
        assert(hard_junctions("Adam"@));
        assert(hard_junctions("Alan"@));
        assert(hard_junctions("Albert"@));
        assert(hard_junctions("Alex"@));
        assert(hard_junctions("Alice"@));
    }
    let mut extras: Vec<AccountId> = Vec::new();
    extras.push(get_account_id_from_seed("Aaron")?);
    extras.push(get_account_id_from_seed("Abigail")?);
    extras.push(get_account_id_from_seed("Adam")?);
    extras.push(get_account_id_from_seed("Alan")?);
    extras.push(get_account_id_from_seed("Albert")?);
    extras.push(get_account_id_from_seed("Alex")?);
    let verifier = get_account_id_from_seed("Alice")?;
    proof {
        assert forall|i: int| 0 <= i < 6 implies extras@[i] == dev_extras()[i] by {
            assert(account_of_seed(dev_extra_seeds()[i], extras@[i]));
            crate::keys::lemma_account_of_seed_unique(dev_extra_seeds()[i], extras@[i], dev_extras()[i]);
        }
        assert(extras@ =~= dev_extras());
        crate::keys::lemma_account_of_seed_unique("Alice"@, verifier, dev_verifier());
    }
    build_development_snapshot(initial_authorities, root_key, &extras, verifier)
}

/// The outcome of building the development chain `name` (identifier `id`)
/// with validators `auths`, the first of which holds the root account.
pub open spec fn dev_chain(
    name: Seq<char>,
    id: Seq<char>,
    auths: Seq<AuthorityKeys>,
    r: Result<ChainSpec, GenesisError>,
) -> bool {
    &&& r is Ok <==> dev_conditions(auths)
    &&& r matches Ok(c) ==> {
        &&& c.name@ == name
        &&& c.id@ == id
        &&& c.protocol_id@ == DEFAULT_PROTOCOL_ID@
        &&& c.boot_nodes@.len() == 0
        &&& c.telemetry_url is None
        &&& c.properties is None
        &&& c.extensions.fork_blocks is None
        &&& dev_snapshot(auths, auths[0].stash, dev_extras(), dev_verifier(), c.genesis)
        &&& snapshot_valid(c.genesis)
        &&& index_covers(c.genesis)
    }
    &&& r matches Err(e) ==> dev_error(auths, auths[0].stash, dev_extras(), dev_verifier(), e)
}

/// The development network: one validator, `Alice`, whose stash is root. It
/// fails only if the stash seed and the seed derive the same account.
pub fn development_chainspec() -> (r: Result<ChainSpec, GenesisError>)
    ensures
        exists|k: AuthorityKeys| #[trigger] authority_keys_of_seed("Alice"@, k) && dev_chain("Development"@, "dev"@, seq![k], r),
{
    proof {
        reveal_strlit("Alice");
        assert(hard_junctions("Alice"@));
    }
    let alice = match get_authority_keys_from_seed("Alice") {
        Ok(k) => k,
        Err(e) => return Err(e),
    };
    let authorities = vec![alice];
    assert(authorities@ == seq![alice]);
    proof {
        crate::keys::lemma_account_of_seed_unique("Alice"@, alice.controller, dev_verifier());
        lemma_dev_indexed(seq![alice], dev_extras(), 0, 0);
    }
    let r = match development_genesis_config(&authorities, alice.stash) {
        Ok(genesis) => Ok(ChainSpec {
            name: String::from_str("Development"),
            id: String::from_str("dev"),
            boot_nodes: Vec::new(),
            telemetry_url: None,
            protocol_id: String::from_str(DEFAULT_PROTOCOL_ID),
            properties: None,
            extensions: Extensions { fork_blocks: None },
            genesis,
        }),
        Err(e) => Err(e),
    };
    assert(dev_chain("Development"@, "dev"@, seq![alice], r));
    r
}

/// The local test network: validators `Alice` and `Bob`; `Alice`'s stash is
/// root. It fails only if a stash and its controller coincide or the two share
/// a key.
pub fn local_testnet_chainspec() -> (r: Result<ChainSpec, GenesisError>)
    ensures
        exists|a: AuthorityKeys, b: AuthorityKeys| #[trigger] authority_keys_of_seed("Alice"@, a)
            && #[trigger] authority_keys_of_seed("Bob"@, b) && dev_chain("Local Testnet"@, "local_testnet"@, seq![a, b], r),
        r is Ok || r matches Err(GenesisError::DuplicateAuthorityKey { .. }) || r matches Err(
            GenesisError::StashIsController { .. },
        ),
{
    proof {
        reveal_strlit("Alice");
        reveal_strlit("Bob");
        assert(hard_junctions("Alice"@));
        assert(hard_junctions("Bob"@));
    }
    let alice = match get_authority_keys_from_seed("Alice") {
        Ok(k) => k,
        Err(e) => return Err(e),
    };
    let bob = match get_authority_keys_from_seed("Bob") {
        Ok(k) => k,
        Err(e) => return Err(e),
    };
    let authorities = vec![alice, bob];
    assert(authorities@ == seq![alice, bob]);
    proof {
        crate::keys::lemma_account_of_seed_unique("Alice"@, alice.controller, dev_verifier());
        lemma_dev_indexed(seq![alice, bob], dev_extras(), 0, 0);
    }
    let r = match development_genesis_config(&authorities, alice.stash) {
        Ok(genesis) => Ok(ChainSpec {
            name: String::from_str("Local Testnet"),
            id: String::from_str("local_testnet"),
            boot_nodes: Vec::new(),
            telemetry_url: None,
            protocol_id: String::from_str(DEFAULT_PROTOCOL_ID),
            properties: None,
            extensions: Extensions { fork_blocks: None },
            genesis,
        }),
        Err(e) => Err(e),
    };
    assert(dev_chain("Local Testnet"@, "local_testnet"@, seq![alice, bob], r));
    r
}

} // verus!

verus! {

/// The identities of each validator.
pub open spec fn identities(vs: Seq<ValidatorRecord>) -> Seq<AuthorityKeys> {
    vs.map_values(|v: ValidatorRecord| AuthorityKeys { stash: v.stash, controller: v.controller, keys: v.keys })
}

/// Each validator's stash credited with its stake.
pub open spec fn stake_credits(vs: Seq<ValidatorRecord>) -> Seq<(AccountId, Balance)> {
    vs.map_values(|v: ValidatorRecord| (v.stash, v.stake))
}

/// Every validator's stake covers the balance it keeps unbonded.
pub open spec fn stakes_cover_reserve(vs: Seq<ValidatorRecord>) -> bool {
    forall|i: int| 0 <= i < vs.len() ==> (#[trigger] vs[i]).stake >= UNBONDED_RESERVE
}

/// Each validator bonding its stake less `UNBONDED_RESERVE`.
pub open spec fn reserved_stakers(vs: Seq<ValidatorRecord>) -> Seq<(AccountId, AccountId, Balance)> {
    vs.map_values(|v: ValidatorRecord| (v.stash, v.controller, (v.stake - UNBONDED_RESERVE) as u128))
}

/// The validators of a public network: the lockdrop validators join on the
/// main network only.
pub open spec fn public_validators(is_mainnet: bool, f: NetworkFixtures) -> Seq<ValidatorRecord> {
    if is_mainnet {
        f.validators@ + f.lockdrop_validators@
    } else {
        f.validators@
    }
}

/// The sources of a public network's balances: the foundation allocation,
/// the stakes of the validators, their controllers' endowments and the
/// lockdrop participants' balances.
pub open spec fn public_balance_sources(f: NetworkFixtures, lockdrop: Seq<(AccountId, Balance)>) -> Seq<Seq<(AccountId, Balance)>> {
    seq![
        f.allocation@,
        stake_credits(f.validators@),
        endowed(controllers(identities(f.validators@)), f.controller_endowment),
        lockdrop,
    ]
}

/// `s` is the genesis state of a public network with fixtures `f`, lockdrop
/// balances `lockdrop` and lockdrop vesting schedules `vesting`.
pub open spec fn public_snapshot(
    is_mainnet: bool,
    f: NetworkFixtures,
    lockdrop: Seq<(AccountId, Balance)>,
    vesting: Seq<VestingEntry>,
    s: GenesisSnapshot,
) -> bool {
    let vs = public_validators(is_mainnet, f);
    &&& s.balances@ == flatten(public_balance_sources(f, lockdrop))
    &&& s.vesting@ == vesting
    &&& s.indices@ == accounts_of(s.balances@)
    &&& s.session_keys@ == session_table(identities(vs))
    &&& s.staking.validator_count == 60
    &&& s.staking.minimum_validator_count == 0
    &&& s.staking.stakers@ == reserved_stakers(vs)
    &&& s.staking.invulnerables@.len() == 0
    &&& s.staking.slash_reward_percent == 0
    &&& s.council_members@ == f.election_members@
    &&& s.elections.members@ == term_members(f.election_members@, PUBLIC_COUNCIL_TERM_END)
    &&& s.elections.desired_seats == if is_mainnet { 11u32 } else { 4u32 }
    &&& s.elections.presentation_duration == if is_mainnet { 3 * DAYS as int } else { DAYS as int }
    &&& s.elections.term_duration == if is_mainnet { 180 * DAYS as int } else { 30 * DAYS as int }
    &&& s.contracts_gas_price == MILLICENTS
    &&& s.sudo_key == f.root_key
    &&& s.identity.verifiers@ == f.identity_verifiers@
    &&& s.identity.expiration_length == 7 * DAYS
    &&& s.identity.registration_bond == DOLLARS
    &&& s.signaling.voting_length == 14 * DAYS
    &&& s.signaling.proposal_creation_bond == 100 * DOLLARS
    &&& s.treasury_reward.current_payout == 95 * DOLLARS
    &&& s.treasury_reward.minting_interval == 1
}

/// The accounts a public network names outside its balances table.
pub open spec fn public_refs(f: NetworkFixtures, vesting: Seq<VestingEntry>) -> Seq<AccountId> {
    refs_of(
        f.root_key,
        f.identity_verifiers@,
        f.election_members@,
        term_members(f.election_members@, PUBLIC_COUNCIL_TERM_END),
        Seq::empty(),
        vesting,
    )
}

/// The outcome of building a public network's genesis state: it succeeds
/// exactly when every stake covers the unbonded reserve, the tables hold the
/// invariants of a genesis state and the account index holds every account the
/// state names, and then it is the public snapshot.
pub open spec fn public_built(
    is_mainnet: bool,
    f: NetworkFixtures,
    lockdrop: Seq<(AccountId, Balance)>,
    vesting: Seq<VestingEntry>,
    r: Result<GenesisSnapshot, GenesisError>,
) -> bool {
    let vs = public_validators(is_mainnet, f);
    &&& r is Ok <==> stakes_cover_reserve(vs) && tables_valid(
        flatten(public_balance_sources(f, lockdrop)),
        reserved_stakers(vs),
        session_table(identities(vs)),
        vesting,
    ) && covered(accounts_of(flatten(public_balance_sources(f, lockdrop))), public_refs(f, vesting))
    &&& r matches Ok(s) ==> public_snapshot(is_mainnet, f, lockdrop, vesting, s) && snapshot_valid(s)
        && index_covers(s)
    &&& r matches Err(e) ==> if stakes_cover_reserve(vs) {
        e is DuplicateAuthorityKey || e is UnfundedValidator || e is VestingExceedsBalance || e is StashIsController
            || e is UnindexedAccount
    } else {
        e matches GenesisError::StakeBelowReserve { validator } && validator < vs.len()
            && vs[validator as int].stake < UNBONDED_RESERVE
    }
}

fn identity_list(vs: &Vec<ValidatorRecord>) -> (r: Vec<AuthorityKeys>)
    ensures
        r@ == identities(vs@),
{
    let mut r: Vec<AuthorityKeys> = Vec::new();
    let mut i: usize = 0;
    while i < vs.len()
        invariant
            0 <= i <= vs@.len(),
            r@ == identities(vs@.take(i as int)),
        decreases vs@.len() - i,
    {
        let v = vs[i];
        r.push(AuthorityKeys { stash: v.stash, controller: v.controller, keys: v.keys });
        assert(identities(vs@.take(i as int + 1)) =~= identities(vs@.take(i as int)).push(
            AuthorityKeys { stash: v.stash, controller: v.controller, keys: v.keys },
        ));
        i = i + 1;
    }
    assert(vs@.take(i as int) =~= vs@);
    r
}

fn stake_credit_list(vs: &Vec<ValidatorRecord>) -> (r: Vec<(AccountId, Balance)>)
    ensures
        r@ == stake_credits(vs@),
{
    let mut r: Vec<(AccountId, Balance)> = Vec::new();
    let mut i: usize = 0;
    while i < vs.len()
        invariant
            0 <= i <= vs@.len(),
            r@ == stake_credits(vs@.take(i as int)),
        decreases vs@.len() - i,
    {
        r.push((vs[i].stash, vs[i].stake));
        assert(stake_credits(vs@.take(i as int + 1)) =~= stake_credits(vs@.take(i as int)).push((vs@[i as int].stash, vs@[i as int].stake)));
        i = i + 1;
    }
    assert(vs@.take(i as int) =~= vs@);
    r
}

/// The stakers of a public network; the error names the first validator
/// whose stake does not cover `UNBONDED_RESERVE`.
fn reserved_staker_list(vs: &Vec<ValidatorRecord>) -> (r: Result<Vec<(AccountId, AccountId, Balance)>, GenesisError>)
    ensures
        r is Ok <==> stakes_cover_reserve(vs@),
        r matches Ok(st) ==> st@ == reserved_stakers(vs@),
        r matches Err(e) ==> e matches GenesisError::StakeBelowReserve { validator } && validator < vs@.len()
            && vs@[validator as int].stake < UNBONDED_RESERVE,
{
    let mut r: Vec<(AccountId, AccountId, Balance)> = Vec::new();
    let mut i: usize = 0;
    while i < vs.len()
        invariant
            0 <= i <= vs@.len(),
            stakes_cover_reserve(vs@.take(i as int)),
            r@ == reserved_stakers(vs@.take(i as int)),
        decreases vs@.len() - i,
    {
        let v = vs[i];
        if v.stake < UNBONDED_RESERVE {
            return Err(GenesisError::StakeBelowReserve { validator: i });
        }
        r.push((v.stash, v.controller, v.stake - UNBONDED_RESERVE));
        assert(vs@.take(i as int + 1) =~= vs@.take(i as int).push(v));
        assert(reserved_stakers(vs@.take(i as int + 1)) =~= reserved_stakers(vs@.take(i as int)).push(
            (v.stash, v.controller, (v.stake - UNBONDED_RESERVE) as u128),
        ));
        i = i + 1;
    }
    assert(vs@.take(i as int) =~= vs@);
    Ok(r)
}

/// Builds the genesis state of a public network from its fixtures and the
/// lockdrop participants' balances and vesting schedules, and checks it.
pub fn build_public_snapshot(
    is_mainnet: bool,
    fixtures: &NetworkFixtures,
    lockdrop_balances: Vec<(AccountId, Balance)>,
    lockdrop_vesting: Vec<VestingEntry>,
) -> (r: Result<GenesisSnapshot, GenesisError>)
    ensures
        public_built(is_mainnet, *fixtures, lockdrop_balances@, lockdrop_vesting@, r),
{
    let mut validators = copy_vec(&fixtures.validators);
    if is_mainnet {
        let mut extra = copy_vec(&fixtures.lockdrop_validators);
        validators.append(&mut extra);
    }
    assert(validators@ == public_validators(is_mainnet, *fixtures));
    let stakers = reserved_staker_list(&validators)?;
    let ids = identity_list(&validators);
    let session_keys = session_list(&ids);
    let funded_ids = identity_list(&fixtures.validators);
    let controllers_funded = controller_list(&funded_ids);
    let sources = vec![
        copy_vec(&fixtures.allocation),
        stake_credit_list(&fixtures.validators),
        endow(&controllers_funded, fixtures.controller_endowment),
        lockdrop_balances,
    ];
    assert(source_views(sources@) =~= public_balance_sources(*fixtures, lockdrop_balances@));
    let balances = merge_balances(&sources);
    let indices = account_index(&balances);
    let snapshot = GenesisSnapshot {
        balances,
        vesting: lockdrop_vesting,
        indices,
        session_keys,
        staking: StakingConfig {
            validator_count: 60,
            minimum_validator_count: 0,
            stakers,
            invulnerables: Vec::new(),
            slash_reward_percent: 0,
        },
        council_members: copy_vec(&fixtures.election_members),
        elections: ElectionsConfig {
            members: term_member_list(&fixtures.election_members, PUBLIC_COUNCIL_TERM_END),
            desired_seats: if is_mainnet { 11 } else { 4 },
            presentation_duration: if is_mainnet { 3 * DAYS } else { DAYS },
            term_duration: if is_mainnet { 180 * DAYS } else { 30 * DAYS },
        },
        contracts_gas_price: MILLICENTS,
        sudo_key: fixtures.root_key,
        identity: IdentityConfig {
            verifiers: copy_vec(&fixtures.identity_verifiers),
            expiration_length: 7 * DAYS,
            registration_bond: DOLLARS,
        },
        signaling: SignalingConfig { voting_length: 14 * DAYS, proposal_creation_bond: 100 * DOLLARS },
        treasury_reward: TreasuryRewardConfig { current_payout: 95 * DOLLARS, minting_interval: 1 },
    };
    assert(snapshot.balances@ == flatten(public_balance_sources(*fixtures, lockdrop_balances@)));
    assert(snapshot.vesting@ == lockdrop_vesting@);
    assert(snapshot.staking.invulnerables@ =~= Seq::<AccountId>::empty());
    assert(snapshot.indices@ == accounts_of(snapshot.balances@));
    assert(referenced_accounts(snapshot) == public_refs(*fixtures, lockdrop_vesting@));
    check_snapshot(&snapshot)?;
    let refs = referenced_list(&snapshot);
    check_covered(&snapshot.indices, &refs)?;
    proof {
        lemma_index_covers(snapshot);
    }
    Ok(snapshot)
}

} // verus!

verus! {

/// Where the public networks report telemetry.
pub const STAGING_TELEMETRY_URL: &'static str = "wss://telemetry.polkadot.io/submit/";

/// What the lockdrop balances are replaced with: the test network equalizes
/// them, the main network keeps them.
pub open spec fn lockdrop_equalization(is_mainnet: bool) -> Option<Balance> {
    if is_mainnet {
        None
    } else {
        Some(TESTNET_DEFAULT_BALANCE)
    }
}

/// The genesis state of a public network, given its fixtures and the outcome
/// of reading its allocation record: a failed read fails the construction with
/// the same error, a record that does not decode fails it with the decoding
/// error, and otherwise the state is built from the decoded lockdrop entries.
pub open spec fn public_outcome(
    is_mainnet: bool,
    f: NetworkFixtures,
    allocation: Result<RawAllocation, GenesisError>,
    r: Result<GenesisSnapshot, GenesisError>,
) -> bool {
    match allocation {
        Err(e) => r == Err::<GenesisSnapshot, GenesisError>(e),
        Ok(raw) => exists|d: Result<(Vec<(AccountId, Balance)>, Vec<VestingEntry>), GenesisError>|
            #[trigger] allocation_decoded(raw, lockdrop_equalization(is_mainnet), d) && match d {
                Err(e) => r == Err::<GenesisSnapshot, GenesisError>(e),
                Ok((lb, lv)) => public_built(is_mainnet, f, lb@, lv@, r),
            },
    }
}

fn public_config(
    is_mainnet: bool,
    fixtures: &NetworkFixtures,
    allocation: Result<RawAllocation, GenesisError>,
) -> (r: Result<GenesisSnapshot, GenesisError>)
    ensures
        public_outcome(is_mainnet, *fixtures, allocation, r),
{
    let raw = match allocation {
        Ok(raw) => raw,
        Err(e) => return Err(e),
    };
    let decoded = get_lockdrop_participants_allocation(&raw, !is_mainnet);
    assert(allocation_decoded(raw, lockdrop_equalization(is_mainnet), decoded));
    match decoded {
        Ok((lockdrop_balances, lockdrop_vesting)) => {
            let r = build_public_snapshot(is_mainnet, fixtures, lockdrop_balances, lockdrop_vesting);
            assert(public_built(is_mainnet, *fixtures, lockdrop_balances@, lockdrop_vesting@, r));
            r
        },
        Err(e) => Err(e),
    }
}

/// The genesis state of the public test network, where every lockdrop
/// participant holds `TESTNET_DEFAULT_BALANCE`.
pub fn edgeware_testnet_config(
    fixtures: &NetworkFixtures,
    allocation: Result<RawAllocation, GenesisError>,
) -> (r: Result<GenesisSnapshot, GenesisError>)
    ensures
        public_outcome(false, *fixtures, allocation, r),
{
    public_config(false, fixtures, allocation)
}

/// The genesis state of the main network, where the lockdrop validators join
/// and every lockdrop participant holds its own allocation.
pub fn edgeware_mainnet_config(
    fixtures: &NetworkFixtures,
    allocation: Result<RawAllocation, GenesisError>,
) -> (r: Result<GenesisSnapshot, GenesisError>)
    ensures
        public_outcome(true, *fixtures, allocation, r),
{
    public_config(true, fixtures, allocation)
}

/// `c` specifies a public network with fixtures `f`, given the outcome of
/// reading its allocation record.
pub open spec fn public_spec(
    is_testnet: bool,
    f: NetworkFixtures,
    allocation: Result<RawAllocation, GenesisError>,
    c: ChainSpec,
) -> bool {
    &&& c.name@ == if is_testnet { "Edgeware Testnet"@ } else { "Edgeware"@ }
    &&& c.id@ == if is_testnet { "edgeware-testnet"@ } else { "edgeware"@ }
    &&& c.boot_nodes@ == f.boot_nodes@
    &&& c.telemetry_url matches Some(u) && u@ == STAGING_TELEMETRY_URL@
    &&& c.protocol_id@ == DEFAULT_PROTOCOL_ID@
    &&& c.properties matches Some(p) && p.token_decimals == 18 && p.token_symbol@ == "EDG"@
    &&& c.extensions.fork_blocks is None
    &&& public_outcome(!is_testnet, f, allocation, Ok(c.genesis))
}

/// The specification of a public network: the test network or the main
/// network, with its boot nodes, telemetry and token metadata.
pub fn edgeware_chainspec(
    is_testnet: bool,
    fixtures: NetworkFixtures,
    allocation: Result<RawAllocation, GenesisError>,
) -> (r: Result<ChainSpec, GenesisError>)
    ensures
        r matches Ok(c) ==> public_spec(is_testnet, fixtures, allocation, c),
        r matches Err(e) ==> public_outcome(!is_testnet, fixtures, allocation, Err(e)),
{
    let genesis = public_config(!is_testnet, &fixtures, allocation)?;
    let NetworkFixtures { boot_nodes, .. } = fixtures;
    Ok(ChainSpec {
        name: String::from_str(if is_testnet { "Edgeware Testnet" } else { "Edgeware" }),
        id: String::from_str(if is_testnet { "edgeware-testnet" } else { "edgeware" }),
        boot_nodes,
        telemetry_url: Some(String::from_str(STAGING_TELEMETRY_URL)),
        protocol_id: String::from_str(DEFAULT_PROTOCOL_ID),
        properties: Some(ChainProperties { token_decimals: 18, token_symbol: String::from_str("EDG") }),
        extensions: Extensions { fork_blocks: None },
        genesis,
    })
}

} // verus!

verus! {

/// Two snapshots hold the same state, table for table and value for value.
pub open spec fn same_snapshot(a: GenesisSnapshot, b: GenesisSnapshot) -> bool {
    &&& a.balances@ == b.balances@
    &&& a.vesting@ == b.vesting@
    &&& a.indices@ == b.indices@
    &&& a.session_keys@ == b.session_keys@
    &&& a.staking.validator_count == b.staking.validator_count
    &&& a.staking.minimum_validator_count == b.staking.minimum_validator_count
    &&& a.staking.stakers@ == b.staking.stakers@
    &&& a.staking.invulnerables@ == b.staking.invulnerables@
    &&& a.staking.slash_reward_percent == b.staking.slash_reward_percent
    &&& a.council_members@ == b.council_members@
    &&& a.elections.members@ == b.elections.members@
    &&& a.elections.desired_seats == b.elections.desired_seats
    &&& a.elections.presentation_duration == b.elections.presentation_duration
    &&& a.elections.term_duration == b.elections.term_duration
    &&& a.contracts_gas_price == b.contracts_gas_price
    &&& a.sudo_key == b.sudo_key
    &&& a.identity.verifiers@ == b.identity.verifiers@
    &&& a.identity.expiration_length == b.identity.expiration_length
    &&& a.identity.registration_bond == b.identity.registration_bond
    &&& a.signaling.voting_length == b.signaling.voting_length
    &&& a.signaling.proposal_creation_bond == b.signaling.proposal_creation_bond
    &&& a.treasury_reward.current_payout == b.treasury_reward.current_payout
    &&& a.treasury_reward.minting_interval == b.treasury_reward.minting_interval
}

/// Determinism of a development network: for the same validators and root
/// account, two constructions both succeed and build the same state, or both
/// fail with the same error.
pub proof fn lemma_dev_genesis_deterministic(
    auths: Seq<AuthorityKeys>,
    root_key: AccountId,
    r1: Result<GenesisSnapshot, GenesisError>,
    r2: Result<GenesisSnapshot, GenesisError>,
)
    requires
        dev_outcome(auths, root_key, r1),
        dev_outcome(auths, root_key, r2),
    ensures
        r1 is Ok <==> r2 is Ok,
        r1 matches Ok(s1) ==> r2 matches Ok(s2) && same_snapshot(s1, s2),
        r1 matches Err(e1) ==> r2 == Err::<GenesisSnapshot, GenesisError>(e1),
{
    if let Ok(s1) = r1 {
        if let Ok(s2) = r2 {
            assert(s1.vesting@ =~= s2.vesting@);
        }
    }
    if let Err(e1) = r1 {
        if let Err(e2) = r2 {
            let st = bonded_stakers(auths, ENDOWMENT_STAKED);
            let ix = dev_index(auths, dev_extras());
            let refs = dev_refs(auths, root_key, dev_verifier());
            match (e1, e2) {
                (GenesisError::StashIsController { validator: k1 }, GenesisError::StashIsController { validator: k2 }) => {
                    crate::validation::lemma_first_stash_is_controller_unique(st, k1 as int, k2 as int);
                },
                (
                    GenesisError::DuplicateAuthorityKey { validator: j1 },
                    GenesisError::DuplicateAuthorityKey { validator: j2 },
                ) => {
                    crate::validation::lemma_first_shared_key_unique(session_table(auths), j1 as int, j2 as int);
                },
                (GenesisError::UnindexedAccount { .. }, GenesisError::UnindexedAccount { .. }) => {
                    let k1 = choose|k: int| #[trigger] first_uncovered(ix, refs, k)
                        && e1 == (GenesisError::UnindexedAccount { account: refs[k] });
                    let k2 = choose|k: int| #[trigger] first_uncovered(ix, refs, k)
                        && e2 == (GenesisError::UnindexedAccount { account: refs[k] });
                    crate::validation::lemma_first_uncovered_unique(ix, refs, k1, k2);
                },
                _ => {},
            }
        }
    }
}

/// Determinism of a public network: for the same fixtures and the same outcome
/// of reading the allocation record, two constructions both succeed or both
/// fail, and when they succeed they build the same state.
pub proof fn lemma_public_genesis_deterministic(
    is_mainnet: bool,
    f: NetworkFixtures,
    allocation: Result<RawAllocation, GenesisError>,
    r1: Result<GenesisSnapshot, GenesisError>,
    r2: Result<GenesisSnapshot, GenesisError>,
)
    requires
        public_outcome(is_mainnet, f, allocation, r1),
        public_outcome(is_mainnet, f, allocation, r2),
    ensures
        r1 is Ok <==> r2 is Ok,
        r1 matches Ok(s1) ==> r2 matches Ok(s2) && same_snapshot(s1, s2),
{
    if let Ok(raw) = allocation {
        let eq = lockdrop_equalization(is_mainnet);
        let d1 = choose|d: Result<(Vec<(AccountId, Balance)>, Vec<VestingEntry>), GenesisError>|
            #[trigger] allocation_decoded(raw, eq, d) && match d {
                Err(e) => r1 == Err::<GenesisSnapshot, GenesisError>(e),
                Ok((lb, lv)) => public_built(is_mainnet, f, lb@, lv@, r1),
            };
        let d2 = choose|d: Result<(Vec<(AccountId, Balance)>, Vec<VestingEntry>), GenesisError>|
            #[trigger] allocation_decoded(raw, eq, d) && match d {
                Err(e) => r2 == Err::<GenesisSnapshot, GenesisError>(e),
                Ok((lb, lv)) => public_built(is_mainnet, f, lb@, lv@, r2),
            };
        crate::loader::lemma_allocation_decoded_deterministic(raw, eq, d1, d2);
        if let Ok((lb1, lv1)) = d1 {
            if let Ok((lb2, lv2)) = d2 {
                assert(public_built(is_mainnet, f, lb1@, lv1@, r1));
                assert(public_built(is_mainnet, f, lb1@, lv1@, r2));
                if let Ok(s1) = r1 {
                    if let Ok(s2) = r2 {
                        assert(public_snapshot(is_mainnet, f, lb1@, lv1@, s1));
                        assert(public_snapshot(is_mainnet, f, lb1@, lv1@, s2));
                        assert(s1.staking.invulnerables@ =~= s2.staking.invulnerables@);
                    }
                }
            }
        }
    }
}

/// Funding of an assembled state: every staker's stash and controller, and
/// every account of the session table, is credited a non-zero effective
/// balance.
pub proof fn lemma_validators_credited(s: GenesisSnapshot)
    requires
        snapshot_valid(s),
    ensures
        forall|k: int| 0 <= k < s.staking.stakers@.len() ==> credit_of(s.balances@, #[trigger] s.staking.stakers@[k].0) > 0,
        forall|k: int| 0 <= k < s.staking.stakers@.len() ==> credit_of(s.balances@, #[trigger] s.staking.stakers@[k].1) > 0,
        forall|k: int| 0 <= k < s.session_keys@.len() ==> credit_of(s.balances@, #[trigger] s.session_keys@[k].0) > 0,
{
    let b = s.balances@;
    assert forall|who: AccountId| has_positive_entry(b, who) implies credit_of(b, who) > 0 by {
        let i = choose|i: int| 0 <= i < b.len() && #[trigger] b[i] == (who, b[i].1) && b[i].1 > 0;
        crate::merger::lemma_positive_entry_credits(b, i);
    }
}

/// The sum of the credits of accounts endowed with one amount.
pub proof fn lemma_total_endowed(accounts: Seq<AccountId>, amount: Balance)
    ensures
        crate::merger::total(endowed(accounts, amount)) == accounts.len() * amount,
    decreases accounts.len(),
{
    if accounts.len() > 0 {
        assert(endowed(accounts, amount).drop_last() =~= endowed(accounts.drop_last(), amount));
        let x = endowed(accounts, amount);
        assert(x.last() == (accounts.last(), amount));
        assert(crate::merger::total(x) == crate::merger::total(x.drop_last()) + amount);
        lemma_total_endowed(accounts.drop_last(), amount);
        let n = accounts.len() as int;
        assert(n * amount == (n - 1) * amount + amount) by (nonlinear_arith);
        assert(crate::merger::total(endowed(accounts.drop_last(), amount)) == (n - 1) * amount);
    } else {
        assert(endowed(accounts, amount).len() == 0);
    }
}

/// Conservation on a development network: the balances table credits in all
/// exactly one endowment for each extra account, each stash and each
/// controller.
pub proof fn lemma_dev_conservation(
    auths: Seq<AuthorityKeys>,
    root_key: AccountId,
    extras: Seq<AccountId>,
    verifier: AccountId,
    s: GenesisSnapshot,
)
    requires
        dev_snapshot(auths, root_key, extras, verifier, s),
    ensures
        crate::merger::total(s.balances@) == (extras.len() + 2 * auths.len()) * ENDOWMENT,
{
    let e = endowed(extras, ENDOWMENT);
    let st = endowed(stashes(auths), ENDOWMENT);
    let c = endowed(controllers(auths), ENDOWMENT);
    crate::merger::lemma_flatten_three(e, st, c);
    crate::merger::lemma_conservation(seq![e, st, c]);
    lemma_total_endowed(extras, ENDOWMENT);
    lemma_total_endowed(stashes(auths), ENDOWMENT);
    lemma_total_endowed(controllers(auths), ENDOWMENT);
    assert((extras.len() + 2 * auths.len()) * ENDOWMENT == extras.len() * ENDOWMENT + auths.len() * ENDOWMENT
        + auths.len() * ENDOWMENT) by (nonlinear_arith);
}

/// Conservation on a public network: the balances table credits in all
/// exactly the foundation allocation, the validators' stakes, their
/// controllers' endowments and the lockdrop balances.
pub proof fn lemma_public_conservation(
    is_mainnet: bool,
    f: NetworkFixtures,
    lockdrop: Seq<(AccountId, Balance)>,
    vesting: Seq<VestingEntry>,
    s: GenesisSnapshot,
)
    requires
        public_snapshot(is_mainnet, f, lockdrop, vesting, s),
    ensures
        crate::merger::total(s.balances@) == crate::merger::total(f.allocation@) + crate::merger::total(
            stake_credits(f.validators@),
        ) + f.validators@.len() * f.controller_endowment + crate::merger::total(lockdrop),
{
    let a = f.allocation@;
    let st = stake_credits(f.validators@);
    let c = endowed(controllers(identities(f.validators@)), f.controller_endowment);
    crate::merger::lemma_flatten_four(a, st, c, lockdrop);
    crate::merger::lemma_conservation(seq![a, st, c, lockdrop]);
    lemma_total_endowed(controllers(identities(f.validators@)), f.controller_endowment);
}

} // verus!

verus! {

/// The specification of the network that `profile` names. The development
/// profiles derive everything from their seeds and use neither the fixtures
/// nor the allocation record.
pub fn chainspec_for(
    profile: NetworkProfile,
    fixtures: NetworkFixtures,
    allocation: Result<RawAllocation, GenesisError>,
) -> (r: Result<ChainSpec, GenesisError>)
    ensures
        match profile {
            NetworkProfile::Development => exists|k: AuthorityKeys| #[trigger] authority_keys_of_seed("Alice"@, k)
                && dev_chain("Development"@, "dev"@, seq![k], r),
            NetworkProfile::LocalTestnet => exists|a: AuthorityKeys, b: AuthorityKeys| #[trigger] authority_keys_of_seed("Alice"@, a)
                && #[trigger] authority_keys_of_seed("Bob"@, b) && dev_chain("Local Testnet"@, "local_testnet"@, seq![a, b], r),
            NetworkProfile::PublicTestnet => (r matches Ok(c) ==> public_spec(true, fixtures, allocation, c))
                && (r matches Err(e) ==> public_outcome(false, fixtures, allocation, Err(e))),
            NetworkProfile::PublicMainnet => (r matches Ok(c) ==> public_spec(false, fixtures, allocation, c))
                && (r matches Err(e) ==> public_outcome(true, fixtures, allocation, Err(e))),
        },
{
    match profile {
        NetworkProfile::Development => development_chainspec(),
        NetworkProfile::LocalTestnet => local_testnet_chainspec(),
        NetworkProfile::PublicTestnet => edgeware_chainspec(true, fixtures, allocation),
        NetworkProfile::PublicMainnet => edgeware_chainspec(false, fixtures, allocation),
    }
}

} // verus!
