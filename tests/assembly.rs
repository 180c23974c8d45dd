use edgeware_genesis::genesis::{
    build_development_snapshot, chainspec_for, check_snapshot, development_chainspec, edgeware_chainspec,
    edgeware_mainnet_config, edgeware_testnet_config, local_testnet_chainspec, NetworkFixtures, NetworkProfile,
    ENDOWMENT, ENDOWMENT_STAKED, UNBONDED_RESERVE,
};
use edgeware_genesis::keys::{get_account_id_from_seed, get_authority_keys_from_seed};
use edgeware_genesis::loader::{RawAllocation, TESTNET_DEFAULT_BALANCE};
use edgeware_genesis::merger::{account_index, merge_balances};
use edgeware_genesis::types::{
    AccountId, AuthorityKey, GenesisError, SessionKeys, ValidatorRecord, DAYS, DOLLARS,
};
use edgeware_genesis::validation::{check_keys_unique, credit_saturating, find_positive_entry};

fn account(tag: u8, last: u8) -> AccountId {
    let mut bytes = [0u8; 32];
    bytes[0] = tag;
    bytes[31] = last;
    AccountId { bytes }
}

fn hex_of(a: &AccountId) -> String {
    a.bytes.iter().map(|b| format!("{:02x}", b)).collect()
}

fn keys(n: u8) -> SessionKeys {
    let k = |role: u8| {
        let mut bytes = [0u8; 32];
        bytes[0] = role;
        bytes[1] = n;
        AuthorityKey { bytes }
    };
    SessionKeys { aura: k(1), grandpa: k(2), im_online: k(3) }
}

fn validator(n: u8, stake: u128) -> ValidatorRecord {
    ValidatorRecord { stash: account(10, n), controller: account(11, n), keys: keys(n), stake }
}

fn fixtures() -> NetworkFixtures {
    NetworkFixtures {
        validators: vec![validator(1, 1000 * DOLLARS), validator(2, 2000 * DOLLARS)],
        lockdrop_validators: vec![validator(3, 500 * DOLLARS)],
        allocation: vec![(account(20, 1), 5 * DOLLARS), (account(10, 1), 7 * DOLLARS)],
        controller_endowment: 3 * DOLLARS,
        root_key: account(20, 1),
        identity_verifiers: vec![account(11, 1)],
        election_members: vec![account(10, 1), account(10, 2)],
        boot_nodes: vec!["/dns4/node/tcp/30333".to_string()],
    }
}

fn allocation(entries: &[(AccountId, &str)], vesting: &[(AccountId, &str, &str, &str)]) -> RawAllocation {
    RawAllocation {
        balances: entries.iter().map(|(a, b)| (hex_of(a), b.to_string())).collect(),
        vesting: vesting
            .iter()
            .map(|(a, s, d, l)| (hex_of(a), s.to_string(), d.to_string(), l.to_string()))
            .collect(),
    }
}

#[test]
fn missing_allocation_file_aborts() {
    let r = edgeware_testnet_config(&fixtures(), Err(GenesisError::AllocationIOError));
    assert_eq!(r.err(), Some(GenesisError::AllocationIOError));
    let r = edgeware_chainspec(false, fixtures(), Err(GenesisError::AllocationIOError));
    assert_eq!(r.err(), Some(GenesisError::AllocationIOError));
}

#[test]
fn testnet_genesis_tables() {
    let p = account(40, 1);
    let raw = allocation(&[(p, "123")], &[(p, "10", "20", "30")]);
    let s = edgeware_testnet_config(&fixtures(), Ok(raw)).unwrap();
    let expected = vec![
        (account(20, 1), 5 * DOLLARS),
        (account(10, 1), 7 * DOLLARS),
        (account(10, 1), 1000 * DOLLARS),
        (account(10, 2), 2000 * DOLLARS),
        (account(11, 1), 3 * DOLLARS),
        (account(11, 2), 3 * DOLLARS),
        (p, TESTNET_DEFAULT_BALANCE),
    ];
    assert_eq!(s.balances, expected);
    assert_eq!(s.indices, expected.iter().map(|e| e.0).collect::<Vec<AccountId>>());
    assert_eq!(s.vesting.len(), 1);
    assert_eq!(s.vesting[0].locked, TESTNET_DEFAULT_BALANCE);
    assert_eq!((s.vesting[0].start, s.vesting[0].duration), (10, 20));
    assert_eq!(s.session_keys, vec![(account(10, 1), keys(1)), (account(10, 2), keys(2))]);
    assert_eq!(
        s.staking.stakers,
        vec![
            (account(10, 1), account(11, 1), 1000 * DOLLARS - UNBONDED_RESERVE),
            (account(10, 2), account(11, 2), 2000 * DOLLARS - UNBONDED_RESERVE),
        ]
    );
    assert_eq!(UNBONDED_RESERVE, 10_000_000_000_000_000_000);
    assert_eq!(s.staking.validator_count, 60);
    assert!(s.staking.invulnerables.is_empty());
    assert_eq!(s.elections.desired_seats, 4);
    assert_eq!(s.elections.presentation_duration, DAYS);
    assert_eq!(s.elections.term_duration, 30 * DAYS);
    assert_eq!(s.elections.members, vec![(account(10, 1), 6 * 28 * DAYS), (account(10, 2), 6 * 28 * DAYS)]);
    assert_eq!(s.council_members, vec![account(10, 1), account(10, 2)]);
    assert_eq!(s.sudo_key, account(20, 1));
    assert_eq!(s.identity.verifiers, vec![account(11, 1)]);
    assert_eq!(s.treasury_reward.current_payout, 95 * DOLLARS);
    assert_eq!(check_snapshot(&s), Ok(()));
}

#[test]
fn mainnet_adds_lockdrop_validators() {
    let lockdrop_stash = account(10, 3);
    let lockdrop_controller = account(11, 3);
    let raw = allocation(&[(lockdrop_stash, "600000000000000000000"), (lockdrop_controller, "1")], &[]);
    let s = edgeware_mainnet_config(&fixtures(), Ok(raw)).unwrap();
    assert_eq!(s.session_keys.len(), 3);
    assert_eq!(s.staking.stakers[2], (lockdrop_stash, lockdrop_controller, 500 * DOLLARS - UNBONDED_RESERVE));
    assert_eq!(s.balances.len(), 8);
    assert_eq!(s.balances[6], (lockdrop_stash, 600 * DOLLARS));
    assert_eq!(s.elections.desired_seats, 11);
    assert_eq!(s.elections.term_duration, 180 * DAYS);
    assert_eq!(s.elections.presentation_duration, 3 * DAYS);
}

#[test]
fn unfunded_lockdrop_validator_is_rejected() {
    let raw = allocation(&[(account(40, 1), "5")], &[]);
    let r = edgeware_mainnet_config(&fixtures(), Ok(raw));
    assert_eq!(r.err(), Some(GenesisError::UnfundedValidator { validator: 2 }));
}

#[test]
fn stake_below_reserve_is_rejected() {
    let mut f = fixtures();
    f.validators[1].stake = UNBONDED_RESERVE - 1;
    let r = edgeware_testnet_config(&f, Ok(allocation(&[], &[])));
    assert_eq!(r.err(), Some(GenesisError::StakeBelowReserve { validator: 1 }));
}

#[test]
fn shared_authority_key_is_rejected() {
    let mut f = fixtures();
    f.validators[1].keys.grandpa = f.validators[0].keys.grandpa;
    let r = edgeware_testnet_config(&f, Ok(allocation(&[], &[])));
    assert_eq!(r.err(), Some(GenesisError::DuplicateAuthorityKey { validator: 1 }));
}

#[test]
fn vesting_beyond_credit_is_rejected() {
    let p = account(40, 1);
    let raw = allocation(&[(p, "100")], &[(p, "1", "10", "50"), (p, "1", "10", "101")]);
    let r = edgeware_mainnet_config(
        &NetworkFixtures { lockdrop_validators: vec![], ..fixtures() },
        Ok(raw),
    );
    assert_eq!(r.err(), Some(GenesisError::VestingExceedsBalance { record: 1 }));
}

#[test]
fn vesting_may_rest_on_several_entries() {
    let p = account(20, 1);
    let raw = allocation(&[(p, "100")], &[(p, "1", "10", "5000000000000000100")]);
    let r = edgeware_mainnet_config(&NetworkFixtures { lockdrop_validators: vec![], ..fixtures() }, Ok(raw));
    assert!(r.is_ok());
}

#[test]
fn bad_allocation_entry_aborts_public_genesis() {
    let raw = RawAllocation { balances: vec![("zz".to_string(), "1".to_string())], vesting: vec![] };
    let r = edgeware_testnet_config(&fixtures(), Ok(raw));
    assert!(matches!(r, Err(GenesisError::AllocationFieldDecodeError { record: 0, .. })));
}

#[test]
fn public_chainspec_metadata() {
    let c = edgeware_chainspec(true, fixtures(), Ok(allocation(&[], &[]))).unwrap();
    assert_eq!(c.name, "Edgeware Testnet");
    assert_eq!(c.id, "edgeware-testnet");
    assert_eq!(c.protocol_id, "edg");
    assert_eq!(c.telemetry_url.as_deref(), Some("wss://telemetry.polkadot.io/submit/"));
    let p = c.properties.unwrap();
    assert_eq!((p.token_decimals, p.token_symbol.as_str()), (18, "EDG"));
    assert_eq!(c.boot_nodes, vec!["/dns4/node/tcp/30333".to_string()]);
    let c = edgeware_chainspec(false, fixtures(), Ok(allocation(&[(account(10, 3), "1"), (account(11, 3), "1")], &[])))
        .unwrap();
    assert_eq!(c.name, "Edgeware");
    assert_eq!(c.id, "edgeware");
}

#[test]
fn development_chainspec_has_alice_alone() {
    let c = development_chainspec().unwrap();
    assert_eq!(c.name, "Development");
    assert_eq!(c.id, "dev");
    assert!(c.properties.is_none());
    let alice = get_authority_keys_from_seed("Alice").unwrap();
    let s = c.genesis;
    assert_eq!(s.balances.len(), 8);
    assert!(s.balances.iter().all(|e| e.1 == ENDOWMENT));
    assert_eq!(ENDOWMENT, 10_000_000 * DOLLARS);
    assert_eq!(s.balances[0].0, get_account_id_from_seed("Aaron").unwrap());
    assert_eq!(s.balances[5].0, get_account_id_from_seed("Alex").unwrap());
    assert_eq!(s.balances[6].0, alice.stash);
    assert_eq!(s.balances[7].0, alice.controller);
    assert_eq!(s.staking.stakers, vec![(alice.stash, alice.controller, ENDOWMENT_STAKED)]);
    assert_eq!(s.staking.invulnerables, vec![alice.stash]);
    assert_eq!(s.staking.validator_count, 7);
    assert_eq!(s.staking.minimum_validator_count, 4);
    assert_eq!(s.staking.slash_reward_percent, 10);
    assert_eq!(s.sudo_key, alice.stash);
    assert_eq!(s.identity.verifiers, vec![alice.controller]);
    assert_eq!(s.elections.desired_seats, 3);
    assert_eq!(s.elections.members, vec![(alice.controller, 1_000_000)]);
    assert_eq!(s.elections.term_duration, 28 * DAYS);
    assert_eq!(s.treasury_reward.current_payout, 158 * DOLLARS);
    assert_eq!(s.treasury_reward.minting_interval, 1);
    assert!(s.vesting.is_empty());
}

#[test]
fn local_testnet_has_alice_and_bob() {
    let c = local_testnet_chainspec().unwrap();
    assert_eq!(c.name, "Local Testnet");
    assert_eq!(c.id, "local_testnet");
    let s = c.genesis;
    assert_eq!(s.balances.len(), 10);
    assert_eq!(s.session_keys.len(), 2);
    assert_eq!(s.elections.desired_seats, 4);
    assert_eq!(s.council_members.len(), 2);
    assert_eq!(check_snapshot(&s), Ok(()));
}

#[test]
fn assembly_is_deterministic() {
    let a = local_testnet_chainspec().unwrap().genesis;
    let b = local_testnet_chainspec().unwrap().genesis;
    assert_eq!(a.balances, b.balances);
    assert_eq!(a.session_keys, b.session_keys);
    let raw = || allocation(&[(account(40, 1), "9")], &[(account(40, 1), "1", "2", "3")]);
    let x = edgeware_testnet_config(&fixtures(), Ok(raw())).unwrap();
    let y = edgeware_testnet_config(&fixtures(), Ok(raw())).unwrap();
    assert_eq!(x.balances, y.balances);
    assert_eq!(x.vesting, y.vesting);
    assert_eq!(x.staking.stakers, y.staking.stakers);
}

#[test]
fn development_profile_rejects_bad_authority_lists() {
    let alice = get_authority_keys_from_seed("Alice").unwrap();
    let r = build_development_snapshot(&vec![], alice.stash, &vec![], alice.controller);
    assert_eq!(r.err(), Some(GenesisError::ConfigurationError));
    let r = build_development_snapshot(&vec![alice, alice], alice.stash, &vec![], alice.controller);
    assert_eq!(r.err(), Some(GenesisError::DuplicateAuthorityKey { validator: 1 }));
}

#[test]
fn profile_dispatch() {
    let c = chainspec_for(NetworkProfile::Development, fixtures(), Err(GenesisError::AllocationIOError)).unwrap();
    assert_eq!(c.id, "dev");
    let c = chainspec_for(NetworkProfile::LocalTestnet, fixtures(), Err(GenesisError::AllocationIOError)).unwrap();
    assert_eq!(c.id, "local_testnet");
    let r = chainspec_for(NetworkProfile::PublicMainnet, fixtures(), Err(GenesisError::AllocationIOError));
    assert_eq!(r.err(), Some(GenesisError::AllocationIOError));
    let c = chainspec_for(NetworkProfile::PublicTestnet, fixtures(), Ok(allocation(&[], &[]))).unwrap();
    assert_eq!(c.id, "edgeware-testnet");
}

#[test]
fn merge_keeps_every_entry_and_sums_per_account() {
    let a = account(1, 1);
    let b = account(1, 2);
    let sources = vec![vec![(a, 5), (b, 1)], vec![], vec![(a, 7)]];
    let merged = merge_balances(&sources);
    assert_eq!(merged, vec![(a, 5), (b, 1), (a, 7)]);
    assert_eq!(merged.iter().map(|e| e.1).sum::<u128>(), 13);
    assert_eq!(credit_saturating(&merged, &a), 12);
    assert_eq!(credit_saturating(&merged, &account(9, 9)), 0);
    assert_eq!(account_index(&merged), vec![a, b, a]);
    assert!(find_positive_entry(&merged, &b));
    assert!(!find_positive_entry(&vec![(b, 0)], &b));
    assert_eq!(credit_saturating(&vec![(a, u128::MAX), (a, 1)], &a), u128::MAX);
}

#[test]
fn community_and_validator_credits_add_up() {
    let s = edgeware_testnet_config(&fixtures(), Ok(allocation(&[], &[]))).unwrap();
    assert_eq!(credit_saturating(&s.balances, &account(10, 1)), 1007 * DOLLARS);
    let total: u128 = s.balances.iter().map(|e| e.1).sum();
    assert_eq!(total, 5 * DOLLARS + 7 * DOLLARS + 3000 * DOLLARS + 6 * DOLLARS);
}

#[test]
fn key_uniqueness_check() {
    let entries = vec![(account(1, 1), keys(1)), (account(1, 2), keys(2)), (account(1, 3), keys(1))];
    assert_eq!(check_keys_unique(&entries), Err(GenesisError::DuplicateAuthorityKey { validator: 2 }));
    assert_eq!(check_keys_unique(&entries[..2].to_vec()), Ok(()));
    assert_eq!(check_keys_unique(&vec![]), Ok(()));
}

#[test]
fn stash_equal_to_controller_is_rejected() {
    let mut f = fixtures();
    f.validators[1].controller = f.validators[1].stash;
    let r = edgeware_testnet_config(&f, Ok(allocation(&[], &[])));
    assert_eq!(r.err(), Some(GenesisError::StashIsController { validator: 1 }));
    let alice = get_authority_keys_from_seed("Alice").unwrap();
    let mut same = alice;
    same.controller = same.stash;
    let r = build_development_snapshot(&vec![alice, same], alice.stash, &vec![], alice.controller);
    assert_eq!(r.err(), Some(GenesisError::StashIsController { validator: 1 }));
}

#[test]
fn stash_check_comes_before_key_check() {
    let alice = get_authority_keys_from_seed("Alice").unwrap();
    let mut same = alice;
    same.controller = same.stash;
    let r = build_development_snapshot(&vec![alice, alice, same], alice.stash, &vec![], alice.controller);
    assert_eq!(r.err(), Some(GenesisError::StashIsController { validator: 2 }));
}

#[test]
fn index_is_the_balances_accounts() {
    let c = development_chainspec().unwrap();
    let alice = get_authority_keys_from_seed("Alice").unwrap();
    let s = c.genesis;
    assert_eq!(s.indices, s.balances.iter().map(|e| e.0).collect::<Vec<AccountId>>());
    assert_eq!(s.indices.len(), 8);
    assert!(s.indices.contains(&alice.stash));
    assert!(s.indices.contains(&s.sudo_key));
    assert!(s.indices.contains(&s.identity.verifiers[0]));
}

#[test]
fn unindexed_root_account_is_rejected() {
    let alice = get_authority_keys_from_seed("Alice").unwrap();
    let outsider = account(50, 1);
    let r = build_development_snapshot(&vec![alice], outsider, &vec![], alice.controller);
    assert_eq!(r.err(), Some(GenesisError::UnindexedAccount { account: outsider }));
    let r = build_development_snapshot(&vec![alice], alice.stash, &vec![], outsider);
    assert_eq!(r.err(), Some(GenesisError::UnindexedAccount { account: outsider }));
    let r = build_development_snapshot(&vec![alice], alice.stash, &vec![outsider], outsider);
    assert!(r.is_ok());
}

#[test]
fn unindexed_public_accounts_are_rejected() {
    let f = NetworkFixtures { root_key: account(60, 1), ..fixtures() };
    let r = edgeware_testnet_config(&f, Ok(allocation(&[], &[])));
    assert_eq!(r.err(), Some(GenesisError::UnindexedAccount { account: account(60, 1) }));
    let f = NetworkFixtures { election_members: vec![account(10, 1), account(61, 1)], ..fixtures() };
    let r = edgeware_testnet_config(&f, Ok(allocation(&[], &[])));
    assert_eq!(r.err(), Some(GenesisError::UnindexedAccount { account: account(61, 1) }));
    let f = NetworkFixtures { lockdrop_validators: vec![], ..fixtures() };
    let r = edgeware_mainnet_config(&f, Ok(allocation(&[(account(40, 1), "5")], &[(account(62, 1), "1", "2", "0")])));
    assert_eq!(r.err(), Some(GenesisError::UnindexedAccount { account: account(62, 1) }));
}

#[test]
fn development_builds_agree_on_failure_too() {
    let alice = get_authority_keys_from_seed("Alice").unwrap();
    let bob = get_authority_keys_from_seed("Bob").unwrap();
    let a = edgeware_genesis::genesis::development_genesis_config(&vec![alice, bob, alice], alice.stash);
    let b = edgeware_genesis::genesis::development_genesis_config(&vec![alice, bob, alice], alice.stash);
    assert_eq!(a.err(), Some(GenesisError::DuplicateAuthorityKey { validator: 2 }));
    assert_eq!(b.err(), Some(GenesisError::DuplicateAuthorityKey { validator: 2 }));
}
