use edgeware_genesis::loader::{
    decode_account, decode_allocation, get_lockdrop_participants_allocation, parse_decimal, RawAllocation,
    TESTNET_DEFAULT_BALANCE,
};
use edgeware_genesis::types::{AccountId, AllocationSection, GenesisError, VestingEntry};

fn account(last: u8) -> AccountId {
    let mut bytes = [0u8; 32];
    bytes[31] = last;
    AccountId { bytes }
}

fn key(last: u8) -> String {
    format!("0x{}{:02x}", "0".repeat(62), last)
}

fn raw(balances: Vec<(&str, &str)>, vesting: Vec<(&str, &str, &str, &str)>) -> RawAllocation {
    RawAllocation {
        balances: balances.into_iter().map(|(a, b)| (a.to_string(), b.to_string())).collect(),
        vesting: vesting
            .into_iter()
            .map(|(a, b, c, d)| (a.to_string(), b.to_string(), c.to_string(), d.to_string()))
            .collect(),
    }
}

#[test]
fn equalization_replaces_balance_and_vesting_amount() {
    let k = key(1);
    let r = raw(vec![(&k, "500")], vec![(&k, "100", "200", "500")]);
    let (balances, vesting) = decode_allocation(&r, Some(1000)).unwrap();
    assert_eq!(balances, vec![(account(1), 1000)]);
    assert_eq!(vesting, vec![VestingEntry { who: account(1), start: 100, duration: 200, locked: 1000 }]);
}

#[test]
fn without_equalization_amounts_are_kept() {
    let k = key(1);
    let r = raw(vec![(&k, "500")], vec![(&k, "100", "200", "300")]);
    let (balances, vesting) = get_lockdrop_participants_allocation(&r, false).unwrap();
    assert_eq!(balances, vec![(account(1), 500)]);
    assert_eq!(vesting, vec![VestingEntry { who: account(1), start: 100, duration: 200, locked: 300 }]);
}

#[test]
fn testnet_flag_uses_default_balance() {
    let k = key(7);
    let r = raw(vec![(&k, "not a number")], vec![(&k, "5", "6", "also not")]);
    let (balances, vesting) = get_lockdrop_participants_allocation(&r, true).unwrap();
    assert_eq!(TESTNET_DEFAULT_BALANCE, 1_000_000_000_000_000_000_000);
    assert_eq!(balances, vec![(account(7), TESTNET_DEFAULT_BALANCE)]);
    assert_eq!(vesting[0].locked, TESTNET_DEFAULT_BALANCE);
    assert_eq!((vesting[0].start, vesting[0].duration), (5, 6));
}

#[test]
fn decimal_parsing() {
    assert_eq!(parse_decimal("0"), Some(0));
    assert_eq!(parse_decimal("1234567890"), Some(1234567890));
    assert_eq!(parse_decimal("340282366920938463463374607431768211455"), Some(u128::MAX));
    assert_eq!(parse_decimal("340282366920938463463374607431768211456"), None);
    assert_eq!(parse_decimal(""), None);
    assert_eq!(parse_decimal("12a"), None);
    assert_eq!(parse_decimal("-1"), None);
    assert_eq!(parse_decimal(" 1"), None);
}

#[test]
fn account_keys_decode_from_hex() {
    let plain = "d43593c715fdd31c61141abd04a99fd6822c8558854ccde39a5684e7a56da27d";
    let a = decode_account(plain).unwrap();
    assert_eq!(a.bytes[0], 0xd4);
    assert_eq!(a.bytes[31], 0x7d);
    assert_eq!(decode_account(&format!("0x{}", plain)), Some(a));
    assert_eq!(decode_account(&plain.to_uppercase()), Some(a));
    assert_eq!(decode_account(&plain[..62]), None);
    assert_eq!(decode_account(&format!("{}00", plain)), None);
    assert_eq!(decode_account(&plain.replace('d', "g")), None);
    assert_eq!(decode_account(""), None);
}

#[test]
fn bad_balance_record_is_named() {
    let good = key(1);
    let r = raw(vec![(&good, "1"), ("0x12", "2"), (&good, "x")], vec![]);
    assert_eq!(
        decode_allocation(&r, None),
        Err(GenesisError::AllocationFieldDecodeError { section: AllocationSection::Balances, record: 1 })
    );
}

#[test]
fn bad_vesting_record_is_named() {
    let good = key(1);
    let r = raw(vec![(&good, "1")], vec![(&good, "1", "2", "3"), (&good, "1", "0", "3")]);
    assert_eq!(
        decode_allocation(&r, None),
        Err(GenesisError::AllocationFieldDecodeError { section: AllocationSection::Vesting, record: 1 })
    );
    let r = raw(vec![(&good, "1")], vec![(&good, "4294967296", "2", "3")]);
    assert_eq!(
        decode_allocation(&r, None),
        Err(GenesisError::AllocationFieldDecodeError { section: AllocationSection::Vesting, record: 0 })
    );
}

#[test]
fn empty_allocation_decodes_to_nothing() {
    let r = raw(vec![], vec![]);
    assert_eq!(decode_allocation(&r, None), Ok((vec![], vec![])));
}
