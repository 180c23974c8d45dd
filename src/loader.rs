use vstd::prelude::*;
use vstd::string::*;
use crate::types::{AccountId, AllocationSection, Balance, BlockNumber, GenesisError, VestingEntry, DOLLARS};

verus! {

/// The balance that every lockdrop participant receives, and that every vesting
/// schedule locks, when balances are equalized for a test network.
pub const TESTNET_DEFAULT_BALANCE: Balance = 1000 * DOLLARS;

/// The allocation record as read from its file, every field still text.
pub struct RawAllocation {
    /// `(account key in hex, balance in decimal)`.
    pub balances: Vec<(String, String)>,
    /// `(account key in hex, start block, duration in blocks, locked balance)`,
    /// each number in decimal.
    pub vesting: Vec<(String, String, String, String)>,
}

pub open spec fn is_digit(c: char) -> bool {
    '0' <= c && c <= '9'
}

pub open spec fn all_digits(s: Seq<char>) -> bool {
    forall|i: int| 0 <= i < s.len() ==> is_digit(#[trigger] s[i])
}

/// The number that a string of decimal digits denotes.
pub open spec fn decimal_value(s: Seq<char>) -> int
    decreases s.len(),
{
    if s.len() == 0 {
        0
    } else {
        decimal_value(s.drop_last()) * 10 + (s.last() as int - '0' as int)
    }
}

/// A non-empty string of decimal digits whose value is at most `max`.
pub open spec fn is_decimal_upto(s: Seq<char>, max: int) -> bool {
    s.len() > 0 && all_digits(s) && decimal_value(s) <= max
}

proof fn lemma_decimal_nonneg(s: Seq<char>)
    requires
        all_digits(s),
    ensures
        decimal_value(s) >= 0,
    decreases s.len(),
{
    if s.len() > 0 {
        assert(is_digit(s[s.len() - 1]));
        lemma_decimal_nonneg(s.drop_last());
    }
}

proof fn lemma_decimal_prefix_le(s: Seq<char>, j: int)
    requires
        all_digits(s),
        0 <= j <= s.len(),
    ensures
        decimal_value(s.take(j)) <= decimal_value(s),
    decreases s.len(),
{
    if j < s.len() {
        let t = s.drop_last();
        assert(t.take(j) =~= s.take(j));
        assert(all_digits(t));
        lemma_decimal_prefix_le(t, j);
        lemma_decimal_nonneg(t);
        assert(is_digit(s[s.len() - 1]));
    } else {
        assert(s.take(j) =~= s);
    }
}

/// Reads an unsigned decimal number: one or more ASCII digits, nothing else,
/// with a value that fits in 128 bits.
pub fn parse_decimal(s: &str) -> (r: Option<u128>)
    ensures
        r == (if is_decimal_upto(s@, u128::MAX as int) {
            Some(decimal_value(s@) as u128)
        } else {
            None::<u128>
        }),
{
    let n = s.unicode_len();
    if n == 0 {
        return None;
    }
    let mut acc: u128 = 0;
    let mut i: usize = 0;
    while i < n
        invariant
            n == s@.len(),
            0 <= i <= n,
            all_digits(s@.take(i as int)),
            acc as int == decimal_value(s@.take(i as int)),
        decreases n - i,
    {
        let c = s.get_char(i);
        if c < '0' || c > '9' {
            return None;
        }
        let d = (c as u32 - '0' as u32) as u128;
        proof {
            let t = s@.take(i as int + 1);
            assert(t.drop_last() =~= s@.take(i as int));
            assert(t.last() == c);
            assert(all_digits(t));
        }
        if acc > (u128::MAX - d) / 10 {
            proof {
                let t = s@.take(i as int + 1);
                assert(decimal_value(t) > u128::MAX) by (nonlinear_arith)
                    requires
                        decimal_value(t) == acc * 10 + d,
                        acc > (u128::MAX - d) / 10,
                        0 <= d <= 9,
                ;
                if all_digits(s@) {
                    lemma_decimal_prefix_le(s@, i as int + 1);
                }
            }
            return None;
        }
        proof {
            assert(acc * 10 + d <= u128::MAX) by (nonlinear_arith)
                requires
                    acc <= (u128::MAX - d) / 10,
                    0 <= d <= 9,
            ;
        }
        acc = acc * 10 + d;
        i = i + 1;
    }
    assert(s@.take(n as int) =~= s@);
    Some(acc)
}

pub open spec fn is_hex_digit(c: char) -> bool {
    ('0' <= c && c <= '9') || ('a' <= c && c <= 'f') || ('A' <= c && c <= 'F')
}

pub open spec fn hex_digit_value(c: char) -> int {
    if '0' <= c && c <= '9' {
        c as int - '0' as int
    } else if 'a' <= c && c <= 'f' {
        c as int - 'a' as int + 10
    } else {
        c as int - 'A' as int + 10
    }
}

/// Exactly 64 hex digits, of either case.
pub open spec fn is_key_hex(s: Seq<char>) -> bool {
    s.len() == 64 && forall|i: int| 0 <= i < 64 ==> is_hex_digit(#[trigger] s[i])
}

/// `k` holds the bytes that the 64 hex digits `s` spell, two digits per byte,
/// the high digit first.
pub open spec fn hex_spells(s: Seq<char>, k: Seq<u8>) -> bool {
    k.len() == 32 && forall|i: int|
        0 <= i < 32 ==> #[trigger] k[i] as int == hex_digit_value(s[2 * i]) * 16
            + hex_digit_value(s[2 * i + 1])
}

/// Relies on `hex::FromHex` for `[u8; 32]`: it accepts exactly 64 hex digits of
/// either case and decodes each pair, high digit first, into one byte; any other
/// input (odd or wrong length, another character) is an error.
#[verifier::external_body]
fn decode_hex_32(s: &str) -> (r: Option<[u8; 32]>)
    ensures
        r is Some <==> is_key_hex(s@),
        r matches Some(k) ==> hex_spells(s@, k@),
{
    <[u8; 32] as hex::FromHex>::from_hex(s).ok()
}

/// The key text without its optional `0x` prefix.
pub open spec fn strip_hex_prefix(s: Seq<char>) -> Seq<char> {
    if s.len() >= 2 && s[0] == '0' && s[1] == 'x' {
        s.subrange(2, s.len() as int)
    } else {
        s
    }
}

/// `key` is the hex text of account `a`, with or without a `0x` prefix.
pub open spec fn account_hex(key: Seq<char>, a: AccountId) -> bool {
    is_key_hex(strip_hex_prefix(key)) && hex_spells(strip_hex_prefix(key), a.bytes@)
}

/// Decodes an account key written as 64 hex digits, with an optional `0x`.
pub fn decode_account(key: &str) -> (r: Option<AccountId>)
    ensures
        r is Some <==> is_key_hex(strip_hex_prefix(key@)),
        r matches Some(a) ==> account_hex(key@, a),
{
    let n = key.unicode_len();
    let digits = if n >= 2 && key.get_char(0) == '0' && key.get_char(1) == 'x' {
        key.substring_char(2, n)
    } else {
        key
    };
    match decode_hex_32(digits) {
        Some(bytes) => Some(AccountId { bytes }),
        None => None,
    }
}

} // verus!

verus! {

/// The balance that an allocation entry is credited with: the equalized amount
/// where one is given, else the entry's own.
pub open spec fn credited(amount: Seq<char>, equalize_to: Option<Balance>) -> Balance {
    match equalize_to {
        Some(v) => v,
        None => decimal_value(amount) as u128,
    }
}

pub open spec fn amount_ok(amount: Seq<char>, equalize_to: Option<Balance>) -> bool {
    equalize_to is Some || is_decimal_upto(amount, u128::MAX as int)
}

/// A balance entry that decodes: a valid key, and a valid amount unless the
/// amount is replaced.
pub open spec fn balance_ok(e: (String, String), equalize_to: Option<Balance>) -> bool {
    is_key_hex(strip_hex_prefix(e.0@)) && amount_ok(e.1@, equalize_to)
}

pub open spec fn balance_decoded(
    e: (String, String),
    equalize_to: Option<Balance>,
    d: (AccountId, Balance),
) -> bool {
    account_hex(e.0@, d.0) && d.1 == credited(e.1@, equalize_to)
}

/// A vesting entry that decodes: a valid key, a start and a positive duration
/// that fit in a block number, and a valid amount unless the amount is replaced.
pub open spec fn vesting_ok(
    e: (String, String, String, String),
    equalize_to: Option<Balance>,
) -> bool {
    &&& is_key_hex(strip_hex_prefix(e.0@))
    &&& is_decimal_upto(e.1@, u32::MAX as int)
    &&& is_decimal_upto(e.2@, u32::MAX as int)
    &&& decimal_value(e.2@) > 0
    &&& amount_ok(e.3@, equalize_to)
}

pub open spec fn vesting_decoded(
    e: (String, String, String, String),
    equalize_to: Option<Balance>,
    v: VestingEntry,
) -> bool {
    &&& account_hex(e.0@, v.who)
    &&& v.start == decimal_value(e.1@)
    &&& v.duration == decimal_value(e.2@)
    &&& v.locked == credited(e.3@, equalize_to)
}

pub open spec fn all_balances_ok(b: Seq<(String, String)>, equalize_to: Option<Balance>) -> bool {
    forall|i: int| 0 <= i < b.len() ==> balance_ok(#[trigger] b[i], equalize_to)
}

pub open spec fn all_vesting_ok(
    v: Seq<(String, String, String, String)>,
    equalize_to: Option<Balance>,
) -> bool {
    forall|i: int| 0 <= i < v.len() ==> vesting_ok(#[trigger] v[i], equalize_to)
}

/// What decoding the allocation record yields: every entry decoded in order when
/// all of them decode, else the error that names the first entry that does not,
/// the balances before the vesting schedules.
pub open spec fn allocation_decoded(
    raw: RawAllocation,
    equalize_to: Option<Balance>,
    r: Result<(Vec<(AccountId, Balance)>, Vec<VestingEntry>), GenesisError>,
) -> bool {
    let b = raw.balances@;
    let v = raw.vesting@;
    &&& r is Ok <==> all_balances_ok(b, equalize_to) && all_vesting_ok(v, equalize_to)
    &&& r matches Ok((bs, vs)) ==> {
        &&& bs@.len() == b.len()
        &&& forall|i: int| 0 <= i < b.len() ==> balance_decoded(b[i], equalize_to, #[trigger] bs@[i])
        &&& vs@.len() == v.len()
        &&& forall|i: int| 0 <= i < v.len() ==> vesting_decoded(v[i], equalize_to, #[trigger] vs@[i])
    }
    &&& r matches Err(e) ==> match e {
        GenesisError::AllocationFieldDecodeError { section: AllocationSection::Balances, record } => {
            &&& record < b.len()
            &&& !balance_ok(b[record as int], equalize_to)
            &&& all_balances_ok(b.take(record as int), equalize_to)
        },
        GenesisError::AllocationFieldDecodeError { section: AllocationSection::Vesting, record } => {
            &&& all_balances_ok(b, equalize_to)
            &&& record < v.len()
            &&& !vesting_ok(v[record as int], equalize_to)
            &&& all_vesting_ok(v.take(record as int), equalize_to)
        },
        _ => false,
    }
}

fn decode_balance(e: &(String, String), equalize_to: Option<Balance>) -> (r: Option<(AccountId, Balance)>)
    ensures
        r is Some <==> balance_ok(*e, equalize_to),
        r matches Some(d) ==> balance_decoded(*e, equalize_to, d),
{
    let who = match decode_account(e.0.as_str()) {
        Some(a) => a,
        None => return None,
    };
    let amount = match equalize_to {
        Some(v) => v,
        None => match parse_decimal(e.1.as_str()) {
            Some(v) => v,
            None => return None,
        },
    };
    Some((who, amount))
}

fn decode_block_number(s: &str) -> (r: Option<BlockNumber>)
    ensures
        r == (if is_decimal_upto(s@, u32::MAX as int) {
            Some(decimal_value(s@) as u32)
        } else {
            None::<u32>
        }),
        r matches Some(v) ==> v as int == decimal_value(s@),
{
    let parsed = parse_decimal(s);
    proof {
        if all_digits(s@) {
            lemma_decimal_nonneg(s@);
        }
        if is_decimal_upto(s@, u32::MAX as int) {
            assert(is_decimal_upto(s@, u128::MAX as int));
        }
    }
    match parsed {
        Some(v) => if v <= u32::MAX as u128 {
            Some(v as u32)
        } else {
            None
        },
        None => None,
    }
}

fn decode_vesting(e: &(String, String, String, String), equalize_to: Option<Balance>) -> (r: Option<VestingEntry>)
    ensures
        r is Some <==> vesting_ok(*e, equalize_to),
        r matches Some(v) ==> vesting_decoded(*e, equalize_to, v),
{
    let who = match decode_account(e.0.as_str()) {
        Some(a) => a,
        None => return None,
    };
    let start = match decode_block_number(e.1.as_str()) {
        Some(v) => v,
        None => return None,
    };
    let duration = match decode_block_number(e.2.as_str()) {
        Some(v) => v,
        None => return None,
    };
    if duration == 0 {
        return None;
    }
    let locked = match equalize_to {
        Some(v) => v,
        None => match parse_decimal(e.3.as_str()) {
            Some(v) => v,
            None => return None,
        },
    };
    Some(VestingEntry { who, start, duration, locked })
}

/// Decodes the allocation record into balance entries and vesting schedules.
/// Where `equalize_to` holds an amount, it replaces every balance and every
/// locked amount; start and duration of each schedule are kept.
pub fn decode_allocation(raw: &RawAllocation, equalize_to: Option<Balance>) -> (r: Result<
    (Vec<(AccountId, Balance)>, Vec<VestingEntry>),
    GenesisError,
>)
    ensures
        allocation_decoded(*raw, equalize_to, r),
{
    let mut balances: Vec<(AccountId, Balance)> = Vec::new();
    let mut i: usize = 0;
    while i < raw.balances.len()
        invariant
            0 <= i <= raw.balances@.len(),
            balances@.len() == i,
            all_balances_ok(raw.balances@.take(i as int), equalize_to),
            forall|k: int| 0 <= k < i ==> balance_decoded(raw.balances@[k], equalize_to, #[trigger] balances@[k]),
        decreases raw.balances@.len() - i,
    {
        match decode_balance(&raw.balances[i], equalize_to) {
            Some(d) => balances.push(d),
            None => {
                return Err(GenesisError::AllocationFieldDecodeError { section: AllocationSection::Balances, record: i });
            },
        }
        assert(raw.balances@.take(i as int + 1) =~= raw.balances@.take(i as int).push(raw.balances@[i as int]));
        i = i + 1;
    }
    assert(raw.balances@.take(i as int) =~= raw.balances@);
    let mut vesting: Vec<VestingEntry> = Vec::new();
    let mut j: usize = 0;
    while j < raw.vesting.len()
        invariant
            0 <= j <= raw.vesting@.len(),
            all_balances_ok(raw.balances@, equalize_to),
            vesting@.len() == j,
            all_vesting_ok(raw.vesting@.take(j as int), equalize_to),
            forall|k: int| 0 <= k < j ==> vesting_decoded(raw.vesting@[k], equalize_to, #[trigger] vesting@[k]),
        decreases raw.vesting@.len() - j,
    {
        match decode_vesting(&raw.vesting[j], equalize_to) {
            Some(v) => vesting.push(v),
            None => {
                return Err(GenesisError::AllocationFieldDecodeError { section: AllocationSection::Vesting, record: j });
            },
        }
        assert(raw.vesting@.take(j as int + 1) =~= raw.vesting@.take(j as int).push(raw.vesting@[j as int]));
        j = j + 1;
    }
    assert(raw.vesting@.take(j as int) =~= raw.vesting@);
    Ok((balances, vesting))
}

/// The lockdrop participants' balances and vesting schedules. On a test network
/// (`equalize_balances`) every participant gets `TESTNET_DEFAULT_BALANCE` and
/// every schedule locks that same amount.
pub fn get_lockdrop_participants_allocation(raw: &RawAllocation, equalize_balances: bool) -> (r: Result<
    (Vec<(AccountId, Balance)>, Vec<VestingEntry>),
    GenesisError,
>)
    ensures
        allocation_decoded(*raw, if equalize_balances { Some(TESTNET_DEFAULT_BALANCE) } else { None }, r),
{
    let equalize_to = if equalize_balances { Some(TESTNET_DEFAULT_BALANCE) } else { None };
    decode_allocation(raw, equalize_to)
}

} // verus!

verus! {

/// A key's hex text names one account only.
pub proof fn lemma_account_hex_unique(key: Seq<char>, a: AccountId, b: AccountId)
    requires
        account_hex(key, a),
        account_hex(key, b),
    ensures
        a == b,
{
    broadcast use vstd::array::group_array_axioms;
    assert(a.bytes@ =~= b.bytes@);
    assert forall|i: int| 0 <= i < 32 implies a.bytes[i] == b.bytes[i] by {
        assert(a.bytes@[i] == b.bytes@[i]);
    }
    assert(a.bytes =~= b.bytes);
}

/// Decoding is deterministic: two outcomes of decoding one record with one
/// equalization agree, entry for entry, or fail with the same error.
pub proof fn lemma_allocation_decoded_deterministic(
    raw: RawAllocation,
    equalize_to: Option<Balance>,
    d1: Result<(Vec<(AccountId, Balance)>, Vec<VestingEntry>), GenesisError>,
    d2: Result<(Vec<(AccountId, Balance)>, Vec<VestingEntry>), GenesisError>,
)
    requires
        allocation_decoded(raw, equalize_to, d1),
        allocation_decoded(raw, equalize_to, d2),
    ensures
        d1 is Ok <==> d2 is Ok,
        d1 matches Ok((b1, v1)) ==> d2 matches Ok((b2, v2)) && b1@ == b2@ && v1@ == v2@,
        d1 matches Err(e1) ==> d2 == Err::<(Vec<(AccountId, Balance)>, Vec<VestingEntry>), GenesisError>(e1),
{
    let b = raw.balances@;
    let v = raw.vesting@;
    if let Ok((b1, v1)) = d1 {
        if let Ok((b2, v2)) = d2 {
            assert forall|i: int| 0 <= i < b.len() implies b1@[i] == b2@[i] by {
                assert(balance_decoded(b[i], equalize_to, b1@[i]));
                assert(balance_decoded(b[i], equalize_to, b2@[i]));
                lemma_account_hex_unique(b[i].0@, b1@[i].0, b2@[i].0);
            }
            assert(b1@ =~= b2@);
            assert forall|i: int| 0 <= i < v.len() implies v1@[i] == v2@[i] by {
                assert(vesting_decoded(v[i], equalize_to, v1@[i]));
                assert(vesting_decoded(v[i], equalize_to, v2@[i]));
                lemma_account_hex_unique(v[i].0@, v1@[i].who, v2@[i].who);
            }
            assert(v1@ =~= v2@);
        }
    }
    if let Err(e1) = d1 {
        if let Err(e2) = d2 {
            match (e1, e2) {
                (
                    GenesisError::AllocationFieldDecodeError { section: s1, record: r1 },
                    GenesisError::AllocationFieldDecodeError { section: s2, record: r2 },
                ) => {
                    if s1 == AllocationSection::Balances && s2 == AllocationSection::Balances {
                        if r1 < r2 {
                            assert(b.take(r2 as int)[r1 as int] == b[r1 as int]);
                        } else if r2 < r1 {
                            assert(b.take(r1 as int)[r2 as int] == b[r2 as int]);
                        }
                    } else if s1 == AllocationSection::Vesting && s2 == AllocationSection::Vesting {
                        if r1 < r2 {
                            assert(v.take(r2 as int)[r1 as int] == v[r1 as int]);
                        } else if r2 < r1 {
                            assert(v.take(r1 as int)[r2 as int] == v[r2 as int]);
                        }
                    }
                },
                _ => {},
            }
        }
    }
}

} // verus!
