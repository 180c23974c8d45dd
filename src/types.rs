use vstd::prelude::*;

verus! {

/// Amounts in the ledger's smallest unit.
pub type Balance = u128;

/// Block heights and block counts.
pub type BlockNumber = u32;

/// Smallest units in one thousandth of a cent.
pub const MILLICENTS: Balance = 10_000_000_000_000;

/// Smallest units in one cent.
pub const CENTS: Balance = 1_000 * MILLICENTS;

/// Smallest units in one whole token.
pub const DOLLARS: Balance = 100 * CENTS;

/// Blocks produced in one minute (six-second blocks).
pub const MINUTES: BlockNumber = 10;

/// Blocks produced in one hour.
pub const HOURS: BlockNumber = 60 * MINUTES;

/// Blocks produced in one day.
pub const DAYS: BlockNumber = 24 * HOURS;

/// A 32-byte account identifier, derived from a public key.
#[derive(Clone, Copy, Debug, PartialEq, Eq)]
pub struct AccountId {
    pub bytes: [u8; 32],
}

/// A 32-byte public key of one authority role (block authoring, finality
/// voting or liveness attestation).
#[derive(Clone, Copy, Debug, PartialEq, Eq)]
pub struct AuthorityKey {
    pub bytes: [u8; 32],
}

/// The three role keys that a validator registers for its sessions.
#[derive(Clone, Copy, Debug, PartialEq, Eq)]
pub struct SessionKeys {
    pub aura: AuthorityKey,
    pub grandpa: AuthorityKey,
    pub im_online: AuthorityKey,
}

/// The identities of one validator: stash account, controller account and
/// session keys.
#[derive(Clone, Copy, Debug, PartialEq, Eq)]
pub struct AuthorityKeys {
    pub stash: AccountId,
    pub controller: AccountId,
    pub keys: SessionKeys,
}

/// A validator of a public network: its identities and the balance credited to
/// its stash.
#[derive(Clone, Copy, Debug, PartialEq, Eq)]
pub struct ValidatorRecord {
    pub stash: AccountId,
    pub controller: AccountId,
    pub keys: SessionKeys,
    pub stake: Balance,
}

/// A vesting schedule: `locked` is released linearly over `duration` blocks
/// from block `start` on.
#[derive(Clone, Copy, Debug, PartialEq, Eq)]
pub struct VestingEntry {
    pub who: AccountId,
    pub start: BlockNumber,
    pub duration: BlockNumber,
    pub locked: Balance,
}

/// The two lists of the allocation record.
#[derive(Clone, Copy, Debug, PartialEq, Eq)]
pub enum AllocationSection {
    Balances,
    Vesting,
}

/// Why the genesis state could not be built. Every one of them aborts the
/// construction: there is no partial genesis.
#[derive(Clone, Copy, Debug, PartialEq, Eq)]
pub enum GenesisError {
    /// A profile was given inputs it cannot be built from (no authorities).
    ConfigurationError,
    /// The allocation file could not be read.
    AllocationIOError,
    /// The allocation file is not a well-formed allocation record.
    AllocationParseError,
    /// A field of the allocation record at this position does not decode:
    /// a key that is not 64 hex digits, a number that is not decimal or out of
    /// range, or a vesting duration of zero.
    AllocationFieldDecodeError { section: AllocationSection, record: usize },
    /// A seed phrase that the key derivation does not accept.
    InvalidSeedEncoding,
    /// A validator whose stake cannot cover the balance kept unbonded.
    StakeBelowReserve { validator: usize },
    /// A validator whose stash account is also its controller account.
    StashIsController { validator: usize },
    /// A validator that shares an authority key with an earlier one.
    DuplicateAuthorityKey { validator: usize },
    /// A validator account without a positive balance entry.
    UnfundedValidator { validator: usize },
    /// An account that the genesis state names but the account index lacks.
    UnindexedAccount { account: AccountId },
    /// A vesting entry that locks more than its account is credited.
    VestingExceedsBalance { record: usize },
}

/// Whether two byte arrays are equal.
pub fn same_bytes(a: &[u8; 32], b: &[u8; 32]) -> (r: bool)
    ensures
        r == (*a == *b),
{
    let mut i: usize = 0;
    while i < 32
        invariant
            0 <= i <= 32,
            forall|j: int| 0 <= j < i ==> a[j] == b[j],
        decreases 32 - i,
    {
        if a[i] != b[i] {
            proof {
                broadcast use vstd::array::group_array_axioms;
            }
            return false;
        }
        i = i + 1;
    }
    proof {
        broadcast use vstd::array::group_array_axioms;
        assert(*a =~= *b);
    }
    true
}

} // verus!
