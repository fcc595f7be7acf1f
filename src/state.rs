use vstd::prelude::*;

verus! {

/// A 32-byte account identity or address.
pub type Key = [u8; 32];

/// The source of vault ids: the next id to hand out.
#[derive(Clone, Copy, Debug, PartialEq, Eq, Structural)]
pub struct IdCounter {
    pub value: u64,
}

/// One pool of deposits.
#[derive(Clone, Copy, Debug)]
pub struct Vault {
    /// The identity that created the vault.
    pub authority: Key,
    /// The sum of all deposits into the vault.
    pub pool: u64,
    /// How many distinct participants have deposited.
    pub participants: u32,
    /// The most participants admitted; zero for no limit.
    pub capacity: u32,
    /// The deadline; zero for none.
    pub close_at: u64,
    /// When the vault was created.
    pub created_at: u64,
    /// The vault's id, taken from the counter.
    pub id: u64,
    /// The address of the vault's escrow account.
    pub inventory: Key,
    /// The bump seed that completed the escrow address.
    pub inventory_bump: u8,
}

/// What one participant has deposited into one vault.
#[derive(Clone, Copy, Debug)]
pub struct VaultShare {
    pub owner: Key,
    pub vault: u64,
    pub amount: u64,
}

/// The account that holds a vault's deposits.
#[derive(Clone, Copy, Debug)]
pub struct Escrow {
    pub address: Key,
    pub balance: u64,
}

/// Whether two keys hold the same bytes.
pub fn key_eq(a: &Key, b: &Key) -> (r: bool)
    ensures
        r == (a@ == b@),
{
    let mut i: usize = 0;
    while i < 32
        invariant
            i <= 32,
            a@.len() == 32,
            b@.len() == 32,
            forall|j: int| 0 <= j < i ==> a@[j] == b@[j],
        decreases 32 - i,
    {
        if a[i] != b[i] {
            return false;
        }
        i = i + 1;
    }
    assert(a@ =~= b@);
    true
}

} // verus!
