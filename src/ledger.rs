use crate::address::{derive_escrow_address, derived_view, escrow_seeds, program_address_of};
use crate::error::RafflesErrors;
use crate::state::{key_eq, Escrow, IdCounter, Key, Vault, VaultShare};
use vstd::prelude::*;

verus! {

/// The state of all vaults of one program: the id counter, the vaults and
/// their escrows (vault `i` and escrow `i` belong together), and the
/// participation records.
pub struct Ledger {
    pub program_id: Key,
    pub counter: Option<IdCounter>,
    pub vaults: Vec<Vault>,
    pub escrows: Vec<Escrow>,
    pub shares: Vec<VaultShare>,
}

/// What the runtime supplies to the counter's initialization.
#[derive(Clone, Copy, Debug)]
pub struct InitializeIdCounter {
    /// The identity that pays for the counter.
    pub user: Key,
}

/// What the runtime supplies to the creation of a vault.
#[derive(Clone, Copy, Debug)]
pub struct InitializeVault {
    /// The identity that creates the vault, already authenticated.
    pub creator: Key,
    /// The creator's available balance.
    pub creator_balance: u64,
    /// The balance an account needs to exist.
    pub min_balance: u64,
    /// The current time.
    pub now: u64,
}

/// What the runtime supplies to a deposit.
#[derive(Clone, Copy, Debug)]
pub struct ParticipateInRaffle {
    /// The depositing identity, already authenticated.
    pub user: Key,
    /// The depositor's available balance.
    pub user_balance: u64,
    /// The current time.
    pub now: u64,
}

/// What the shares with `vault == id` add up to.
pub open spec fn pool_of(shares: Seq<VaultShare>, id: u64) -> int
    decreases shares.len(),
{
    if shares.len() == 0 {
        0
    } else {
        pool_of(shares.drop_last(), id) + if shares.last().vault == id {
            shares.last().amount as int
        } else {
            0
        }
    }
}

/// How many shares have `vault == id`.
pub open spec fn participants_of(shares: Seq<VaultShare>, id: u64) -> int
    decreases shares.len(),
{
    if shares.len() == 0 {
        0
    } else {
        participants_of(shares.drop_last(), id) + if shares.last().vault == id {
            1int
        } else {
            0
        }
    }
}

/// Whether `s` is the record of `owner` in vault `id`.
pub open spec fn is_share_of(s: VaultShare, id: u64, owner: Key) -> bool {
    s.vault == id && s.owner@ == owner@
}

/// Whether `owner` has a record in vault `id`.
pub open spec fn has_share(shares: Seq<VaultShare>, id: u64, owner: Key) -> bool {
    exists|k: int| 0 <= k < shares.len() && is_share_of(#[trigger] shares[k], id, owner)
}

/// The position of the record of `owner` in vault `id`, where there is one.
pub open spec fn share_index(shares: Seq<VaultShare>, id: u64, owner: Key) -> int {
    choose|k: int| 0 <= k < shares.len() && is_share_of(#[trigger] shares[k], id, owner)
}

/// Whether a vault with deadline `close_at` is closed at time `now`.
pub open spec fn is_closed(close_at: u64, now: u64) -> bool {
    close_at != 0 && now >= close_at
}

/// Whether a vault admits no new participant.
pub open spec fn is_full(v: Vault) -> bool {
    v.capacity != 0 && v.participants >= v.capacity
}

/// Whether a deadline is acceptable for a vault created at `created_at`.
pub open spec fn valid_close_at(close_at: u64, created_at: u64) -> bool {
    close_at == 0 || close_at > created_at
}

impl Ledger {
    /// The invariant of the vault `i`.
    pub open spec fn vault_wf(&self, i: int) -> bool {
        let v = self.vaults@[i];
        &&& v.id == i
        &&& valid_close_at(v.close_at, v.created_at)
        &&& v.capacity == 0 || v.participants <= v.capacity
        &&& v.participants == participants_of(self.shares@, i as u64)
        &&& v.pool == pool_of(self.shares@, i as u64)
        &&& self.escrows@[i].balance == v.pool
        &&& self.escrows@[i].address == v.inventory
    }

    /// The ledger's invariant: vault `i` has id `i`, the counter holds the
    /// number of vaults, each vault's totals match its records and its escrow,
    /// each record belongs to a vault, no two records share a vault and an
    /// owner, and no two escrows share an address.
    pub open spec fn wf(&self) -> bool {
        &&& self.vaults@.len() == self.escrows@.len()
        &&& match self.counter {
            None => self.vaults@.len() == 0,
            Some(c) => c.value == self.vaults@.len(),
        }
        &&& forall|i: int| 0 <= i < self.vaults@.len() ==> #[trigger] self.vault_wf(i)
        &&& forall|k: int| 0 <= k < self.shares@.len() ==> #[trigger] self.shares@[k].vault < self.vaults@.len()
        &&& forall|k1: int, k2: int|
            0 <= k1 < self.shares@.len() && 0 <= k2 < self.shares@.len() && k1 != k2
                && #[trigger] self.shares@[k1].vault == #[trigger] self.shares@[k2].vault
                ==> self.shares@[k1].owner@ != self.shares@[k2].owner@
        &&& forall|i1: int, i2: int|
            0 <= i1 < self.escrows@.len() && 0 <= i2 < self.escrows@.len() && i1 != i2
                ==> #[trigger] self.escrows@[i1].address@ != #[trigger] self.escrows@[i2].address@
    }

    /// An empty ledger for the program `program_id`, without a counter.
    pub fn new(program_id: Key) -> (r: Ledger)
        ensures
            r.wf(),
            r.program_id == program_id,
            r.counter is None,
            r.vaults@.len() == 0,
            r.shares@.len() == 0,
    {
        Ledger {
            program_id,
            counter: None,
            vaults: Vec::new(),
            escrows: Vec::new(),
            shares: Vec::new(),
        }
    }
}


/// Whether some escrow already has the address `a`.
pub open spec fn address_in_use(escrows: Seq<Escrow>, a: Seq<u8>) -> bool {
    exists|i: int| 0 <= i < escrows.len() && (#[trigger] escrows[i]).address@ == a
}

/// The escrow address, with its bump seed, that the next vault of `creator`
/// gets; `None` without a counter.
pub open spec fn next_escrow_address(l: Ledger, creator: Key) -> Option<(Seq<u8>, u8)> {
    match l.counter {
        Some(c) => program_address_of(escrow_seeds(creator@, c.value), l.program_id@),
        None => None,
    }
}

/// What creating a vault returns: the new vault's id, or why it is refused.
/// `derived` is the escrow address, with its bump seed, derived for the new
/// vault.
pub open spec fn vault_creation_outcome(
    l: Ledger,
    ctx: InitializeVault,
    capacity: u32,
    close_at: u64,
    derived: Option<(Seq<u8>, u8)>,
) -> Result<u64, RafflesErrors> {
    match l.counter {
        None => Err(RafflesErrors::CounterNotInitialized),
        Some(c) => if !valid_close_at(close_at, ctx.now) {
            Err(RafflesErrors::InvalidCloseDate)
        } else if c.value == u64::MAX {
            Err(RafflesErrors::ArithmeticOverflow)
        } else {
            match derived {
                None => Err(RafflesErrors::EscrowCreationFailed),
                Some((a, _)) => if address_in_use(l.escrows@, a) || ctx.creator_balance
                    < ctx.min_balance {
                    Err(RafflesErrors::EscrowCreationFailed)
                } else {
                    Ok(c.value)
                },
            }
        },
    }
}

/// `new` is `old` with the vault `id` added: the counter moved from `id` to
/// `id + 1`, the vault appended with empty totals, and its escrow appended
/// with a zero balance at `address`.
pub open spec fn vault_created(
    old: Ledger,
    new: Ledger,
    ctx: InitializeVault,
    capacity: u32,
    close_at: u64,
    id: u64,
    address: Seq<u8>,
    bump: u8,
) -> bool {
    let n = old.vaults@.len() as int;
    let v = new.vaults@[n];
    &&& id < u64::MAX
    &&& old.counter == Some(IdCounter { value: id })
    &&& new.counter == Some(IdCounter { value: (id + 1) as u64 })
    &&& new.program_id == old.program_id
    &&& new.vaults@.len() == n + 1
    &&& new.vaults@.subrange(0, n) == old.vaults@
    &&& v.id == id
    &&& v.authority == ctx.creator
    &&& v.pool == 0
    &&& v.participants == 0
    &&& v.capacity == capacity
    &&& v.close_at == close_at
    &&& v.created_at == ctx.now
    &&& v.inventory@ == address
    &&& v.inventory_bump == bump
    &&& new.escrows@ == old.escrows@.push(Escrow { address: v.inventory, balance: 0 })
    &&& new.shares@ == old.shares@
}

/// Records with no vault at or above `n` add nothing to vault `n`.
proof fn lemma_no_shares_of(shares: Seq<VaultShare>, n: u64)
    requires
        forall|k: int| 0 <= k < shares.len() ==> #[trigger] shares[k].vault < n,
    ensures
        pool_of(shares, n) == 0,
        participants_of(shares, n) == 0,
    decreases shares.len(),
{
    if shares.len() > 0 {
        lemma_no_shares_of(shares.drop_last(), n);
    }
}

/// Whether an escrow already has the address `a`.
fn escrow_address_taken(escrows: &Vec<Escrow>, a: &Key) -> (r: bool)
    ensures
        r == address_in_use(escrows@, a@),
{
    let mut i: usize = 0;
    while i < escrows.len()
        invariant
            i <= escrows@.len(),
            forall|j: int| 0 <= j < i ==> (#[trigger] escrows@[j]).address@ != a@,
        decreases escrows@.len() - i,
    {
        if key_eq(&escrows[i].address, a) {
            return true;
        }
        i = i + 1;
    }
    false
}

/// Creates a vault whose escrow gets the address and bump seed `derived`:
/// assigns it the counter's value as id, advances the counter, and appends the
/// vault and its empty escrow. On any error the ledger is left unchanged.
pub fn initialize_vault_with_address(
    ledger: &mut Ledger,
    ctx: &InitializeVault,
    capacity: u32,
    close_at: u64,
    derived: Option<(Key, u8)>,
) -> (r: Result<u64, RafflesErrors>)
    requires
        old(ledger).wf(),
    ensures
        r == vault_creation_outcome(*old(ledger), *ctx, capacity, close_at, derived_view(derived)),
        final(ledger).wf(),
        r is Err ==> *final(ledger) == *old(ledger),
        r matches Ok(id) ==> vault_created(
            *old(ledger),
            *final(ledger),
            *ctx,
            capacity,
            close_at,
            id,
            derived->Some_0.0@,
            derived->Some_0.1,
        ),
{
    let c = match ledger.counter {
        None => {
            return Err(RafflesErrors::CounterNotInitialized);
        },
        Some(c) => c,
    };
    let created_at = ctx.now;
    if !(close_at == 0 || close_at > created_at) {
        return Err(RafflesErrors::InvalidCloseDate);
    }
    if c.value == u64::MAX {
        return Err(RafflesErrors::ArithmeticOverflow);
    }
    let (address, bump) = match derived {
        None => {
            return Err(RafflesErrors::EscrowCreationFailed);
        },
        Some(d) => d,
    };
    if escrow_address_taken(&ledger.escrows, &address) || ctx.creator_balance < ctx.min_balance {
        return Err(RafflesErrors::EscrowCreationFailed);
    }
    let id = c.value;
    let vault = Vault {
        authority: ctx.creator,
        pool: 0,
        participants: 0,
        capacity,
        close_at,
        created_at,
        id,
        inventory: address,
        inventory_bump: bump,
    };
    proof {
        lemma_no_shares_of(ledger.shares@, id);
    }
    let ghost prev = *ledger;
    ledger.counter = Some(IdCounter { value: id + 1 });
    ledger.vaults.push(vault);
    ledger.escrows.push(Escrow { address, balance: 0 });
    proof {
        assert(ledger.vaults@.subrange(0, prev.vaults@.len() as int) =~= prev.vaults@);
        assert forall|i: int| 0 <= i < ledger.vaults@.len() implies #[trigger] ledger.vault_wf(i) by {
            if i < prev.vaults@.len() {
                assert(prev.vault_wf(i));
            }
        }
    }
    Ok(id)
}

/// Creates a vault for `ctx.creator` with the given capacity (zero for no
/// limit) and deadline (zero for none), created at `ctx.now`, and returns its
/// id. Its escrow address is derived from the creator and the new id.
pub fn initialize_vault(ledger: &mut Ledger, ctx: &InitializeVault, capacity: u32, close_at: u64) -> (r: Result<u64, RafflesErrors>)
    requires
        old(ledger).wf(),
    ensures
        r == vault_creation_outcome(
            *old(ledger),
            *ctx,
            capacity,
            close_at,
            next_escrow_address(*old(ledger), ctx.creator),
        ),
        final(ledger).wf(),
        r is Err ==> *final(ledger) == *old(ledger),
        r matches Ok(id) ==> vault_created(
            *old(ledger),
            *final(ledger),
            *ctx,
            capacity,
            close_at,
            id,
            next_escrow_address(*old(ledger), ctx.creator)->Some_0.0,
            next_escrow_address(*old(ledger), ctx.creator)->Some_0.1,
        ),
{
    match ledger.counter {
        None => Err(RafflesErrors::CounterNotInitialized),
        Some(c) => {
            let derived = derive_escrow_address(&ctx.creator, c.value, &ledger.program_id);
            initialize_vault_with_address(ledger, ctx, capacity, close_at, derived)
        },
    }
}


/// Creates the id counter at zero where there is none; leaves an existing
/// counter as it is.
pub fn initialize_id_counter(ledger: &mut Ledger, ctx: &InitializeIdCounter) -> (r: Result<(), RafflesErrors>)
    requires
        old(ledger).wf(),
    ensures
        r is Ok,
        final(ledger).wf(),
        old(ledger).counter is Some ==> *final(ledger) == *old(ledger),
        old(ledger).counter is None ==> *final(ledger) == (Ledger {
            counter: Some(IdCounter { value: 0 }),
            ..*old(ledger)
        }),
{
    if ledger.counter.is_none() {
        ledger.counter = Some(IdCounter { value: 0 });
    }
    Ok(())
}

/// What a deposit of `amount` into vault `id` returns: whether it is the
/// depositor's first, or why it is refused.
pub open spec fn participation_outcome(
    l: Ledger,
    ctx: ParticipateInRaffle,
    id: u64,
    amount: u64,
) -> Result<bool, RafflesErrors> {
    if id >= l.vaults@.len() {
        Err(RafflesErrors::VaultNotFound)
    } else {
        let v = l.vaults@[id as int];
        let first = !has_share(l.shares@, id, ctx.user);
        if is_closed(v.close_at, ctx.now) {
            Err(RafflesErrors::VaultClosed)
        } else if ctx.user_balance < amount {
            Err(RafflesErrors::InsufficientFunds)
        } else if first && is_full(v) {
            Err(RafflesErrors::CapacityExceeded)
        } else if v.pool + amount > u64::MAX || (first && v.participants == u32::MAX) {
            Err(RafflesErrors::ArithmeticOverflow)
        } else {
            Ok(first)
        }
    }
}

/// The vault `v` after a deposit of `amount`; `first` when the depositor is new.
pub open spec fn deposited_vault(v: Vault, amount: u64, first: bool) -> Vault {
    Vault {
        pool: (v.pool + amount) as u64,
        participants: if first {
            (v.participants + 1) as u32
        } else {
            v.participants
        },
        ..v
    }
}

/// The records after `owner` deposits `amount` into vault `id`: the owner's
/// record grows by `amount`, or a record holding `amount` is appended.
pub open spec fn deposited_shares(shares: Seq<VaultShare>, id: u64, owner: Key, amount: u64) -> Seq<
    VaultShare,
> {
    if has_share(shares, id, owner) {
        let k = share_index(shares, id, owner);
        shares.update(k, VaultShare { amount: (shares[k].amount + amount) as u64, ..shares[k] })
    } else {
        shares.push(VaultShare { owner, vault: id, amount })
    }
}

/// `new` is `old` after `owner` deposited `amount` into vault `id`: the vault's
/// totals, its escrow's balance and the owner's record grow by `amount`, and
/// nothing else changes.
pub open spec fn deposited(old: Ledger, new: Ledger, owner: Key, id: u64, amount: u64, first: bool) -> bool {
    let i = id as int;
    &&& new.program_id == old.program_id
    &&& new.counter == old.counter
    &&& new.vaults@ == old.vaults@.update(i, deposited_vault(old.vaults@[i], amount, first))
    &&& new.escrows@ == old.escrows@.update(
        i,
        Escrow { balance: (old.escrows@[i].balance + amount) as u64, ..old.escrows@[i] },
    )
    &&& new.shares@ == deposited_shares(old.shares@, id, owner, amount)
}

/// What a record contributes to the totals of vault `id`.
pub open spec fn contribution(s: VaultShare, id: u64) -> int {
    if s.vault == id {
        s.amount as int
    } else {
        0
    }
}

proof fn lemma_push_totals(shares: Seq<VaultShare>, x: VaultShare, id: u64)
    ensures
        pool_of(shares.push(x), id) == pool_of(shares, id) + contribution(x, id),
        participants_of(shares.push(x), id) == participants_of(shares, id) + if x.vault == id {
            1int
        } else {
            0
        },
{
    assert(shares.push(x).drop_last() =~= shares);
}

proof fn lemma_update_totals(shares: Seq<VaultShare>, k: int, x: VaultShare, id: u64)
    requires
        0 <= k < shares.len(),
        x.vault == shares[k].vault,
    ensures
        pool_of(shares.update(k, x), id) == pool_of(shares, id) - contribution(shares[k], id)
            + contribution(x, id),
        participants_of(shares.update(k, x), id) == participants_of(shares, id),
    decreases shares.len(),
{
    let u = shares.update(k, x);
    if k == shares.len() - 1 {
        assert(u.drop_last() =~= shares.drop_last());
    } else {
        assert(u.drop_last() =~= shares.drop_last().update(k, x));
        lemma_update_totals(shares.drop_last(), k, x, id);
    }
}

pub proof fn lemma_share_within_pool(shares: Seq<VaultShare>, k: int, id: u64)
    requires
        0 <= k < shares.len(),
        shares[k].vault == id,
    ensures
        shares[k].amount <= pool_of(shares, id),
    decreases shares.len(),
{
    lemma_pool_nonneg(shares.drop_last(), id);
    if k < shares.len() - 1 {
        lemma_share_within_pool(shares.drop_last(), k, id);
    }
}

pub proof fn lemma_pool_nonneg(shares: Seq<VaultShare>, id: u64)
    ensures
        pool_of(shares, id) >= 0,
    decreases shares.len(),
{
    if shares.len() > 0 {
        lemma_pool_nonneg(shares.drop_last(), id);
    }
}

/// Under the ledger's invariant a found record is the one `share_index` names.
proof fn lemma_share_index_unique(l: Ledger, id: u64, owner: Key, k: int)
    requires
        l.wf(),
        0 <= k < l.shares@.len(),
        is_share_of(l.shares@[k], id, owner),
    ensures
        has_share(l.shares@, id, owner),
        share_index(l.shares@, id, owner) == k,
{
    let j = share_index(l.shares@, id, owner);
    assert(is_share_of(l.shares@[j], id, owner));
}

/// The position of the record of `owner` in vault `id`, if there is one.
fn find_share(shares: &Vec<VaultShare>, id: u64, owner: &Key) -> (r: Option<usize>)
    ensures
        match r {
            Some(k) => k < shares@.len() && is_share_of(shares@[k as int], id, *owner),
            None => !has_share(shares@, id, *owner),
        },
{
    let mut i: usize = 0;
    while i < shares.len()
        invariant
            i <= shares@.len(),
            forall|j: int| 0 <= j < i ==> !is_share_of(#[trigger] shares@[j], id, *owner),
        decreases shares@.len() - i,
    {
        if shares[i].vault == id && key_eq(&shares[i].owner, owner) {
            return Some(i);
        }
        i = i + 1;
    }
    None
}

/// Decides whether `ctx.user` may deposit `amount` into vault `vault_id`, without
/// changing anything: `Ok(true)` for a first deposit, `Ok(false)` for a
/// returning participant, or the reason for refusal.
pub fn admit_participant(ledger: &Ledger, ctx: &ParticipateInRaffle, vault_id: u64, amount: u64) -> (r: Result<bool, RafflesErrors>)
    requires
        ledger.wf(),
    ensures
        r == participation_outcome(*ledger, *ctx, vault_id, amount),
{
    if vault_id >= ledger.vaults.len() as u64 {
        return Err(RafflesErrors::VaultNotFound);
    }
    let v = ledger.vaults[vault_id as usize];
    if v.close_at != 0 && ctx.now >= v.close_at {
        return Err(RafflesErrors::VaultClosed);
    }
    if ctx.user_balance < amount {
        return Err(RafflesErrors::InsufficientFunds);
    }
    let first = find_share(&ledger.shares, vault_id, &ctx.user).is_none();
    if first && v.capacity != 0 && v.participants >= v.capacity {
        return Err(RafflesErrors::CapacityExceeded);
    }
    if v.pool > u64::MAX - amount || (first && v.participants == u32::MAX) {
        return Err(RafflesErrors::ArithmeticOverflow);
    }
    Ok(first)
}

/// Deposits `amount` from `ctx.user` into vault `vault_id`: on a first deposit,
/// after the capacity check, the depositor's record is created and the vault
/// counts one more participant; then the vault's pool, its escrow's balance
/// and the record grow by `amount`. On any error the ledger is left unchanged.
pub fn particpate_inf_raffle(ledger: &mut Ledger, ctx: &ParticipateInRaffle, vault_id: u64, amount: u64) -> (r: Result<(), RafflesErrors>)
    requires
        old(ledger).wf(),
    ensures
        final(ledger).wf(),
        match participation_outcome(*old(ledger), *ctx, vault_id, amount) {
            Ok(first) => r is Ok && deposited(*old(ledger), *final(ledger), ctx.user, vault_id, amount, first),
            Err(e) => r == Err::<(), RafflesErrors>(e) && *final(ledger) == *old(ledger),
        },
{
    let first = match admit_participant(ledger, ctx, vault_id, amount) {
        Err(e) => {
            return Err(e);
        },
        Ok(first) => first,
    };
    let ghost prev = *ledger;
    let n: usize = ledger.vaults.len();
    assert(vault_id < n);
    let i = vault_id as usize;
    let v = ledger.vaults[i];
    let e = ledger.escrows[i];
    proof {
        assert(prev.vault_wf(i as int));
    }
    match find_share(&ledger.shares, vault_id, &ctx.user) {
        Some(k) => {
            let s = ledger.shares[k];
            proof {
                lemma_share_index_unique(prev, vault_id, ctx.user, k as int);
                lemma_share_within_pool(prev.shares@, k as int, vault_id);
            }
            let ns = VaultShare { amount: s.amount + amount, ..s };
            ledger.shares.set(k, ns);
            proof {
                assert forall|j: int| 0 <= j < prev.vaults@.len() implies
                    #[trigger] pool_of(ledger.shares@, j as u64) == pool_of(prev.shares@, j as u64)
                        + if j == vault_id { amount as int } else { 0 }
                    && participants_of(ledger.shares@, j as u64) == participants_of(prev.shares@, j as u64) by {
                    lemma_update_totals(prev.shares@, k as int, ns, j as u64);
                }
            }
        },
        None => {
            let ns = VaultShare { owner: ctx.user, vault: vault_id, amount };
            ledger.shares.push(ns);
            proof {
                assert forall|j: int| 0 <= j < prev.vaults@.len() implies
                    #[trigger] pool_of(ledger.shares@, j as u64) == pool_of(prev.shares@, j as u64)
                        + if j == vault_id { amount as int } else { 0 }
                    && participants_of(ledger.shares@, j as u64) == participants_of(prev.shares@, j as u64)
                        + if j == vault_id { 1int } else { 0 } by {
                    lemma_push_totals(prev.shares@, ns, j as u64);
                }
                assert forall|k1: int, k2: int|
                    0 <= k1 < ledger.shares@.len() && 0 <= k2 < ledger.shares@.len() && k1 != k2
                        && #[trigger] ledger.shares@[k1].vault == #[trigger] ledger.shares@[k2].vault
                        implies ledger.shares@[k1].owner@ != ledger.shares@[k2].owner@ by {
                    if k1 < prev.shares@.len() && k2 < prev.shares@.len() {
                    } else if k1 < prev.shares@.len() {
                        assert(!is_share_of(prev.shares@[k1], vault_id, ctx.user));
                    } else {
                        assert(!is_share_of(prev.shares@[k2], vault_id, ctx.user));
                    }
                }
            }
        },
    }
    let participants = if first {
        v.participants + 1
    } else {
        v.participants
    };
    ledger.vaults.set(i, Vault { pool: v.pool + amount, participants, ..v });
    ledger.escrows.set(i, Escrow { balance: e.balance + amount, ..e });
    proof {
        assert forall|j: int| 0 <= j < ledger.vaults@.len() implies #[trigger] ledger.vault_wf(j) by {
            assert(prev.vault_wf(j));
            assert(pool_of(ledger.shares@, j as u64) == pool_of(prev.shares@, j as u64)
                + if j == vault_id { amount as int } else { 0 });
        }
        assert(ledger.shares@ =~= deposited_shares(prev.shares@, vault_id, ctx.user, amount));
    }
    Ok(())
}

impl Ledger {
    /// The next id to hand out, if the counter exists.
    pub fn next_id(&self) -> (r: Option<u64>)
        ensures
            r == match self.counter {
                Some(c) => Some(c.value),
                None => None::<u64>,
            },
    {
        match self.counter {
            Some(c) => Some(c.value),
            None => None,
        }
    }

    /// The vault with id `id`, if there is one.
    pub fn vault(&self, id: u64) -> (r: Option<Vault>)
        requires
            self.wf(),
        ensures
            id < self.vaults@.len() ==> r == Some(self.vaults@[id as int]),
            id >= self.vaults@.len() ==> r is None,
    {
        if id < self.vaults.len() as u64 {
            Some(self.vaults[id as usize])
        } else {
            None
        }
    }

    /// The balance of the escrow of vault `id`, if there is such a vault.
    pub fn escrow_balance(&self, id: u64) -> (r: Option<u64>)
        requires
            self.wf(),
        ensures
            id < self.vaults@.len() ==> r == Some(self.escrows@[id as int].balance),
            id >= self.vaults@.len() ==> r is None,
    {
        if id < self.escrows.len() as u64 {
            Some(self.escrows[id as usize].balance)
        } else {
            None
        }
    }

    /// The record of `owner` in vault `id`, if there is one.
    pub fn share(&self, id: u64, owner: &Key) -> (r: Option<VaultShare>)
        requires
            self.wf(),
        ensures
            has_share(self.shares@, id, *owner) ==> r == Some(
                self.shares@[share_index(self.shares@, id, *owner)],
            ),
            !has_share(self.shares@, id, *owner) ==> r is None,
    {
        match find_share(&self.shares, id, owner) {
            Some(k) => {
                proof {
                    lemma_share_index_unique(*self, id, *owner, k as int);
                }
                Some(self.shares[k])
            },
            None => None,
        }
    }

    /// How many participation records the ledger holds, over all vaults.
    pub fn share_count(&self) -> (r: usize)
        ensures
            r == self.shares@.len(),
    {
        self.shares.len()
    }
}

} // verus!
