use crate::error::RafflesErrors;
use crate::ledger::{
    deposited, has_share, lemma_share_within_pool, is_closed, participation_outcome, pool_of, share_index, vault_created,
    InitializeVault, Ledger, ParticipateInRaffle,
};
use crate::state::Key;
use vstd::prelude::*;

verus! {

/// Conservation: in every well-formed ledger, each vault's pool equals the sum
/// of the amounts of its participation records, and its escrow's balance
/// equals its pool.
pub proof fn lemma_conservation(l: Ledger, id: u64)
    requires
        l.wf(),
        id < l.vaults@.len(),
    ensures
        l.vaults@[id as int].pool == pool_of(l.shares@, id),
        l.escrows@[id as int].balance == l.vaults@[id as int].pool,
{
    assert(l.vault_wf(id as int));
}

/// Ids are fresh: the id that the next vault gets is above the id of every
/// vault already created.
pub proof fn lemma_next_id_fresh(l: Ledger, ctx: InitializeVault, capacity: u32, close_at: u64, id: u64, new: Ledger, address: Seq<u8>, bump: u8)
    requires
        l.wf(),
        vault_created(l, new, ctx, capacity, close_at, id, address, bump),
    ensures
        forall|i: int| 0 <= i < l.vaults@.len() ==> #[trigger] l.vaults@[i].id < id,
        new.vaults@[id as int].id == id,
{
    assert forall|i: int| 0 <= i < l.vaults@.len() implies #[trigger] l.vaults@[i].id < id by {
        assert(l.vault_wf(i));
    }
}

/// Ids increase: of two vaults created one after the other, the second gets
/// the larger id.
pub proof fn lemma_ids_increase(
    l0: Ledger,
    l1: Ledger,
    l2: Ledger,
    ctx1: InitializeVault,
    ctx2: InitializeVault,
    capacity1: u32,
    capacity2: u32,
    close_at1: u64,
    close_at2: u64,
    id1: u64,
    id2: u64,
    address1: Seq<u8>,
    address2: Seq<u8>,
    bump1: u8,
    bump2: u8,
)
    requires
        vault_created(l0, l1, ctx1, capacity1, close_at1, id1, address1, bump1),
        vault_created(l1, l2, ctx2, capacity2, close_at2, id2, address2, bump2),
    ensures
        id1 < id2,
{
}

/// A second deposit by the same participant into the same vault adds no
/// record: it only raises the amount of the participant's one record.
pub proof fn lemma_first_touch_once(
    l0: Ledger,
    l1: Ledger,
    l2: Ledger,
    ctx1: ParticipateInRaffle,
    ctx2: ParticipateInRaffle,
    id: u64,
    amount1: u64,
    amount2: u64,
    first1: bool,
    first2: bool,
)
    requires
        l0.wf(),
        l1.wf(),
        ctx1.user == ctx2.user,
        participation_outcome(l0, ctx1, id, amount1) == Ok::<bool, RafflesErrors>(first1),
        deposited(l0, l1, ctx1.user, id, amount1, first1),
        participation_outcome(l1, ctx2, id, amount2) == Ok::<bool, RafflesErrors>(first2),
        deposited(l1, l2, ctx2.user, id, amount2, first2),
    ensures
        !first2,
        l2.shares@.len() == l1.shares@.len(),
        l2.vaults@[id as int].participants == l1.vaults@[id as int].participants,
        ({
            let k = share_index(l1.shares@, id, ctx1.user);
            &&& 0 <= k < l1.shares@.len()
            &&& l2.shares@[k].amount == l1.shares@[k].amount + amount2
            &&& forall|j: int| 0 <= j < l1.shares@.len() && j != k ==> l2.shares@[j] == l1.shares@[j]
        }),
{
    let user = ctx1.user;
    if has_share(l0.shares@, id, user) {
        let k = share_index(l0.shares@, id, user);
        assert(l1.shares@[k].vault == id && l1.shares@[k].owner@ == user@);
    } else {
        let k = l0.shares@.len() as int;
        assert(l1.shares@[k].vault == id && l1.shares@[k].owner@ == user@);
    }
    assert(has_share(l1.shares@, id, user));
    let k = share_index(l1.shares@, id, user);
    assert(l1.shares@[k].vault == id && l1.shares@[k].owner@ == user@);
    assert(l1.vault_wf(id as int));
    lemma_share_within_pool(l1.shares@, k, id);
}

/// Capacity: when a vault that is open holds as many participants as its
/// nonzero capacity, a newcomer who can pay is refused for capacity, and a
/// returning participant who can pay is admitted, as long as the pool does
/// not overflow.
pub proof fn lemma_capacity_enforced(l: Ledger, ctx: ParticipateInRaffle, id: u64, amount: u64)
    requires
        l.wf(),
        id < l.vaults@.len(),
        l.vaults@[id as int].capacity > 0,
        l.vaults@[id as int].participants == l.vaults@[id as int].capacity,
        !is_closed(l.vaults@[id as int].close_at, ctx.now),
        ctx.user_balance >= amount,
    ensures
        !has_share(l.shares@, id, ctx.user) ==> participation_outcome(l, ctx, id, amount)
            == Err::<bool, RafflesErrors>(RafflesErrors::CapacityExceeded),
        has_share(l.shares@, id, ctx.user) && l.vaults@[id as int].pool + amount <= u64::MAX
            ==> participation_outcome(l, ctx, id, amount) == Ok::<bool, RafflesErrors>(false),
{
}

/// Deadline: once the time reaches a vault's nonzero deadline, every deposit
/// into it is refused as closed, whoever makes it and however full the vault.
pub proof fn lemma_deadline_enforced(l: Ledger, ctx: ParticipateInRaffle, id: u64, amount: u64)
    requires
        id < l.vaults@.len(),
        l.vaults@[id as int].close_at > 0,
        ctx.now >= l.vaults@[id as int].close_at,
    ensures
        participation_outcome(l, ctx, id, amount) == Err::<bool, RafflesErrors>(
            RafflesErrors::VaultClosed,
        ),
{
}

} // verus!
