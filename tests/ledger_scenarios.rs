use anchor_lang::prelude::Pubkey;
use raffles::address::{derive_escrow_address, to_le_bytes};
use raffles::error::RafflesErrors;
use raffles::ledger::{
    admit_participant, initialize_id_counter, initialize_vault, initialize_vault_with_address,
    particpate_inf_raffle, InitializeIdCounter, InitializeVault, Ledger, ParticipateInRaffle,
};
use raffles::state::{key_eq, Key};

const PROGRAM: Key = [7u8; 32];
const CREATOR: Key = [1u8; 32];
const ALICE: Key = [10u8; 32];
const BOB: Key = [11u8; 32];
const CAROL: Key = [12u8; 32];

fn ready_ledger() -> Ledger {
    let mut l = Ledger::new(PROGRAM);
    initialize_id_counter(&mut l, &InitializeIdCounter { user: CREATOR }).unwrap();
    l
}

fn creator_at(now: u64) -> InitializeVault {
    InitializeVault { creator: CREATOR, creator_balance: 1_000_000, min_balance: 890_880, now }
}

fn user(key: Key, balance: u64, now: u64) -> ParticipateInRaffle {
    ParticipateInRaffle { user: key, user_balance: balance, now }
}

#[test]
fn capacity_two_scenario() {
    let mut l = ready_ledger();
    let id = initialize_vault(&mut l, &creator_at(100), 2, 0).unwrap();
    assert_eq!(id, 0);

    particpate_inf_raffle(&mut l, &user(ALICE, 1000, 101), 0, 100).unwrap();
    let v = l.vault(0).unwrap();
    assert_eq!(v.pool, 100);
    assert_eq!(v.participants, 1);

    particpate_inf_raffle(&mut l, &user(BOB, 1000, 102), 0, 50).unwrap();
    assert_eq!(l.vault(0).unwrap().participants, 2);

    assert_eq!(
        particpate_inf_raffle(&mut l, &user(CAROL, 1000, 103), 0, 10),
        Err(RafflesErrors::CapacityExceeded)
    );

    particpate_inf_raffle(&mut l, &user(ALICE, 1000, 104), 0, 20).unwrap();
    let v = l.vault(0).unwrap();
    assert_eq!(v.pool, 170);
    assert_eq!(v.participants, 2);
    assert_eq!(l.share(0, &ALICE).unwrap().amount, 120);
    assert_eq!(l.share(0, &BOB).unwrap().amount, 50);
    assert!(l.share(0, &CAROL).is_none());
    assert_eq!(l.escrow_balance(0), Some(170));
}

#[test]
fn close_date_not_after_creation_is_refused() {
    let mut l = ready_ledger();
    assert_eq!(initialize_vault(&mut l, &creator_at(500), 0, 500), Err(RafflesErrors::InvalidCloseDate));
    assert_eq!(initialize_vault(&mut l, &creator_at(500), 0, 499), Err(RafflesErrors::InvalidCloseDate));
    assert!(l.vault(0).is_none());
    assert_eq!(l.escrow_balance(0), None);
    assert_eq!(l.next_id(), Some(0));
    assert_eq!(initialize_vault(&mut l, &creator_at(500), 0, 501), Ok(0));
}

#[test]
fn ids_increase_by_one() {
    let mut l = ready_ledger();
    let a = initialize_vault(&mut l, &creator_at(1), 0, 0).unwrap();
    let b = initialize_vault(&mut l, &creator_at(2), 3, 10).unwrap();
    let c = initialize_vault(&mut l, &creator_at(3), 0, 0).unwrap();
    assert_eq!((a, b, c), (0, 1, 2));
    assert_eq!(l.next_id(), Some(3));
    assert_eq!(l.vault(1).unwrap().id, 1);
    assert_eq!(l.vault(1).unwrap().capacity, 3);
}

#[test]
fn counter_initialization_keeps_existing_value() {
    let mut l = Ledger::new(PROGRAM);
    assert_eq!(l.next_id(), None);
    initialize_id_counter(&mut l, &InitializeIdCounter { user: CREATOR }).unwrap();
    assert_eq!(l.next_id(), Some(0));
    initialize_vault(&mut l, &creator_at(1), 0, 0).unwrap();
    initialize_id_counter(&mut l, &InitializeIdCounter { user: CREATOR }).unwrap();
    assert_eq!(l.next_id(), Some(1));
}

#[test]
fn vault_needs_counter() {
    let mut l = Ledger::new(PROGRAM);
    assert_eq!(initialize_vault(&mut l, &creator_at(1), 0, 0), Err(RafflesErrors::CounterNotInitialized));
}

#[test]
fn same_participant_keeps_one_record() {
    let mut l = ready_ledger();
    initialize_vault(&mut l, &creator_at(1), 0, 0).unwrap();
    particpate_inf_raffle(&mut l, &user(ALICE, 1000, 2), 0, 30).unwrap();
    particpate_inf_raffle(&mut l, &user(ALICE, 1000, 3), 0, 45).unwrap();
    assert_eq!(l.share_count(), 1);
    assert_eq!(l.share(0, &ALICE).unwrap().amount, 75);
    assert_eq!(l.vault(0).unwrap().participants, 1);
    assert_eq!(l.vault(0).unwrap().pool, 75);
}

#[test]
fn records_are_kept_per_vault() {
    let mut l = ready_ledger();
    initialize_vault(&mut l, &creator_at(1), 0, 0).unwrap();
    initialize_vault(&mut l, &creator_at(1), 0, 0).unwrap();
    particpate_inf_raffle(&mut l, &user(ALICE, 1000, 2), 0, 5).unwrap();
    particpate_inf_raffle(&mut l, &user(ALICE, 1000, 2), 1, 7).unwrap();
    assert_eq!(l.share_count(), 2);
    assert_eq!(l.share(0, &ALICE).unwrap().amount, 5);
    assert_eq!(l.share(1, &ALICE).unwrap().amount, 7);
    assert_eq!(l.vault(0).unwrap().pool, 5);
    assert_eq!(l.vault(1).unwrap().pool, 7);
}

#[test]
fn deadline_closes_for_everyone() {
    let mut l = ready_ledger();
    initialize_vault(&mut l, &creator_at(10), 0, 20).unwrap();
    particpate_inf_raffle(&mut l, &user(ALICE, 1000, 19), 0, 5).unwrap();
    assert_eq!(particpate_inf_raffle(&mut l, &user(ALICE, 1000, 20), 0, 5), Err(RafflesErrors::VaultClosed));
    assert_eq!(particpate_inf_raffle(&mut l, &user(BOB, 1000, 25), 0, 5), Err(RafflesErrors::VaultClosed));
    assert_eq!(l.vault(0).unwrap().pool, 5);
}

#[test]
fn deadline_wins_over_capacity() {
    let mut l = ready_ledger();
    initialize_vault(&mut l, &creator_at(10), 1, 20).unwrap();
    particpate_inf_raffle(&mut l, &user(ALICE, 1000, 11), 0, 5).unwrap();
    assert_eq!(particpate_inf_raffle(&mut l, &user(BOB, 1000, 30), 0, 5), Err(RafflesErrors::VaultClosed));
}

#[test]
fn unknown_vault_is_refused() {
    let mut l = ready_ledger();
    assert_eq!(particpate_inf_raffle(&mut l, &user(ALICE, 1000, 1), 0, 5), Err(RafflesErrors::VaultNotFound));
    initialize_vault(&mut l, &creator_at(1), 0, 0).unwrap();
    assert_eq!(particpate_inf_raffle(&mut l, &user(ALICE, 1000, 1), 1, 5), Err(RafflesErrors::VaultNotFound));
}

#[test]
fn short_balance_is_refused_without_change() {
    let mut l = ready_ledger();
    initialize_vault(&mut l, &creator_at(1), 1, 0).unwrap();
    assert_eq!(particpate_inf_raffle(&mut l, &user(ALICE, 99, 2), 0, 100), Err(RafflesErrors::InsufficientFunds));
    assert_eq!(l.vault(0).unwrap().participants, 0);
    assert_eq!(l.share_count(), 0);
    particpate_inf_raffle(&mut l, &user(ALICE, 100, 2), 0, 100).unwrap();
    assert_eq!(l.vault(0).unwrap().pool, 100);
}

#[test]
fn pool_overflow_is_refused() {
    let mut l = ready_ledger();
    initialize_vault(&mut l, &creator_at(1), 0, 0).unwrap();
    particpate_inf_raffle(&mut l, &user(ALICE, u64::MAX, 2), 0, u64::MAX).unwrap();
    assert_eq!(particpate_inf_raffle(&mut l, &user(BOB, u64::MAX, 2), 0, 1), Err(RafflesErrors::ArithmeticOverflow));
    assert_eq!(l.vault(0).unwrap().participants, 1);
    assert_eq!(l.vault(0).unwrap().pool, u64::MAX);
}

#[test]
fn admission_reports_first_touch() {
    let mut l = ready_ledger();
    initialize_vault(&mut l, &creator_at(1), 1, 0).unwrap();
    assert_eq!(admit_participant(&l, &user(ALICE, 10, 2), 0, 10), Ok(true));
    particpate_inf_raffle(&mut l, &user(ALICE, 10, 2), 0, 10).unwrap();
    assert_eq!(admit_participant(&l, &user(ALICE, 10, 2), 0, 10), Ok(false));
    assert_eq!(admit_participant(&l, &user(BOB, 10, 2), 0, 10), Err(RafflesErrors::CapacityExceeded));
}

#[test]
fn escrow_creation_failures() {
    let mut l = ready_ledger();
    let poor = InitializeVault { creator: CREATOR, creator_balance: 10, min_balance: 11, now: 1 };
    assert_eq!(initialize_vault(&mut l, &poor, 0, 0), Err(RafflesErrors::EscrowCreationFailed));
    assert_eq!(
        initialize_vault_with_address(&mut l, &creator_at(1), 0, 0, None),
        Err(RafflesErrors::EscrowCreationFailed)
    );
    assert_eq!(initialize_vault_with_address(&mut l, &creator_at(1), 0, 0, Some(([3u8; 32], 254))), Ok(0));
    assert_eq!(
        initialize_vault_with_address(&mut l, &creator_at(1), 0, 0, Some(([3u8; 32], 250))),
        Err(RafflesErrors::EscrowCreationFailed)
    );
    assert_eq!(l.next_id(), Some(1));
    let v = l.vault(0).unwrap();
    assert_eq!(v.inventory, [3u8; 32]);
    assert_eq!(v.inventory_bump, 254);
}

#[test]
fn escrow_address_is_derived_from_creator_and_id() {
    let mut l = ready_ledger();
    initialize_vault(&mut l, &creator_at(1), 0, 0).unwrap();
    initialize_vault(&mut l, &creator_at(1), 0, 0).unwrap();
    let program = Pubkey::new_from_array(PROGRAM);
    for id in 0u64..2 {
        let (expected, bump) =
            Pubkey::find_program_address(&[b"vault", CREATOR.as_ref(), id.to_le_bytes().as_ref()], &program);
        let v = l.vault(id).unwrap();
        assert_eq!(v.inventory, expected.to_bytes());
        assert_eq!(v.inventory_bump, bump);
        assert_ne!(v.inventory, PROGRAM);
    }
    assert_ne!(l.vault(0).unwrap().inventory, l.vault(1).unwrap().inventory);
    let (a, _) = derive_escrow_address(&CREATOR, 0, &PROGRAM).unwrap();
    assert_eq!(a, l.vault(0).unwrap().inventory);
}

#[test]
fn little_endian_bytes() {
    assert_eq!(to_le_bytes(0x0102030405060708), vec![8, 7, 6, 5, 4, 3, 2, 1]);
    assert_eq!(to_le_bytes(u64::MAX), vec![255; 8]);
    assert_eq!(to_le_bytes(0), vec![0; 8]);
}

#[test]
fn key_equality() {
    assert!(key_eq(&ALICE, &ALICE));
    assert!(!key_eq(&ALICE, &BOB));
    let mut k = ALICE;
    k[31] = 0;
    assert!(!key_eq(&ALICE, &k));
}

#[test]
fn unlimited_capacity_takes_many() {
    let mut l = ready_ledger();
    initialize_vault(&mut l, &creator_at(1), 0, 0).unwrap();
    for i in 0u8..20 {
        particpate_inf_raffle(&mut l, &user([i; 32], 100, 2), 0, i as u64).unwrap();
    }
    assert_eq!(l.vault(0).unwrap().participants, 20);
    assert_eq!(l.vault(0).unwrap().pool, 190);
    assert_eq!(l.escrow_balance(0), Some(190));
}

#[test]
fn error_messages() {
    assert_eq!(RafflesErrors::InvalidCloseDate.message(), "Close date has passed!");
    assert_eq!(RafflesErrors::CapacityExceeded.message(), "This vault does not allow any more participants!");
}
