use navinet::access::{AccessController, Error, Event};
use navinet::catalog::Tier;
use navinet::directory::NetworkDirectory;
use navinet::ledger::Ledger;

fn network_owned_by_1() -> NetworkDirectory {
    let mut directory = NetworkDirectory::new();
    directory
        .create_network(1, true, vec![1, 2, 3])
        .expect("network creation");
    directory
}

#[test]
fn register_resource_works() {
    let directory = network_owned_by_1();
    let mut gate = AccessController::new();

    let id = gate
        .register_resource(&directory, 1, 0, vec![1, 2, 3], 1, 1000, 100, vec![], None)
        .expect("registration");
    assert_eq!(id, 0);

    assert_eq!(
        gate.events().last(),
        Some(&Event::ResourceRegistered { network_id: 0, resource_id: 0 })
    );
}

#[test]
fn stake_for_access_works() {
    let directory = network_owned_by_1();
    let mut gate = AccessController::new();
    let mut ledger = Ledger::new();

    gate.register_resource(&directory, 1, 0, vec![1, 2, 3], 1, 1000, 100, vec![], None)
        .expect("registration");

    ledger.credit(2, 1000).expect("funding");
    gate.stake_for_access(&mut ledger, &directory, 2, 0, 0, None, 1)
        .expect("staking");

    let membership = gate.get_membership(0, 2).unwrap();
    assert_eq!(membership.network_id, 0);
    assert_eq!(membership.who, 2);
    assert_eq!(membership.tier_idx, None);
}

#[test]
fn unstake_if_expired_works() {
    let directory = network_owned_by_1();
    let mut gate = AccessController::new();
    let mut ledger = Ledger::new();

    gate.register_resource(&directory, 1, 0, vec![1, 2, 3], 1, 1000, 100, vec![], None)
        .expect("registration");
    ledger.credit(2, 1000).expect("funding");
    gate.stake_for_access(&mut ledger, &directory, 2, 0, 0, None, 1)
        .expect("staking");

    // Before expiry reclamation is refused.
    assert_eq!(
        gate.unstake_if_expired(&mut ledger, 0, 2, 1),
        Err(Error::MembershipNotExpired)
    );

    // Past expiry it succeeds.
    gate.unstake_if_expired(&mut ledger, 0, 2, 200).expect("reclamation");
    assert!(gate.get_membership(0, 2).is_none());
}

#[test]
fn pay_per_use_works() {
    let directory = network_owned_by_1();
    let mut gate = AccessController::new();
    let mut ledger = Ledger::new();

    gate.register_resource(&directory, 1, 0, vec![1, 2, 3], 1, 1000, 100, vec![], Some(50))
        .expect("registration");

    ledger.credit(2, 50).expect("funding");
    gate.pay_per_use(&mut ledger, 2, 0, 0).expect("payment");

    assert_eq!(
        gate.events().last(),
        Some(&Event::PayPerUsePaid { network_id: 0, who: 2, resource_id: 0, amount: 50 })
    );
}

#[test]
fn pay_per_use_fails_when_not_enabled() {
    let directory = network_owned_by_1();
    let mut gate = AccessController::new();
    let mut ledger = Ledger::new();

    gate.register_resource(&directory, 1, 0, vec![1, 2, 3], 1, 1000, 100, vec![], None)
        .expect("registration");

    assert_eq!(
        gate.pay_per_use(&mut ledger, 2, 0, 0),
        Err(Error::PayPerUseNotEnabled)
    );
}

#[test]
fn register_resource_basic_works() {
    let directory = network_owned_by_1();
    let mut gate = AccessController::new();

    gate.register_resource(&directory, 1, 0, vec![1, 2, 3], 1, 1000, 100, vec![], Some(25))
        .expect("registration");

    let resource = gate.get_resource(0, 0).unwrap();
    assert_eq!(resource.pricing.base_stake, 1000);
    assert_eq!(resource.pricing.duration_blocks, 100);
    assert_eq!(resource.pricing.ppu, Some(25));
}

#[test]
fn resource_ids_increase_from_zero() {
    let directory = network_owned_by_1();
    let mut gate = AccessController::new();

    assert_eq!(gate.next_resource_id(0), 0);
    let first = gate
        .register_resource(&directory, 1, 0, vec![1], 1, 10, 10, vec![], None)
        .unwrap();
    let second = gate
        .register_resource(&directory, 1, 0, vec![2], 1, 20, 20, vec![], None)
        .unwrap();
    let third = gate
        .register_resource(&directory, 1, 0, vec![3], 1, 30, 30, vec![], None)
        .unwrap();
    assert_eq!(first, 0);
    assert_eq!(second, 1);
    assert_eq!(third, 2);
    assert_eq!(gate.next_resource_id(0), 3);
}

#[test]
fn failed_stake_writes_nothing() {
    let directory = network_owned_by_1();
    let mut gate = AccessController::new();
    let mut ledger = Ledger::new();

    gate.register_resource(&directory, 1, 0, vec![1, 2, 3], 1, 1000, 100, vec![], None)
        .expect("registration");
    let events_before = gate.events().len();

    // The account holds nothing, so the escrow lock is refused.
    assert_eq!(
        gate.stake_for_access(&mut ledger, &directory, 2, 0, 0, None, 1),
        Err(Error::InsufficientBalance)
    );
    assert!(gate.get_membership(0, 2).is_none());
    assert_eq!(gate.events().len(), events_before);
}

#[test]
fn stake_with_invalid_tier_index_writes_nothing() {
    let directory = network_owned_by_1();
    let mut gate = AccessController::new();
    let mut ledger = Ledger::new();

    let tiers = vec![Tier { name: b"gold".to_vec(), stake: 500, duration_blocks: 10 }];
    gate.register_resource(&directory, 1, 0, vec![1, 2, 3], 1, 1000, 100, tiers, None)
        .expect("registration");
    ledger.credit(2, 10_000).expect("funding");
    let events_before = gate.events().len();

    assert_eq!(
        gate.stake_for_access(&mut ledger, &directory, 2, 0, 0, Some(1), 1),
        Err(Error::InvalidTierIndex)
    );
    assert!(gate.get_membership(0, 2).is_none());
    assert_eq!(gate.events().len(), events_before);
    assert_eq!(ledger.balance(2), 10_000);
}

#[test]
fn stake_at_tier_uses_tier_terms() {
    let directory = network_owned_by_1();
    let mut gate = AccessController::new();
    let mut ledger = Ledger::new();

    let tiers = vec![
        Tier { name: b"silver".to_vec(), stake: 300, duration_blocks: 30 },
        Tier { name: b"gold".to_vec(), stake: 700, duration_blocks: 70 },
    ];
    gate.register_resource(&directory, 1, 0, vec![1, 2, 3], 1, 1000, 100, tiers, None)
        .expect("registration");
    ledger.credit(2, 1000).expect("funding");

    let membership = gate
        .stake_for_access(&mut ledger, &directory, 2, 0, 0, Some(1), 10)
        .expect("staking");
    assert_eq!(membership.tier_idx, Some(1));
    assert_eq!(membership.expires_at, 80);
    assert_eq!(ledger.balance(2), 300);
}

#[test]
fn stake_duration_from_base_terms() {
    // base_stake 1000, base_duration 100, no pay-per-use; staking at height 1
    // expires at 101: reclamation fails at 100 and succeeds at 101.
    let directory = network_owned_by_1();
    let mut gate = AccessController::new();
    let mut ledger = Ledger::new();

    gate.register_resource(&directory, 1, 0, vec![9], 1, 1000, 100, vec![], None)
        .expect("registration");
    ledger.credit(7, 1500).expect("funding");

    let membership = gate
        .stake_for_access(&mut ledger, &directory, 7, 0, 0, None, 1)
        .expect("staking");
    assert_eq!(membership.expires_at, 101);
    assert_eq!(ledger.balance(7), 500);

    assert_eq!(
        gate.unstake_if_expired(&mut ledger, 0, 7, 100),
        Err(Error::MembershipNotExpired)
    );
    gate.unstake_if_expired(&mut ledger, 0, 7, 101).expect("reclamation");
    assert!(gate.get_membership(0, 7).is_none());
    assert_eq!(ledger.balance(7), 1500);
    assert_eq!(
        gate.events().last(),
        Some(&Event::AccessExpired { network_id: 0, who: 7 })
    );
}

#[test]
fn pay_per_use_pays_exactly_once_per_call() {
    // ppu of 50: each call emits one PayPerUsePaid{amount: 50} and moves
    // exactly 50 to the treasury, with no membership side effect.
    let directory = network_owned_by_1();
    let mut gate = AccessController::new();
    let mut ledger = Ledger::new();

    gate.register_resource(&directory, 1, 0, vec![1], 1, 1000, 100, vec![], Some(50))
        .expect("registration");
    ledger.credit(2, 120).expect("funding");
    let treasury = NetworkDirectory::treasury_account(0);
    let events_before = gate.events().len();

    gate.pay_per_use(&mut ledger, 2, 0, 0).expect("first payment");
    assert_eq!(gate.events().len(), events_before + 1);
    assert_eq!(
        gate.events().last(),
        Some(&Event::PayPerUsePaid { network_id: 0, who: 2, resource_id: 0, amount: 50 })
    );
    assert_eq!(ledger.balance(2), 70);
    assert_eq!(ledger.balance(treasury), 50);
    assert!(gate.get_membership(0, 2).is_none());

    gate.pay_per_use(&mut ledger, 2, 0, 0).expect("second payment");
    assert_eq!(gate.events().len(), events_before + 2);
    assert_eq!(ledger.balance(2), 20);
    assert_eq!(ledger.balance(treasury), 100);
    assert!(gate.get_membership(0, 2).is_none());
}

#[test]
fn restake_releases_prior_escrow() {
    let directory = network_owned_by_1();
    let mut gate = AccessController::new();
    let mut ledger = Ledger::new();

    gate.register_resource(&directory, 1, 0, vec![1], 1, 1000, 100, vec![], None)
        .expect("registration");
    ledger.credit(2, 1000).expect("funding");

    let first = gate
        .stake_for_access(&mut ledger, &directory, 2, 0, 0, None, 1)
        .expect("first stake");
    assert_eq!(ledger.balance(2), 0);

    // Re-staking with an empty balance succeeds because the prior escrow is
    // released in the same atomic step; no value is lost or duplicated.
    let second = gate
        .stake_for_access(&mut ledger, &directory, 2, 0, 0, None, 5)
        .expect("second stake");
    assert_eq!(ledger.balance(2), 0);
    assert_eq!(second.expires_at, 105);
    assert!(ledger.escrow(first.escrow_id).is_none());
    let escrow = ledger.escrow(second.escrow_id).unwrap();
    assert_eq!(escrow.account, 2);
    assert_eq!(escrow.amount, 1000);
}

#[test]
fn register_resource_validates_bounds() {
    let directory = network_owned_by_1();
    let mut gate = AccessController::new();

    let long_cid = vec![b'x'; 257];
    assert_eq!(
        gate.register_resource(&directory, 1, 0, long_cid, 1, 1, 1, vec![], None),
        Err(Error::CidTooLong)
    );

    let long_name = vec![Tier { name: vec![b'n'; 65], stake: 1, duration_blocks: 1 }];
    assert_eq!(
        gate.register_resource(&directory, 1, 0, vec![1], 1, 1, 1, long_name, None),
        Err(Error::TierNameTooLong)
    );

    let mut many = Vec::new();
    for i in 0..11u8 {
        many.push(Tier { name: vec![i], stake: 1, duration_blocks: 1 });
    }
    assert_eq!(
        gate.register_resource(&directory, 1, 0, vec![1], 1, 1, 1, many, None),
        Err(Error::TooManyTiers)
    );

    assert!(gate.get_resource(0, 0).is_none());
    assert_eq!(gate.next_resource_id(0), 0);
    assert!(gate.events().is_empty());

    // The bounds themselves are accepted.
    let cid_at_bound = vec![b'x'; 256];
    let name_at_bound = vec![Tier { name: vec![b'n'; 64], stake: 1, duration_blocks: 1 }];
    gate.register_resource(&directory, 1, 0, cid_at_bound, 1, 1, 1, name_at_bound, None)
        .expect("registration at the bounds");
    assert_eq!(gate.get_resource(0, 0).unwrap().cid.len(), 256);
}

#[test]
fn register_resource_requires_network_owner() {
    let directory = network_owned_by_1();
    let mut gate = AccessController::new();

    assert_eq!(
        gate.register_resource(&directory, 2, 0, vec![1], 1, 1, 1, vec![], None),
        Err(Error::NotNetworkOwner)
    );
    assert_eq!(
        gate.register_resource(&directory, 1, 9, vec![1], 1, 1, 1, vec![], None),
        Err(Error::NetworkNotFound)
    );
}

#[test]
fn stake_not_found_errors() {
    let directory = network_owned_by_1();
    let mut gate = AccessController::new();
    let mut ledger = Ledger::new();

    assert_eq!(
        gate.stake_for_access(&mut ledger, &directory, 2, 0, 0, None, 1),
        Err(Error::ResourceNotFound)
    );

    gate.register_resource(&directory, 1, 0, vec![1], 1, 10, 10, vec![], None)
        .expect("registration");

    // A directory that lacks the network refuses the stake even though the
    // resource exists.
    let empty_directory = NetworkDirectory::new();
    assert_eq!(
        gate.stake_for_access(&mut ledger, &empty_directory, 2, 0, 0, None, 1),
        Err(Error::NetworkNotFound)
    );
}

#[test]
fn stake_refused_for_zero_duration() {
    let directory = network_owned_by_1();
    let mut gate = AccessController::new();
    let mut ledger = Ledger::new();

    // A zero-duration price point is registrable, but staking it would
    // record an expiry equal to the current height, so the stake is refused.
    let tiers = vec![Tier { name: b"instant".to_vec(), stake: 5, duration_blocks: 0 }];
    gate.register_resource(&directory, 1, 0, vec![1], 1, 1000, 0, tiers, None)
        .expect("registration");
    ledger.credit(2, 2000).expect("funding");
    let events_before = gate.events().len();

    assert_eq!(
        gate.stake_for_access(&mut ledger, &directory, 2, 0, 0, None, 1),
        Err(Error::ZeroDuration)
    );
    assert_eq!(
        gate.stake_for_access(&mut ledger, &directory, 2, 0, 0, Some(0), 1),
        Err(Error::ZeroDuration)
    );
    assert!(gate.get_membership(0, 2).is_none());
    assert_eq!(gate.events().len(), events_before);
    assert_eq!(ledger.balance(2), 2000);
}

#[test]
fn stake_expiry_overflow_is_refused() {
    let directory = network_owned_by_1();
    let mut gate = AccessController::new();
    let mut ledger = Ledger::new();

    gate.register_resource(&directory, 1, 0, vec![1], 1, 10, 100, vec![], None)
        .expect("registration");
    ledger.credit(2, 10).expect("funding");

    assert_eq!(
        gate.stake_for_access(&mut ledger, &directory, 2, 0, 0, None, u64::MAX),
        Err(Error::HeightOverflow)
    );
    assert!(gate.get_membership(0, 2).is_none());
    assert_eq!(ledger.balance(2), 10);
}

#[test]
fn pay_per_use_refused_without_funds() {
    let directory = network_owned_by_1();
    let mut gate = AccessController::new();
    let mut ledger = Ledger::new();

    gate.register_resource(&directory, 1, 0, vec![1], 1, 1000, 100, vec![], Some(50))
        .expect("registration");
    ledger.credit(2, 49).expect("funding");
    let events_before = gate.events().len();

    assert_eq!(
        gate.pay_per_use(&mut ledger, 2, 0, 0),
        Err(Error::InsufficientBalance)
    );
    assert_eq!(ledger.balance(2), 49);
    assert_eq!(gate.events().len(), events_before);

    assert_eq!(
        gate.pay_per_use(&mut ledger, 2, 0, 9),
        Err(Error::ResourceNotFound)
    );
}

#[test]
fn unstake_without_membership_fails() {
    let mut gate = AccessController::new();
    let mut ledger = Ledger::new();
    assert_eq!(
        gate.unstake_if_expired(&mut ledger, 0, 2, 100),
        Err(Error::MembershipNotFound)
    );
}

#[test]
fn unstake_refused_when_release_would_overflow() {
    let directory = network_owned_by_1();
    let mut gate = AccessController::new();
    let mut ledger = Ledger::new();

    gate.register_resource(&directory, 1, 0, vec![1], 1, 1000, 10, vec![], None)
        .expect("registration");
    ledger.credit(2, 1000).expect("funding");
    gate.stake_for_access(&mut ledger, &directory, 2, 0, 0, None, 1)
        .expect("staking");

    // Refill the account to the brim; releasing the escrow would overflow.
    ledger.credit(2, u128::MAX).expect("refill");
    assert_eq!(
        gate.unstake_if_expired(&mut ledger, 0, 2, 11),
        Err(Error::BalanceOverflow)
    );
    // Nothing moved: the record and the escrow are both still there.
    assert!(gate.get_membership(0, 2).is_some());
    assert_eq!(ledger.balance(2), u128::MAX);
}
