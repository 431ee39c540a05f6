use navinet::basket::{Error, Event, ServiceBaskets, INDEX_SCALE};

#[test]
fn set_weights_works() {
    let mut baskets = ServiceBaskets::new();

    let weights = vec![
        (b"ID".to_vec(), 300_000),
        (b"FILE".to_vec(), 500_000),
        (b"GOLEM".to_vec(), 200_000),
    ];

    baskets.set_weights(1, 1, weights).expect("setting weights");

    let basket = baskets.get(1).unwrap();
    assert_eq!(basket.weights.len(), 3);

    assert_eq!(baskets.events().last(), Some(&Event::WeightsUpdated { network_id: 1 }));
}

#[test]
fn set_weights_fails_when_sum_exceeds_one() {
    let mut baskets = ServiceBaskets::new();

    let weights = vec![(b"ID".to_vec(), 600_000), (b"FILE".to_vec(), 500_000)];

    assert_eq!(
        baskets.set_weights(1, 1, weights),
        Err(Error::WeightSumExceedsOne)
    );
    assert!(baskets.get(1).is_none());
    assert!(baskets.events().is_empty());
}

#[test]
fn add_proof_works() {
    let mut baskets = ServiceBaskets::new();

    let weights = vec![(b"ID".to_vec(), 500_000)];
    baskets.set_weights(1, 1, weights).expect("setting weights");

    baskets
        .add_proof(1, 1, b"QmTest123".to_vec())
        .expect("adding proof");

    let basket = baskets.get(1).unwrap();
    assert_eq!(basket.proofs.len(), 1);

    assert_eq!(baskets.events().last(), Some(&Event::ProofAdded { network_id: 1 }));
}

#[test]
fn add_proof_fails_when_basket_not_found() {
    let mut baskets = ServiceBaskets::new();

    assert_eq!(
        baskets.add_proof(1, 999, b"QmTest".to_vec()),
        Err(Error::BasketNotFound)
    );
}

#[test]
fn recompute_index_works() {
    let mut baskets = ServiceBaskets::new();

    let weights = vec![(b"ID".to_vec(), 300_000), (b"FILE".to_vec(), 500_000)];
    baskets.set_weights(1, 1, weights).expect("setting weights");

    baskets.recompute_index(1, 1).expect("recomputing");

    // The weights sum to 800_000 of 1_000_000 parts: at the fixed-point
    // scale of 10^18 the index is 800_000 * 10^18 / 1_000_000.
    let basket = baskets.get(1).unwrap();
    let expected_index = 800_000u128 * 1_000_000_000_000_000_000u128 / 1_000_000u128;
    assert_eq!(basket.index, expected_index);
    assert_eq!(basket.index, 800_000u128 * INDEX_SCALE);
    assert_eq!(
        baskets.events().last(),
        Some(&Event::IndexRecomputed { network_id: 1, index: expected_index })
    );
}

#[test]
fn recompute_index_fails_when_basket_not_found() {
    let mut baskets = ServiceBaskets::new();

    assert_eq!(baskets.recompute_index(1, 999), Err(Error::BasketNotFound));
}

#[test]
fn set_weights_replaces_weights_and_keeps_proofs() {
    let mut baskets = ServiceBaskets::new();

    baskets
        .set_weights(1, 1, vec![(b"ID".to_vec(), 400_000)])
        .expect("first weights");
    baskets.add_proof(1, 1, b"Qm".to_vec()).expect("proof");
    baskets
        .set_weights(1, 1, vec![(b"FILE".to_vec(), 100_000)])
        .expect("second weights");

    let basket = baskets.get(1).unwrap();
    assert_eq!(basket.weights.len(), 1);
    assert_eq!(basket.weights[0].0, b"FILE".to_vec());
    assert_eq!(basket.weights[0].1, 100_000);
    assert_eq!(basket.proofs.len(), 1);
}

#[test]
fn set_weights_rejects_long_service_key() {
    let mut baskets = ServiceBaskets::new();

    let weights = vec![(vec![b'k'; 33], 100_000)];
    assert_eq!(
        baskets.set_weights(1, 1, weights),
        Err(Error::ServiceKeyTooLong)
    );
}

#[test]
fn set_weights_rejects_too_many_entries() {
    let mut baskets = ServiceBaskets::new();

    let mut weights = Vec::new();
    for i in 0..11u8 {
        weights.push((vec![i], 1_000));
    }
    assert_eq!(baskets.set_weights(1, 1, weights), Err(Error::TooManyWeights));
}

#[test]
fn set_weights_examines_entries_in_order() {
    let mut baskets = ServiceBaskets::new();

    // The long key sits at the eleventh position, so it is the key check
    // that refuses the call, not the count.
    let mut weights = Vec::new();
    for i in 0..10u8 {
        weights.push((vec![i], 1_000));
    }
    weights.push((vec![b'k'; 33], 1_000));
    assert_eq!(
        baskets.set_weights(1, 1, weights),
        Err(Error::ServiceKeyTooLong)
    );

    // Past the accepted count entries are never examined: the long key at
    // the twelfth position is not reached.
    let mut weights = Vec::new();
    for i in 0..11u8 {
        weights.push((vec![i], 1_000));
    }
    weights.push((vec![b'k'; 33], 1_000));
    assert_eq!(baskets.set_weights(1, 1, weights), Err(Error::TooManyWeights));
}

#[test]
fn add_proof_rejects_long_cid_and_full_basket() {
    let mut baskets = ServiceBaskets::new();
    baskets
        .set_weights(1, 1, vec![(b"ID".to_vec(), 1_000)])
        .expect("weights");

    assert_eq!(
        baskets.add_proof(1, 1, vec![b'c'; 257]),
        Err(Error::ProofCidTooLong)
    );

    for i in 0..100u8 {
        baskets.add_proof(1, 1, vec![i]).expect("proof");
    }
    assert_eq!(baskets.add_proof(1, 1, b"one more".to_vec()), Err(Error::TooManyProofs));
    assert_eq!(baskets.get(1).unwrap().proofs.len(), 100);
}

#[test]
fn recompute_index_of_empty_weights_is_zero() {
    let mut baskets = ServiceBaskets::new();
    baskets.set_weights(1, 1, vec![]).expect("weights");
    baskets.recompute_index(1, 1).expect("recomputing");
    assert_eq!(baskets.get(1).unwrap().index, 0);
}
