use wsts::state_machine::coordinator::Coordinator as _;

use signer::error::SignerError;
use signer::keys::PrivateKey;
use signer::keys::PublicKey;
use signer::wsts_state_machine::coordinator_config;
use signer::wsts_state_machine::coordinator_error;
use signer::wsts_state_machine::coordinator_from_dkg_shares;
use signer::wsts_state_machine::decrypt_dkg_shares;
use signer::wsts_state_machine::dkg_shares_or_missing;
use signer::wsts_state_machine::signer_from_saved_state;
use signer::wsts_state_machine::try_signer_from_saved_state;
use signer::wsts_state_machine::signer_config;
use signer::wsts_state_machine::CoordinatorStateMachine;
use signer::wsts_state_machine::SignerStateMachine;

fn private_key(seed: u8) -> PrivateKey {
    PrivateKey::from_slice(&[seed; 32]).unwrap()
}

fn public_keys(seeds: &[u8]) -> Vec<PublicKey> {
    seeds.iter().map(|seed| PublicKey::from_private_key(&private_key(*seed))).collect()
}

#[test]
fn private_key_must_be_a_nonzero_scalar() {
    assert!(matches!(PrivateKey::from_slice(&[0; 32]), Err(SignerError::InvalidPrivateKey(_))));
    assert!(matches!(PrivateKey::from_slice(&[0xff; 32]), Err(SignerError::InvalidPrivateKey(_))));
    assert_eq!(private_key(1).to_bytes(), [1; 32]);
}

#[test]
fn public_key_of_private_key_matches_secp256k1() {
    let secret = secp256k1::SecretKey::from_slice(&[5; 32]).unwrap();
    let expected = secp256k1::PublicKey::from_secret_key(secp256k1::SECP256K1, &secret);
    assert_eq!(PublicKey::from_private_key(&private_key(5)).serialize(), expected.serialize());
}

#[test]
fn signer_config_uses_positions_as_ids() {
    let keys = public_keys(&[1, 2, 3]);
    let config = signer_config(&keys, &keys[1], 2).unwrap();
    assert_eq!(config.threshold, 2);
    assert_eq!(config.num_parties, 3);
    assert_eq!(config.num_keys, 3);
    assert_eq!(config.signer_id, 1);
    assert_eq!(config.key_ids, vec![2]);
    assert_eq!(config.signers, vec![(0, keys[0]), (1, keys[1]), (2, keys[2])]);
    assert_eq!(config.key_id_keys, vec![(1, keys[0]), (2, keys[1]), (3, keys[2])]);
}

#[test]
fn signer_config_picks_the_first_occurrence_of_the_own_key() {
    let keys = public_keys(&[4, 2, 4]);
    let config = signer_config(&keys, &keys[0], 1).unwrap();
    assert_eq!(config.signer_id, 0);
    assert_eq!(config.key_ids, vec![1]);
}

#[test]
fn signer_config_without_own_key_is_refused() {
    let keys = public_keys(&[1, 2, 3]);
    let own = public_keys(&[9])[0];
    assert!(matches!(signer_config(&keys, &own, 2), Err(SignerError::MissingPublicKey)));
    assert!(matches!(signer_config(&keys, &own, 10), Err(SignerError::MissingPublicKey)));
}

#[test]
fn signer_config_with_threshold_above_keys_is_refused() {
    let keys = public_keys(&[1, 2, 3]);
    assert!(matches!(signer_config(&keys, &keys[2], 4), Err(SignerError::InvalidConfiguration)));
    assert!(signer_config(&keys, &keys[2], 3).is_ok());
}

#[test]
fn signer_state_machine_is_configured_for_the_signer() {
    let keys = public_keys(&[1, 2, 3, 4]);
    let machine = SignerStateMachine::new(keys, 3, private_key(3)).unwrap();
    assert_eq!(machine.0.signer_id, 2);
    assert_eq!(machine.0.threshold, 3);
    assert_eq!(machine.0.total_signers, 4);
    assert_eq!(machine.0.total_keys, 4);
    assert_eq!(machine.0.public_keys.signers.len(), 4);
    assert_eq!(machine.0.public_keys.key_ids.len(), 4);
    assert!(machine.0.public_keys.key_ids.contains_key(&4));
}

#[test]
fn signer_state_machine_refuses_bad_configurations() {
    let keys = public_keys(&[1, 2, 3]);
    assert!(matches!(
        SignerStateMachine::new(keys.clone(), 2, private_key(9)),
        Err(SignerError::MissingPublicKey)
    ));
    assert!(matches!(
        SignerStateMachine::new(keys, 4, private_key(1)),
        Err(SignerError::InvalidConfiguration)
    ));
}

#[test]
fn coordinator_config_gives_each_signer_its_own_key() {
    let keys = public_keys(&[1, 2, 3]);
    let config = coordinator_config(&keys, 2);
    assert_eq!(config.num_signers, 3);
    assert_eq!(config.num_keys, 3);
    assert_eq!(config.threshold, 2);
    assert_eq!(config.dkg_threshold, 3);
    assert_eq!(config.signer_key_ids, vec![(0, vec![0]), (1, vec![1]), (2, vec![2])]);
    assert_eq!(config.signer_public_keys, vec![(0, keys[0]), (1, keys[1]), (2, keys[2])]);
}

#[test]
fn coordinator_state_machine_is_configured() {
    let keys = public_keys(&[1, 2, 3]);
    let machine = CoordinatorStateMachine::new(keys, 2, private_key(7));
    let config = machine.0.get_config();
    assert_eq!(config.num_signers, 3);
    assert_eq!(config.num_keys, 3);
    assert_eq!(config.threshold, 2);
    assert_eq!(config.dkg_threshold, 3);
    assert_eq!(config.signer_public_keys.len(), 3);
    assert_eq!(config.signer_key_ids.get(&1).map(|ids| ids.contains(&1)), Some(true));
}

#[test]
fn coordinator_errors_are_wrapped() {
    let err = wsts::state_machine::coordinator::Error::BadStateChange("bad".to_string());
    match coordinator_error(err) {
        SignerError::WstsCoordinator(inner) => {
            assert!(matches!(*inner, wsts::state_machine::coordinator::Error::BadStateChange(ref msg) if msg == "bad"))
        }
        other => panic!("unexpected error {other:?}"),
    }
}

#[test]
fn coordinator_holds_every_key_and_key_id() {
    let keys = public_keys(&[4, 5, 6, 7]);
    let machine = CoordinatorStateMachine::new(keys.clone(), 3, private_key(9));
    let config = machine.0.get_config();
    assert_eq!(config.message_private_key, p256k1::scalar::Scalar::from([9u8; 32]));
    assert_eq!(config.signer_key_ids.len(), 4);
    assert_eq!(config.signer_public_keys.len(), 4);
    for (id, key) in keys.iter().enumerate() {
        let id = id as u32;
        let ids = config.signer_key_ids.get(&id).unwrap();
        assert_eq!(ids.len(), 1);
        assert!(ids.contains(&id));
        let point = config.signer_public_keys.get(&id).unwrap();
        assert_eq!(point.compress().data, key.serialize());
    }
}

#[test]
fn signer_state_machine_holds_its_position_keys_and_key_ids() {
    let keys = public_keys(&[1, 2, 3]);
    let machine = SignerStateMachine::new(keys.clone(), 3, private_key(2)).unwrap();
    assert_eq!(machine.0.signer_id, 1);
    assert_eq!(wsts::traits::Signer::get_key_ids(&machine.0.signer), vec![2]);
    assert_eq!(machine.0.threshold, 3);
    assert_eq!(machine.0.total_signers, 3);
    assert_eq!(machine.0.total_keys, 3);
    assert_eq!(machine.0.network_private_key, p256k1::scalar::Scalar::from([2u8; 32]));
    for (i, key) in keys.iter().enumerate() {
        let i = i as u32;
        assert_eq!(machine.0.public_keys.signers[&i].to_bytes(), key.serialize());
        assert_eq!(machine.0.public_keys.key_ids[&(i + 1)].to_bytes(), key.serialize());
    }
    assert!(!machine.0.public_keys.key_ids.contains_key(&0));
}

#[test]
fn fresh_coordinator_is_idle_without_aggregate_key_or_timeouts() {
    let machine = CoordinatorStateMachine::new(public_keys(&[1, 2]), 2, private_key(5));
    assert_eq!(machine.0.get_state(), wsts::state_machine::coordinator::State::Idle);
    assert_eq!(machine.0.get_aggregate_public_key(), None);
    let config = machine.0.get_config();
    assert_eq!(config.dkg_public_timeout, None);
    assert_eq!(config.dkg_private_timeout, None);
    assert_eq!(config.dkg_end_timeout, None);
    assert_eq!(config.nonce_timeout, None);
    assert_eq!(config.sign_timeout, None);
}

#[test]
fn coordinator_loaded_from_dkg_shares_is_idle_with_the_aggregate_key() {
    let keys = public_keys(&[1, 2, 3]);
    let aggregate_key = p256k1::point::Point::from(p256k1::scalar::Scalar::from(12u32));
    let machine = coordinator_from_dkg_shares(keys, 2, private_key(7), aggregate_key, Vec::new()).unwrap();
    assert_eq!(machine.0.get_state(), wsts::state_machine::coordinator::State::Idle);
    assert_eq!(machine.0.get_aggregate_public_key(), Some(aggregate_key));
    let config = machine.0.get_config();
    assert_eq!(config.num_signers, 3);
    assert_eq!(config.threshold, 2);
    assert_eq!(config.dkg_threshold, 3);
}

#[test]
fn missing_dkg_shares_are_reported() {
    assert!(matches!(dkg_shares_or_missing::<u8>(None), Err(SignerError::MissingDkgShares)));
    assert!(matches!(dkg_shares_or_missing(Some(5u8)), Ok(5)));
}

#[test]
fn dkg_shares_decrypt_with_the_signer_key_only() {
    let key = private_key(4);
    let encrypted = wsts::util::encrypt(&key.to_bytes(), b"shares", &mut rand::rngs::OsRng).unwrap();
    assert_eq!(decrypt_dkg_shares(&key, &encrypted).unwrap(), b"shares".to_vec());
    assert!(matches!(decrypt_dkg_shares(&private_key(5), &encrypted), Err(SignerError::Encryption)));
}

#[test]
fn signer_state_machine_loads_its_saved_party() {
    let keys = public_keys(&[1, 2, 3]);
    let original = SignerStateMachine::new(keys.clone(), 2, private_key(3)).unwrap();
    let saved = wsts::traits::Signer::save(&original.0.signer);
    let loaded = signer_from_saved_state(keys.clone(), 2, private_key(3), saved.clone()).unwrap();
    assert_eq!(loaded.0.signer, original.0.signer);
    assert_eq!(loaded.0.signer_id, 2);
    let mut empty = saved;
    empty.parties.clear();
    assert!(try_signer_from_saved_state(keys, 2, private_key(3), empty).is_none());
}

fn public_shares(dkg_id: u64, signer_id: u32) -> wsts::net::DkgPublicShares {
    wsts::net::DkgPublicShares { dkg_id, signer_id, comms: Vec::new() }
}

#[test]
fn coordinator_keeps_the_shares_of_a_completed_dkg() {
    let keys = public_keys(&[1, 2]);
    let aggregate_key = p256k1::point::Point::from(p256k1::scalar::Scalar::from(5u32));
    let shares = vec![(0, public_shares(1, 0)), (1, public_shares(1, 1)), (2, public_shares(9, 7))];
    let machine = coordinator_from_dkg_shares(keys, 2, private_key(7), aggregate_key, shares).unwrap();
    assert_eq!(machine.0.get_state(), wsts::state_machine::coordinator::State::Idle);
    assert_eq!(machine.0.get_aggregate_public_key(), Some(aggregate_key));
    assert_eq!(machine.0.current_dkg_id, 1);
    let saved = machine.0.save();
    assert_eq!(saved.dkg_public_shares.len(), 2);
    assert_eq!(saved.dkg_public_shares[&0], public_shares(1, 0));
    assert_eq!(saved.dkg_public_shares[&1], public_shares(1, 1));
}

#[test]
fn shares_of_another_dkg_round_are_refused_while_gathering() {
    let keys = public_keys(&[1, 2]);
    let aggregate_key = p256k1::point::Point::from(p256k1::scalar::Scalar::from(5u32));
    let shares = vec![(0, public_shares(1, 0)), (1, public_shares(2, 1))];
    let result = coordinator_from_dkg_shares(keys, 2, private_key(7), aggregate_key, shares);
    assert!(matches!(result, Err(SignerError::WstsCoordinator(_))));
}

#[test]
fn loaded_party_keeps_the_saved_group_key_and_private_keys() {
    let keys = public_keys(&[1, 2]);
    let original = SignerStateMachine::new(keys.clone(), 2, private_key(2)).unwrap();
    let mut saved = wsts::traits::Signer::save(&original.0.signer);
    saved.group_key = p256k1::point::Point::from(p256k1::scalar::Scalar::from(3u32));
    saved.parties[0].1.private_keys = vec![(2, p256k1::scalar::Scalar::from(4u32))];
    let loaded = signer_from_saved_state(keys, 2, private_key(2), saved).unwrap();
    let resaved = wsts::traits::Signer::save(&loaded.0.signer);
    assert_eq!(resaved.group_key, p256k1::point::Point::from(p256k1::scalar::Scalar::from(3u32)));
    assert_eq!(resaved.parties[0].1.private_keys, vec![(2, p256k1::scalar::Scalar::from(4u32))]);
}

#[test]
fn threshold_zero_is_refused_when_the_key_is_missing() {
    let keys = public_keys(&[1, 2]);
    assert!(matches!(SignerStateMachine::new(keys, 0, private_key(9)), Err(SignerError::MissingPublicKey)));
}
