use fake::Fake as _;
use fake::Faker;
use rand::rngs::OsRng;
use secp256k1::SECP256K1;

use signer::error::SignerError;
use signer::keys::PublicKey;
use signer::keys::RecoverableSignature;
use signer::model::BitcoinBlockHash;
use signer::model::BitcoinTxId;
use signer::model::OutPoint;
use signer::model::StacksAddress;
use signer::model::StacksBlockHash;
use signer::model::StacksTxId;
use signer::proto;

fn secp_public_key(seed: u8) -> secp256k1::PublicKey {
    let secret = secp256k1::SecretKey::from_slice(&[seed; 32]).unwrap();
    secp256k1::PublicKey::from_secret_key(SECP256K1, &secret)
}

fn public_key(seed: u8) -> PublicKey {
    PublicKey::from_slice(&secp_public_key(seed).serialize()).unwrap()
}

#[test]
fn conversion_between_bytes_and_uint256() {
    let number = proto::Uint256 {
        bits_part0: Faker.fake_with_rng(&mut OsRng),
        bits_part1: Faker.fake_with_rng(&mut OsRng),
        bits_part2: Faker.fake_with_rng(&mut OsRng),
        bits_part3: Faker.fake_with_rng(&mut OsRng),
    };

    let bytes = <[u8; 32]>::from(number);
    let round_trip_number = proto::Uint256::from(bytes);
    assert_eq!(round_trip_number, number);
}

#[test]
fn conversion_between_uint256_and_bytes() {
    let bytes: [u8; 32] = Faker.fake_with_rng(&mut OsRng);
    let number = proto::Uint256::from(bytes);

    let rount_trip_bytes = <[u8; 32]>::from(number);
    assert_eq!(rount_trip_bytes, bytes);
}

#[test]
fn uint256_limbs_are_little_endian_chunks() {
    let mut bytes = [0u8; 32];
    bytes[0] = 1;
    bytes[9] = 2;
    bytes[23] = 0x80;
    bytes[24] = 0xff;
    bytes[31] = 0x01;
    let number = proto::Uint256::from(bytes);
    assert_eq!(number.bits_part0, 1);
    assert_eq!(number.bits_part1, 0x200);
    assert_eq!(number.bits_part2, 0x8000_0000_0000_0000);
    assert_eq!(number.bits_part3, 0x0100_0000_0000_00ff);
    assert_eq!(<[u8; 32]>::from(number), bytes);
}

#[test]
fn public_key_round_trips_through_its_message() {
    let secp_key = secp_public_key(7);
    let key = public_key(7);
    let message = proto::PublicKey::from(key);

    let (x_only, parity) = secp_key.x_only_public_key();
    let x_bytes = <[u8; 32]>::from(message.x_only_public_key.unwrap());
    assert_eq!(x_bytes, x_only.serialize());
    assert_eq!(message.parity_is_odd, parity == secp256k1::Parity::Odd);

    let round_trip = PublicKey::try_from(message).unwrap();
    assert_eq!(round_trip, key);
    assert_eq!(round_trip.serialize(), secp_key.serialize());
}

#[test]
fn public_key_message_round_trips_through_the_key() {
    for seed in 1..20u8 {
        let message = proto::PublicKey::from(public_key(seed));
        let key = PublicKey::try_from(message).unwrap();
        assert_eq!(proto::PublicKey::from(key), message);
    }
}

#[test]
fn public_key_without_x_coordinate_is_refused() {
    let message = proto::PublicKey { x_only_public_key: None, parity_is_odd: true };
    assert!(matches!(PublicKey::try_from(message), Err(SignerError::TypeConversion)));
}

#[test]
fn public_key_off_the_curve_is_refused() {
    let message = proto::PublicKey {
        x_only_public_key: Some(proto::Uint256::from([0xff; 32])),
        parity_is_odd: false,
    };
    assert!(matches!(PublicKey::try_from(message), Err(SignerError::InvalidPublicKey(_))));
}

#[test]
fn public_key_from_slice_refuses_bad_prefix() {
    let mut bytes = secp_public_key(3).serialize();
    bytes[0] = 4;
    assert!(matches!(PublicKey::from_slice(&bytes), Err(SignerError::InvalidPublicKey(_))));
}

fn recoverable_signature(seed: u8) -> (secp256k1::ecdsa::RecoverableSignature, RecoverableSignature) {
    let secret = secp256k1::SecretKey::from_slice(&[seed; 32]).unwrap();
    let msg = secp256k1::Message::from_digest([seed.wrapping_add(1); 32]);
    let sig = SECP256K1.sign_ecdsa_recoverable(&msg, &secret);
    let (recovery_id, compact) = sig.serialize_compact();
    let ours = RecoverableSignature::from_compact(&compact, recovery_id.to_i32()).unwrap();
    (sig, ours)
}

#[test]
fn recoverable_signature_round_trips_through_its_message() {
    for seed in 1..10u8 {
        let (sig, ours) = recoverable_signature(seed);
        let message = proto::RecoverableSignature::from(ours);
        let (recovery_id, compact) = sig.serialize_compact();
        assert_eq!(message.recovery_id, recovery_id.to_i32());
        let lower = <[u8; 32]>::from(message.lower_bits.unwrap());
        let upper = <[u8; 32]>::from(message.upper_bits.unwrap());
        assert_eq!(&lower[..], &compact[..32]);
        assert_eq!(&upper[..], &compact[32..]);

        let round_trip = RecoverableSignature::try_from(message).unwrap();
        assert_eq!(round_trip, ours);
        assert_eq!(proto::RecoverableSignature::from(round_trip), message);
    }
}

#[test]
fn recoverable_signature_missing_half_is_refused() {
    let (_, ours) = recoverable_signature(5);
    let mut message = proto::RecoverableSignature::from(ours);
    message.upper_bits = None;
    assert!(matches!(RecoverableSignature::try_from(message), Err(SignerError::TypeConversion)));
    let mut message = proto::RecoverableSignature::from(ours);
    message.lower_bits = None;
    assert!(matches!(RecoverableSignature::try_from(message), Err(SignerError::TypeConversion)));
}

#[test]
fn recoverable_signature_bad_recovery_id_is_refused() {
    let (_, ours) = recoverable_signature(5);
    let mut message = proto::RecoverableSignature::from(ours);
    message.recovery_id = 4;
    assert!(matches!(RecoverableSignature::try_from(message), Err(SignerError::InvalidPublicKey(_))));
    message.recovery_id = -1;
    assert!(matches!(RecoverableSignature::try_from(message), Err(SignerError::InvalidPublicKey(_))));
}

#[test]
fn recoverable_signature_bad_bytes_are_refused() {
    let message = proto::RecoverableSignature {
        lower_bits: Some(proto::Uint256::from([0xff; 32])),
        upper_bits: Some(proto::Uint256::from([0xff; 32])),
        recovery_id: 0,
    };
    assert!(matches!(
        RecoverableSignature::try_from(message),
        Err(SignerError::InvalidRecoverableSignatureBytes(_))
    ));
}

#[test]
fn hash_ids_round_trip_through_their_messages() {
    let bytes: [u8; 32] = core::array::from_fn(|i| i as u8);

    let txid = BitcoinTxId(bytes);
    let message = proto::BitcoinTxid::from(txid);
    assert_eq!(message.txid, Some(proto::Uint256::from(bytes)));
    assert_eq!(BitcoinTxId::try_from(message).unwrap(), txid);

    let hash = BitcoinBlockHash(bytes);
    let message = proto::BitcoinBlockHash::from(hash);
    assert_eq!(message.block_hash, Some(proto::Uint256::from(bytes)));
    assert_eq!(BitcoinBlockHash::try_from(message).unwrap(), hash);

    let txid = StacksTxId(bytes);
    let message = proto::StacksTxid::from(txid);
    assert_eq!(message.txid, Some(proto::Uint256::from(bytes)));
    assert_eq!(StacksTxId::try_from(message).unwrap(), txid);

    let hash = StacksBlockHash(bytes);
    let message = proto::StacksBlockId::from(hash);
    assert_eq!(message.block_id, Some(proto::Uint256::from(bytes)));
    assert_eq!(StacksBlockHash::try_from(message).unwrap(), hash);
}

#[test]
fn hash_ids_without_value_are_refused() {
    assert!(matches!(
        BitcoinTxId::try_from(proto::BitcoinTxid { txid: None }),
        Err(SignerError::TypeConversion)
    ));
    assert!(matches!(
        BitcoinBlockHash::try_from(proto::BitcoinBlockHash { block_hash: None }),
        Err(SignerError::TypeConversion)
    ));
    assert!(matches!(
        StacksTxId::try_from(proto::StacksTxid { txid: None }),
        Err(SignerError::TypeConversion)
    ));
    assert!(matches!(
        StacksBlockHash::try_from(proto::StacksBlockId { block_id: None }),
        Err(SignerError::TypeConversion)
    ));
}

#[test]
fn outpoint_round_trips_through_its_message() {
    let outpoint = OutPoint { txid: BitcoinTxId([9; 32]), vout: 42 };
    let message = proto::OutPoint::from(outpoint);
    assert_eq!(message.vout, 42);
    assert_eq!(message.txid, Some(proto::BitcoinTxid { txid: Some(proto::Uint256::from([9; 32])) }));
    assert_eq!(OutPoint::try_from(message).unwrap(), outpoint);
}

#[test]
fn outpoint_without_txid_is_refused() {
    let message = proto::OutPoint { txid: None, vout: 1 };
    assert!(matches!(OutPoint::try_from(message), Err(SignerError::TypeConversion)));
    let message = proto::OutPoint { txid: Some(proto::BitcoinTxid { txid: None }), vout: 1 };
    assert!(matches!(OutPoint::try_from(message), Err(SignerError::TypeConversion)));
}

#[test]
fn stacks_address_serializes_as_version_then_hash() {
    let mut hash = [0u8; 20];
    for (i, byte) in hash.iter_mut().enumerate() {
        *byte = i as u8 + 1;
    }
    let address = StacksAddress { version: 26, bytes: hash };
    let message = proto::StacksAddress::from(address);
    let mut expected = vec![26u8];
    expected.extend_from_slice(&hash);
    assert_eq!(message.address, expected);
    assert_eq!(StacksAddress::try_from(message).unwrap(), address);
}

#[test]
fn stacks_address_matches_the_stacks_codec() {
    let hash = stacks_common::util::hash::Hash160([7; 20]);
    let outside = stacks_common::types::chainstate::StacksAddress { version: 22, bytes: hash };
    let bytes = stacks_common::codec::StacksMessageCodec::serialize_to_vec(&outside);
    let address = StacksAddress::try_from(proto::StacksAddress { address: bytes }).unwrap();
    assert_eq!(address, StacksAddress { version: 22, bytes: [7; 20] });
}

#[test]
fn stacks_address_ignores_trailing_bytes() {
    let mut bytes = vec![21u8];
    bytes.extend_from_slice(&[3; 20]);
    bytes.extend_from_slice(&[0xff, 0xee]);
    let address = StacksAddress::try_from(proto::StacksAddress { address: bytes }).unwrap();
    assert_eq!(address, StacksAddress { version: 21, bytes: [3; 20] });
}

#[test]
fn short_stacks_address_is_refused() {
    let message = proto::StacksAddress { address: vec![22u8; 20] };
    assert!(matches!(StacksAddress::try_from(message), Err(SignerError::StacksCodec(_))));
    let message = proto::StacksAddress { address: Vec::new() };
    assert!(matches!(StacksAddress::try_from(message), Err(SignerError::StacksCodec(_))));
}
