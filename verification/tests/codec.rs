use rand::SeedableRng as _;

use signer::codec::CodecError;
use signer::codec::Decode;
use signer::codec::Encode as _;
use signer::codec::ProtoSerializable as _;
use signer::error::SignerError;
use signer::keys::PublicKey;
use signer::proto;
use signer::wire::decode_public_key;
use signer::wire::encode_public_key;
use signer::wire::encode_uint256;

fn dummy_public_key<R: rand::Rng>(rng: &mut R) -> PublicKey {
    let sk = secp256k1::SecretKey::new(rng);
    let pk = secp256k1::PublicKey::from_secret_key_global(&sk);
    PublicKey::from_slice(&pk.serialize()).unwrap()
}

#[test]
fn public_key_should_be_able_to_encode_and_decode_correctly() {
    let mut rng = rand::rngs::StdRng::seed_from_u64(46);
    let message = dummy_public_key(&mut rng);

    let encoded = message.encode_to_vec();

    let decoded = <PublicKey as Decode>::decode(encoded.as_slice()).unwrap();

    assert_eq!(decoded, message);
}

#[test]
fn many_public_keys_round_trip_through_the_codec() {
    let mut rng = rand::rngs::StdRng::seed_from_u64(7);
    for _ in 0..50 {
        let key = dummy_public_key(&mut rng);
        assert_eq!(<PublicKey as Decode>::decode(&key.encode_to_vec()).unwrap(), key);
    }
}

#[test]
fn public_key_type_tag() {
    let mut rng = rand::rngs::StdRng::seed_from_u64(1);
    assert_eq!(dummy_public_key(&mut rng).type_tag(), "SBTC_PUBLIC_KEY");
}

fn small_uint256() -> proto::Uint256 {
    proto::Uint256 { bits_part0: 1, bits_part1: 0, bits_part2: 0x0102, bits_part3: 0 }
}

#[test]
fn uint256_encoding_leaves_out_zero_limbs() {
    assert_eq!(encode_uint256(&proto::Uint256 { bits_part0: 0, bits_part1: 0, bits_part2: 0, bits_part3: 0 }), Vec::<u8>::new());
    assert_eq!(
        encode_uint256(&small_uint256()),
        vec![0x09, 1, 0, 0, 0, 0, 0, 0, 0, 0x19, 0x02, 0x01, 0, 0, 0, 0, 0, 0]
    );
}

#[test]
fn public_key_message_encoding_is_canonical() {
    let message = proto::PublicKey { x_only_public_key: Some(small_uint256()), parity_is_odd: true };
    let mut expected = vec![0x0A, 18];
    expected.extend(encode_uint256(&small_uint256()));
    expected.extend([0x10, 0x01]);
    assert_eq!(encode_public_key(&message), expected);

    let empty = proto::PublicKey { x_only_public_key: None, parity_is_odd: false };
    assert_eq!(encode_public_key(&empty), Vec::<u8>::new());
    assert_eq!(decode_public_key(&[]), Some(empty));
}

#[test]
fn decoding_accepts_fields_in_any_order_and_skips_unknown_fields() {
    // parity first, then an unknown varint field 5, an unknown fixed32 field
    // 6, an unknown length-delimited field 7, an empty group 8, then the
    // x-coordinate.
    let mut bytes = vec![0x10, 0x01, 0x28, 0x96, 0x01, 0x35, 1, 2, 3, 4, 0x3A, 2, 9, 9, 0x43, 0x44];
    bytes.extend([0x0A, 9, 0x09, 5, 0, 0, 0, 0, 0, 0, 0]);
    let message = decode_public_key(&bytes).unwrap();
    assert!(message.parity_is_odd);
    assert_eq!(
        message.x_only_public_key,
        Some(proto::Uint256 { bits_part0: 5, bits_part1: 0, bits_part2: 0, bits_part3: 0 })
    );
}

#[test]
fn repeated_fields_keep_the_last_value_and_merge_nested_messages() {
    let bytes = vec![
        0x0A, 9, 0x09, 5, 0, 0, 0, 0, 0, 0, 0, // part0 = 5
        0x10, 0x01, // odd
        0x0A, 9, 0x11, 6, 0, 0, 0, 0, 0, 0, 0, // part1 = 6, merged
        0x10, 0x00, // even again
    ];
    let message = decode_public_key(&bytes).unwrap();
    assert!(!message.parity_is_odd);
    assert_eq!(
        message.x_only_public_key,
        Some(proto::Uint256 { bits_part0: 5, bits_part1: 6, bits_part2: 0, bits_part3: 0 })
    );
}

#[test]
fn malformed_messages_are_refused() {
    // truncated varint
    assert_eq!(decode_public_key(&[0x10]), None);
    assert_eq!(decode_public_key(&[0x10, 0x80]), None);
    // wrong wire type for the parity
    assert_eq!(decode_public_key(&[0x11, 0, 0, 0, 0, 0, 0, 0, 0]), None);
    // wrong wire type for the x-coordinate
    assert_eq!(decode_public_key(&[0x08, 0x01]), None);
    // tag zero
    assert_eq!(decode_public_key(&[0x00, 0x01]), None);
    // invalid wire type
    assert_eq!(decode_public_key(&[0x0E]), None);
    // length beyond the buffer
    assert_eq!(decode_public_key(&[0x0A, 5, 0x09]), None);
    // nested fixed64 cut short
    assert_eq!(decode_public_key(&[0x0A, 3, 0x09, 1, 2]), None);
    // nested field crossing the declared length
    assert_eq!(decode_public_key(&[0x0A, 2, 0x09, 1, 0, 0, 0, 0, 0, 0, 0]), None);
    // stray end of group
    assert_eq!(decode_public_key(&[0x44]), None);
    // group closed with another tag
    assert_eq!(decode_public_key(&[0x43, 0x4C]), None);
    // varint with a tenth byte above one
    assert_eq!(decode_public_key(&[0x10, 0xff, 0xff, 0xff, 0xff, 0xff, 0xff, 0xff, 0xff, 0xff, 0x02]), None);
}

#[test]
fn ten_byte_varints_are_accepted() {
    let bytes = [0x10, 0x80, 0x80, 0x80, 0x80, 0x80, 0x80, 0x80, 0x80, 0x80, 0x01];
    assert!(decode_public_key(&bytes).unwrap().parity_is_odd);
}

#[test]
fn deeply_nested_groups_exhaust_the_recursion_limit() {
    let mut shallow = vec![0x43u8; 50];
    shallow.extend(vec![0x44u8; 50]);
    assert!(decode_public_key(&shallow).is_some());
    let mut deep = vec![0x43u8; 101];
    deep.extend(vec![0x44u8; 101]);
    assert_eq!(decode_public_key(&deep), None);
}

#[test]
fn decode_reports_codec_and_key_errors() {
    assert!(matches!(
        <PublicKey as Decode>::decode(&[0x0E]),
        Err(SignerError::Codec(CodecError::DecodeError))
    ));
    assert!(matches!(<PublicKey as Decode>::decode(&[0x10, 0x01]), Err(SignerError::TypeConversion)));
    let mut off_curve = vec![0x0A, 36];
    off_curve.extend(encode_uint256(&proto::Uint256::from([0xff; 32])));
    assert!(matches!(<PublicKey as Decode>::decode(&off_curve), Err(SignerError::InvalidPublicKey(_))));
}
