//! Conversions between the signer's domain types and their protobuf
//! messages, with the laws that the conversions undo each other.

use vstd::prelude::*;
use vstd::bytes::{
    lemma_auto_spec_u64_to_from_le_bytes, spec_u64_from_le_bytes, spec_u64_to_le_bytes,
    u64_from_le_bytes, u64_to_le_bytes,
};
use vstd::slice::slice_subrange;

use crate::error::SignerError;
use crate::keys::{
    lemma_public_key_wf, lemma_recoverable_signature_wf, spec_compact_signature_is_valid,
    spec_parity_prefix, spec_x_only_public_key_is_valid, PublicKey, RecoverableSignature,
};
use crate::model::{BitcoinBlockHash, BitcoinTxId, OutPoint, StacksAddress, StacksBlockHash, StacksTxId};
use crate::proto;
use crate::proto::Uint256;

verus! {

/// The number whose little-endian limbs are the four 8-byte chunks of `bytes`.
pub open spec fn spec_uint256_from_bytes(bytes: Seq<u8>) -> Uint256 {
    Uint256 {
        bits_part0: spec_u64_from_le_bytes(bytes.subrange(0, 8)),
        bits_part1: spec_u64_from_le_bytes(bytes.subrange(8, 16)),
        bits_part2: spec_u64_from_le_bytes(bytes.subrange(16, 24)),
        bits_part3: spec_u64_from_le_bytes(bytes.subrange(24, 32)),
    }
}

/// The 32 bytes made of the little-endian bytes of the four limbs in order.
pub open spec fn spec_uint256_to_bytes(value: Uint256) -> Seq<u8> {
    spec_u64_to_le_bytes(value.bits_part0) + spec_u64_to_le_bytes(value.bits_part1)
        + spec_u64_to_le_bytes(value.bits_part2) + spec_u64_to_le_bytes(value.bits_part3)
}

impl vstd::std_specs::convert::FromSpecImpl<[u8; 32]> for Uint256 {
    open spec fn obeys_from_spec() -> bool {
        true
    }

    open spec fn from_spec(v: [u8; 32]) -> Self {
        spec_uint256_from_bytes(v@)
    }
}

impl From<[u8; 32]> for Uint256 {
    fn from(value: [u8; 32]) -> (r: Self) {
        let bytes = value.as_slice();
        Uint256 {
            bits_part0: u64_from_le_bytes(slice_subrange(bytes, 0, 8)),
            bits_part1: u64_from_le_bytes(slice_subrange(bytes, 8, 16)),
            bits_part2: u64_from_le_bytes(slice_subrange(bytes, 16, 24)),
            bits_part3: u64_from_le_bytes(slice_subrange(bytes, 24, 32)),
        }
    }
}

impl vstd::std_specs::convert::FromSpecImpl<Uint256> for [u8; 32] {
    open spec fn obeys_from_spec() -> bool {
        true
    }

    open spec fn from_spec(v: Uint256) -> Self {
        choose|bytes: [u8; 32]| bytes@ == spec_uint256_to_bytes(v)
    }
}

impl From<Uint256> for [u8; 32] {
    fn from(value: Uint256) -> (r: Self)
        ensures
            r@ == spec_uint256_to_bytes(value),
    {
        proof {
            lemma_auto_spec_u64_to_from_le_bytes();
        }
        let a = u64_to_le_bytes(value.bits_part0);
        let b = u64_to_le_bytes(value.bits_part1);
        let c = u64_to_le_bytes(value.bits_part2);
        let d = u64_to_le_bytes(value.bits_part3);
        let bytes: [u8; 32] = [
            a[0], a[1], a[2], a[3], a[4], a[5], a[6], a[7], b[0], b[1], b[2], b[3], b[4], b[5],
            b[6], b[7], c[0], c[1], c[2], c[3], c[4], c[5], c[6], c[7], d[0], d[1], d[2], d[3],
            d[4], d[5], d[6], d[7],
        ];
        assert(bytes@ =~= spec_uint256_to_bytes(value));
        proof {
            let chosen = choose|x: [u8; 32]| x@ == spec_uint256_to_bytes(value);
            assert(chosen@ == spec_uint256_to_bytes(value));
            assert(bytes =~= chosen);
        }
        bytes
    }
}

/// Splitting 32 bytes into a `Uint256` and joining its limbs back gives the
/// same 32 bytes.
pub proof fn lemma_uint256_bytes_round_trip(bytes: Seq<u8>)
    requires
        bytes.len() == 32,
    ensures
        spec_uint256_to_bytes(spec_uint256_from_bytes(bytes)) == bytes,
{
    lemma_auto_spec_u64_to_from_le_bytes();
    let v = spec_uint256_from_bytes(bytes);
    assert(spec_u64_to_le_bytes(v.bits_part0) == bytes.subrange(0, 8));
    assert(spec_u64_to_le_bytes(v.bits_part1) == bytes.subrange(8, 16));
    assert(spec_u64_to_le_bytes(v.bits_part2) == bytes.subrange(16, 24));
    assert(spec_u64_to_le_bytes(v.bits_part3) == bytes.subrange(24, 32));
    assert(spec_uint256_to_bytes(v) =~= bytes);
}

/// Joining the limbs of a `Uint256` into 32 bytes and splitting them again
/// gives the same number.
pub proof fn lemma_uint256_value_round_trip(value: Uint256)
    ensures
        spec_uint256_to_bytes(value).len() == 32,
        spec_uint256_from_bytes(spec_uint256_to_bytes(value)) == value,
{
    lemma_auto_spec_u64_to_from_le_bytes();
    let s = spec_uint256_to_bytes(value);
    assert(s.subrange(0, 8) =~= spec_u64_to_le_bytes(value.bits_part0));
    assert(s.subrange(8, 16) =~= spec_u64_to_le_bytes(value.bits_part1));
    assert(s.subrange(16, 24) =~= spec_u64_to_le_bytes(value.bits_part2));
    assert(s.subrange(24, 32) =~= spec_u64_to_le_bytes(value.bits_part3));
}


/// Returns the value of a protobuf field that must be present, or
/// `TypeConversion` when it is missing.
fn required<T>(value: Option<T>) -> (r: Result<T, SignerError>)
    ensures
        r == spec_required(value),
{
    match value {
        Some(inner) => Ok(inner),
        None => Err(SignerError::TypeConversion),
    }
}

/// The value of a protobuf field that must be present.
pub open spec fn spec_required<T>(value: Option<T>) -> Result<T, SignerError> {
    match value {
        Some(inner) => Ok(inner),
        None => Err(SignerError::TypeConversion),
    }
}

/// The byte array whose bytes are those of `value`'s limbs.
pub open spec fn spec_uint256_to_array(value: Uint256) -> [u8; 32] {
    choose|bytes: [u8; 32]| bytes@ == spec_uint256_to_bytes(value)
}

/// The protobuf message of the public key with this compressed serialization:
/// its x-coordinate and whether its prefix marks an odd y-coordinate.
pub open spec fn spec_public_key_bytes_to_proto(bytes: Seq<u8>) -> proto::PublicKey {
    proto::PublicKey {
        x_only_public_key: Some(spec_uint256_from_bytes(bytes.subrange(1, 33))),
        parity_is_odd: bytes[0] == 3u8,
    }
}

/// The protobuf message of a public key.
pub open spec fn spec_public_key_to_proto(key: PublicKey) -> proto::PublicKey {
    spec_public_key_bytes_to_proto(key.spec_bytes())
}

/// The compressed serialization of the key that a public key message
/// describes, or `None` when the message has no x-coordinate or the
/// x-coordinate is not that of a curve point.
pub open spec fn spec_public_key_bytes_from_proto(message: proto::PublicKey) -> Option<Seq<u8>> {
    match message.x_only_public_key {
        None => None,
        Some(x) => if spec_x_only_public_key_is_valid(spec_uint256_to_bytes(x)) {
            Some(seq![spec_parity_prefix(message.parity_is_odd)] + spec_uint256_to_bytes(x))
        } else {
            None
        },
    }
}

impl vstd::std_specs::convert::FromSpecImpl<PublicKey> for proto::PublicKey {
    open spec fn obeys_from_spec() -> bool {
        true
    }

    open spec fn from_spec(v: PublicKey) -> Self {
        spec_public_key_to_proto(v)
    }
}

impl From<PublicKey> for proto::PublicKey {
    fn from(value: PublicKey) -> (r: Self)
        ensures
            r == spec_public_key_to_proto(value),
    {
        let (x_only, parity_is_odd) = value.x_only_public_key();
        proto::PublicKey { x_only_public_key: Some(Uint256::from(x_only)), parity_is_odd }
    }
}

impl vstd::std_specs::convert::TryFromSpecImpl<proto::PublicKey> for PublicKey {
    open spec fn obeys_try_from_spec() -> bool {
        false
    }

    open spec fn try_from_spec(v: proto::PublicKey) -> Result<Self, Self::Error> {
        arbitrary()
    }
}

impl TryFrom<proto::PublicKey> for PublicKey {
    type Error = SignerError;

    /// A missing x-coordinate gives `TypeConversion`, an x-coordinate that is
    /// not that of a curve point gives `InvalidPublicKey`; otherwise the key
    /// with that x-coordinate and parity.
    fn try_from(value: proto::PublicKey) -> (r: Result<Self, Self::Error>)
        ensures
            r is Ok <==> spec_public_key_bytes_from_proto(value) is Some,
            r matches Ok(key) ==> spec_public_key_bytes_from_proto(value) == Some(key.spec_bytes()),
            r matches Err(err) ==> (if value.x_only_public_key is None {
                err == SignerError::TypeConversion
            } else {
                err is InvalidPublicKey
            }),
    {
        let x_only: [u8; 32] = match required(value.x_only_public_key) {
            Ok(x) => <[u8; 32]>::from(x),
            Err(err) => return Err(err),
        };
        PublicKey::from_x_only_public_key(&x_only, value.parity_is_odd)
    }
}

/// Converting a public key to its protobuf message and back gives the same
/// key.
pub proof fn lemma_public_key_round_trip(key: PublicKey)
    requires
        key.wf(),
    ensures
        spec_public_key_bytes_from_proto(spec_public_key_to_proto(key)) == Some(key.spec_bytes()),
{
    let b = key.spec_bytes();
    lemma_public_key_wf(key);
    lemma_uint256_bytes_round_trip(b.subrange(1, 33));
    assert(seq![spec_parity_prefix(b[0] == 3u8)] + b.subrange(1, 33) =~= b);
}

/// Converting a public key message that describes a key to the key and back
/// gives the same message.
pub proof fn lemma_public_key_proto_round_trip(message: proto::PublicKey)
    requires
        spec_public_key_bytes_from_proto(message) is Some,
    ensures
        spec_public_key_bytes_to_proto(spec_public_key_bytes_from_proto(message).unwrap()) == message,
{
    let x = message.x_only_public_key.unwrap();
    let b = spec_public_key_bytes_from_proto(message).unwrap();
    lemma_uint256_value_round_trip(x);
    assert(b.subrange(1, 33) =~= spec_uint256_to_bytes(x));
}

/// The two 32-byte halves of a 64-byte array.
fn split_halves(b: &[u8; 64]) -> (r: ([u8; 32], [u8; 32]))
    ensures
        r.0@ == b@.subrange(0, 32),
        r.1@ == b@.subrange(32, 64),
{
    let lower: [u8; 32] = [b[0], b[1], b[2], b[3], b[4], b[5], b[6], b[7], b[8], b[9], b[10], b[11], b[12], b[13], b[14], b[15], b[16], b[17], b[18], b[19], b[20], b[21], b[22], b[23], b[24], b[25], b[26], b[27], b[28], b[29], b[30], b[31]];
    let upper: [u8; 32] = [b[32], b[33], b[34], b[35], b[36], b[37], b[38], b[39], b[40], b[41], b[42], b[43], b[44], b[45], b[46], b[47], b[48], b[49], b[50], b[51], b[52], b[53], b[54], b[55], b[56], b[57], b[58], b[59], b[60], b[61], b[62], b[63]];
    assert(lower@ =~= b@.subrange(0, 32));
    assert(upper@ =~= b@.subrange(32, 64));
    (lower, upper)
}

/// The 64-byte array made of two 32-byte halves.
fn join_halves(lower: &[u8; 32], upper: &[u8; 32]) -> (r: [u8; 64])
    ensures
        r@ == lower@ + upper@,
{
    let joined: [u8; 64] = [lower[0], lower[1], lower[2], lower[3], lower[4], lower[5], lower[6], lower[7], lower[8], lower[9], lower[10], lower[11], lower[12], lower[13], lower[14], lower[15], lower[16], lower[17], lower[18], lower[19], lower[20], lower[21], lower[22], lower[23], lower[24], lower[25], lower[26], lower[27], lower[28], lower[29], lower[30], lower[31], upper[0], upper[1], upper[2], upper[3], upper[4], upper[5], upper[6], upper[7], upper[8], upper[9], upper[10], upper[11], upper[12], upper[13], upper[14], upper[15], upper[16], upper[17], upper[18], upper[19], upper[20], upper[21], upper[22], upper[23], upper[24], upper[25], upper[26], upper[27], upper[28], upper[29], upper[30], upper[31]];
    assert(joined@ =~= lower@ + upper@);
    joined
}

/// The protobuf message of a signature with this compact form and recovery
/// id: the two halves of the compact form as numbers, and the id.
pub open spec fn spec_signature_parts_to_proto(compact: Seq<u8>, recovery_id: i32) -> proto::RecoverableSignature {
    proto::RecoverableSignature {
        lower_bits: Some(spec_uint256_from_bytes(compact.subrange(0, 32))),
        upper_bits: Some(spec_uint256_from_bytes(compact.subrange(32, 64))),
        recovery_id,
    }
}

/// The protobuf message of a recoverable signature.
pub open spec fn spec_recoverable_signature_to_proto(sig: RecoverableSignature) -> proto::RecoverableSignature {
    spec_signature_parts_to_proto(sig.spec_compact(), sig.spec_recovery_id())
}

/// The compact form and recovery id of the signature that a message
/// describes, or `None` when a half is missing, the recovery id is outside 0
/// to 3, or the compact form is not a valid signature.
pub open spec fn spec_signature_parts_from_proto(message: proto::RecoverableSignature) -> Option<(Seq<u8>, i32)> {
    match (message.lower_bits, message.upper_bits) {
        (Some(lower), Some(upper)) => {
            let compact = spec_uint256_to_bytes(lower) + spec_uint256_to_bytes(upper);
            if 0 <= message.recovery_id <= 3 && spec_compact_signature_is_valid(compact) {
                Some((compact, message.recovery_id))
            } else {
                None
            }
        },
        _ => None,
    }
}

impl vstd::std_specs::convert::FromSpecImpl<RecoverableSignature> for proto::RecoverableSignature {
    open spec fn obeys_from_spec() -> bool {
        true
    }

    open spec fn from_spec(v: RecoverableSignature) -> Self {
        spec_recoverable_signature_to_proto(v)
    }
}

impl From<RecoverableSignature> for proto::RecoverableSignature {
    fn from(value: RecoverableSignature) -> (r: Self)
        ensures
            r == spec_recoverable_signature_to_proto(value),
    {
        let (recovery_id, bytes) = value.serialize_compact();
        let (lower_bits, upper_bits) = split_halves(&bytes);
        proto::RecoverableSignature {
            lower_bits: Some(Uint256::from(lower_bits)),
            upper_bits: Some(Uint256::from(upper_bits)),
            recovery_id,
        }
    }
}

impl vstd::std_specs::convert::TryFromSpecImpl<proto::RecoverableSignature> for RecoverableSignature {
    open spec fn obeys_try_from_spec() -> bool {
        false
    }

    open spec fn try_from_spec(v: proto::RecoverableSignature) -> Result<Self, Self::Error> {
        arbitrary()
    }
}

impl TryFrom<proto::RecoverableSignature> for RecoverableSignature {
    type Error = SignerError;

    /// A missing half gives `TypeConversion`, a recovery id outside 0 to 3
    /// gives `InvalidPublicKey`, and a compact form that is not a valid
    /// signature gives `InvalidRecoverableSignatureBytes`.
    fn try_from(value: proto::RecoverableSignature) -> (r: Result<Self, Self::Error>)
        ensures
            r is Ok <==> spec_signature_parts_from_proto(value) is Some,
            r matches Ok(sig) ==> spec_signature_parts_from_proto(value) == Some(
                (sig.spec_compact(), sig.spec_recovery_id()),
            ),
            r matches Err(err) ==> (if value.lower_bits is None || value.upper_bits is None {
                err == SignerError::TypeConversion
            } else if !(0 <= value.recovery_id <= 3) {
                err is InvalidPublicKey
            } else {
                err is InvalidRecoverableSignatureBytes
            }),
    {
        let lower_bits: [u8; 32] = match required(value.lower_bits) {
            Ok(x) => <[u8; 32]>::from(x),
            Err(err) => return Err(err),
        };
        let upper_bits: [u8; 32] = match required(value.upper_bits) {
            Ok(x) => <[u8; 32]>::from(x),
            Err(err) => return Err(err),
        };
        let data = join_halves(&lower_bits, &upper_bits);
        RecoverableSignature::from_compact(&data, value.recovery_id)
    }
}

/// Converting a recoverable signature to its protobuf message and back gives
/// the same compact form and recovery id.
pub proof fn lemma_recoverable_signature_round_trip(sig: RecoverableSignature)
    requires
        sig.wf(),
    ensures
        spec_signature_parts_from_proto(spec_recoverable_signature_to_proto(sig)) == Some(
            (sig.spec_compact(), sig.spec_recovery_id()),
        ),
{
    let c = sig.spec_compact();
    lemma_recoverable_signature_wf(sig);
    lemma_uint256_bytes_round_trip(c.subrange(0, 32));
    lemma_uint256_bytes_round_trip(c.subrange(32, 64));
    assert(c.subrange(0, 32) + c.subrange(32, 64) =~= c);
}

/// Converting a signature message that describes a signature to the
/// signature and back gives the same message.
pub proof fn lemma_recoverable_signature_proto_round_trip(message: proto::RecoverableSignature)
    requires
        spec_signature_parts_from_proto(message) is Some,
    ensures
        ({
            let (compact, recovery_id) = spec_signature_parts_from_proto(message).unwrap();
            spec_signature_parts_to_proto(compact, recovery_id) == message
        }),
{
    let lower = message.lower_bits.unwrap();
    let upper = message.upper_bits.unwrap();
    let compact = spec_uint256_to_bytes(lower) + spec_uint256_to_bytes(upper);
    lemma_uint256_value_round_trip(lower);
    lemma_uint256_value_round_trip(upper);
    assert(compact.subrange(0, 32) =~= spec_uint256_to_bytes(lower));
    assert(compact.subrange(32, 64) =~= spec_uint256_to_bytes(upper));
}

/// The array chosen for a number's bytes does hold those bytes.
pub proof fn lemma_uint256_to_array(value: Uint256)
    ensures
        spec_uint256_to_array(value)@ == spec_uint256_to_bytes(value),
{
    lemma_uint256_value_round_trip(value);
    let s = spec_uint256_to_bytes(value);
    let witness: [u8; 32] = [s[0], s[1], s[2], s[3], s[4], s[5], s[6], s[7], s[8], s[9], s[10], s[11], s[12], s[13], s[14], s[15], s[16], s[17], s[18], s[19], s[20], s[21], s[22], s[23], s[24], s[25], s[26], s[27], s[28], s[29], s[30], s[31]];
    assert(witness@ =~= s);
}

/// The array chosen for the bytes of the number read from an array is that
/// array.
pub proof fn lemma_uint256_array_round_trip(bytes: [u8; 32])
    ensures
        spec_uint256_to_array(spec_uint256_from_bytes(bytes@)) == bytes,
{
    lemma_uint256_bytes_round_trip(bytes@);
    lemma_uint256_to_array(spec_uint256_from_bytes(bytes@));
    assert(spec_uint256_to_array(spec_uint256_from_bytes(bytes@)) =~= bytes);
}

/// The protobuf message of a bitcoin transaction id.
pub open spec fn spec_bitcoin_txid_to_proto(id: BitcoinTxId) -> proto::BitcoinTxid {
    proto::BitcoinTxid { txid: Some(spec_uint256_from_bytes(id.0@)) }
}

/// The bitcoin transaction id that a protobuf message describes, or `TypeConversion` when the
/// message has no value.
pub open spec fn spec_bitcoin_txid_from_proto(message: proto::BitcoinTxid) -> Result<BitcoinTxId, SignerError> {
    match message.txid {
        Some(value) => Ok(BitcoinTxId(spec_uint256_to_array(value))),
        None => Err(SignerError::TypeConversion),
    }
}

impl vstd::std_specs::convert::FromSpecImpl<BitcoinTxId> for proto::BitcoinTxid {
    open spec fn obeys_from_spec() -> bool {
        true
    }

    open spec fn from_spec(v: BitcoinTxId) -> Self {
        spec_bitcoin_txid_to_proto(v)
    }
}

impl From<BitcoinTxId> for proto::BitcoinTxid {
    fn from(value: BitcoinTxId) -> (r: Self)
        ensures
            r == spec_bitcoin_txid_to_proto(value),
    {
        proto::BitcoinTxid { txid: Some(Uint256::from(value.into_bytes())) }
    }
}

impl vstd::std_specs::convert::TryFromSpecImpl<proto::BitcoinTxid> for BitcoinTxId {
    open spec fn obeys_try_from_spec() -> bool {
        true
    }

    open spec fn try_from_spec(v: proto::BitcoinTxid) -> Result<Self, Self::Error> {
        spec_bitcoin_txid_from_proto(v)
    }
}

impl TryFrom<proto::BitcoinTxid> for BitcoinTxId {
    type Error = SignerError;

    fn try_from(value: proto::BitcoinTxid) -> (r: Result<Self, Self::Error>)
        ensures
            r == spec_bitcoin_txid_from_proto(value),
            r matches Ok(id) ==> id.0@ == spec_uint256_to_bytes(value.txid.unwrap()),
    {
        match required(value.txid) {
            Ok(x) => {
                let bytes = <[u8; 32]>::from(x);
                proof {
                    lemma_uint256_to_array(x);
                }
                Ok(BitcoinTxId(bytes))
            },
            Err(err) => Err(err),
        }
    }
}

/// Converting a bitcoin transaction id to its protobuf message and back gives the same value.
pub proof fn lemma_bitcoin_txid_round_trip(id: BitcoinTxId)
    ensures
        spec_bitcoin_txid_from_proto(spec_bitcoin_txid_to_proto(id)) == Ok::<BitcoinTxId, SignerError>(id),
{
    lemma_uint256_array_round_trip(id.0);
}

/// Converting a protobuf message that holds a bitcoin transaction id to the value and back gives
/// the same message.
pub proof fn lemma_bitcoin_txid_proto_round_trip(message: proto::BitcoinTxid)
    requires
        message.txid is Some,
    ensures
        spec_bitcoin_txid_from_proto(message) matches Ok(id) && spec_bitcoin_txid_to_proto(id) == message,
{
    lemma_uint256_to_array(message.txid.unwrap());
    lemma_uint256_value_round_trip(message.txid.unwrap());
}

/// The protobuf message of a bitcoin block hash.
pub open spec fn spec_bitcoin_block_hash_to_proto(id: BitcoinBlockHash) -> proto::BitcoinBlockHash {
    proto::BitcoinBlockHash { block_hash: Some(spec_uint256_from_bytes(id.0@)) }
}

/// The bitcoin block hash that a protobuf message describes, or `TypeConversion` when the
/// message has no value.
pub open spec fn spec_bitcoin_block_hash_from_proto(message: proto::BitcoinBlockHash) -> Result<BitcoinBlockHash, SignerError> {
    match message.block_hash {
        Some(value) => Ok(BitcoinBlockHash(spec_uint256_to_array(value))),
        None => Err(SignerError::TypeConversion),
    }
}

impl vstd::std_specs::convert::FromSpecImpl<BitcoinBlockHash> for proto::BitcoinBlockHash {
    open spec fn obeys_from_spec() -> bool {
        true
    }

    open spec fn from_spec(v: BitcoinBlockHash) -> Self {
        spec_bitcoin_block_hash_to_proto(v)
    }
}

impl From<BitcoinBlockHash> for proto::BitcoinBlockHash {
    fn from(value: BitcoinBlockHash) -> (r: Self)
        ensures
            r == spec_bitcoin_block_hash_to_proto(value),
    {
        proto::BitcoinBlockHash { block_hash: Some(Uint256::from(value.into_bytes())) }
    }
}

impl vstd::std_specs::convert::TryFromSpecImpl<proto::BitcoinBlockHash> for BitcoinBlockHash {
    open spec fn obeys_try_from_spec() -> bool {
        true
    }

    open spec fn try_from_spec(v: proto::BitcoinBlockHash) -> Result<Self, Self::Error> {
        spec_bitcoin_block_hash_from_proto(v)
    }
}

impl TryFrom<proto::BitcoinBlockHash> for BitcoinBlockHash {
    type Error = SignerError;

    fn try_from(value: proto::BitcoinBlockHash) -> (r: Result<Self, Self::Error>)
        ensures
            r == spec_bitcoin_block_hash_from_proto(value),
            r matches Ok(id) ==> id.0@ == spec_uint256_to_bytes(value.block_hash.unwrap()),
    {
        match required(value.block_hash) {
            Ok(x) => {
                let bytes = <[u8; 32]>::from(x);
                proof {
                    lemma_uint256_to_array(x);
                }
                Ok(BitcoinBlockHash(bytes))
            },
            Err(err) => Err(err),
        }
    }
}

/// Converting a bitcoin block hash to its protobuf message and back gives the same value.
pub proof fn lemma_bitcoin_block_hash_round_trip(id: BitcoinBlockHash)
    ensures
        spec_bitcoin_block_hash_from_proto(spec_bitcoin_block_hash_to_proto(id)) == Ok::<BitcoinBlockHash, SignerError>(id),
{
    lemma_uint256_array_round_trip(id.0);
}

/// Converting a protobuf message that holds a bitcoin block hash to the value and back gives
/// the same message.
pub proof fn lemma_bitcoin_block_hash_proto_round_trip(message: proto::BitcoinBlockHash)
    requires
        message.block_hash is Some,
    ensures
        spec_bitcoin_block_hash_from_proto(message) matches Ok(id) && spec_bitcoin_block_hash_to_proto(id) == message,
{
    lemma_uint256_to_array(message.block_hash.unwrap());
    lemma_uint256_value_round_trip(message.block_hash.unwrap());
}

/// The protobuf message of a stacks transaction id.
pub open spec fn spec_stacks_txid_to_proto(id: StacksTxId) -> proto::StacksTxid {
    proto::StacksTxid { txid: Some(spec_uint256_from_bytes(id.0@)) }
}

/// The stacks transaction id that a protobuf message describes, or `TypeConversion` when the
/// message has no value.
pub open spec fn spec_stacks_txid_from_proto(message: proto::StacksTxid) -> Result<StacksTxId, SignerError> {
    match message.txid {
        Some(value) => Ok(StacksTxId(spec_uint256_to_array(value))),
        None => Err(SignerError::TypeConversion),
    }
}

impl vstd::std_specs::convert::FromSpecImpl<StacksTxId> for proto::StacksTxid {
    open spec fn obeys_from_spec() -> bool {
        true
    }

    open spec fn from_spec(v: StacksTxId) -> Self {
        spec_stacks_txid_to_proto(v)
    }
}

impl From<StacksTxId> for proto::StacksTxid {
    fn from(value: StacksTxId) -> (r: Self)
        ensures
            r == spec_stacks_txid_to_proto(value),
    {
        proto::StacksTxid { txid: Some(Uint256::from(value.into_bytes())) }
    }
}

impl vstd::std_specs::convert::TryFromSpecImpl<proto::StacksTxid> for StacksTxId {
    open spec fn obeys_try_from_spec() -> bool {
        true
    }

    open spec fn try_from_spec(v: proto::StacksTxid) -> Result<Self, Self::Error> {
        spec_stacks_txid_from_proto(v)
    }
}

impl TryFrom<proto::StacksTxid> for StacksTxId {
    type Error = SignerError;

    fn try_from(value: proto::StacksTxid) -> (r: Result<Self, Self::Error>)
        ensures
            r == spec_stacks_txid_from_proto(value),
            r matches Ok(id) ==> id.0@ == spec_uint256_to_bytes(value.txid.unwrap()),
    {
        match required(value.txid) {
            Ok(x) => {
                let bytes = <[u8; 32]>::from(x);
                proof {
                    lemma_uint256_to_array(x);
                }
                Ok(StacksTxId(bytes))
            },
            Err(err) => Err(err),
        }
    }
}

/// Converting a stacks transaction id to its protobuf message and back gives the same value.
pub proof fn lemma_stacks_txid_round_trip(id: StacksTxId)
    ensures
        spec_stacks_txid_from_proto(spec_stacks_txid_to_proto(id)) == Ok::<StacksTxId, SignerError>(id),
{
    lemma_uint256_array_round_trip(id.0);
}

/// Converting a protobuf message that holds a stacks transaction id to the value and back gives
/// the same message.
pub proof fn lemma_stacks_txid_proto_round_trip(message: proto::StacksTxid)
    requires
        message.txid is Some,
    ensures
        spec_stacks_txid_from_proto(message) matches Ok(id) && spec_stacks_txid_to_proto(id) == message,
{
    lemma_uint256_to_array(message.txid.unwrap());
    lemma_uint256_value_round_trip(message.txid.unwrap());
}

/// The protobuf message of a stacks block id.
pub open spec fn spec_stacks_block_hash_to_proto(id: StacksBlockHash) -> proto::StacksBlockId {
    proto::StacksBlockId { block_id: Some(spec_uint256_from_bytes(id.0@)) }
}

/// The stacks block id that a protobuf message describes, or `TypeConversion` when the
/// message has no value.
pub open spec fn spec_stacks_block_hash_from_proto(message: proto::StacksBlockId) -> Result<StacksBlockHash, SignerError> {
    match message.block_id {
        Some(value) => Ok(StacksBlockHash(spec_uint256_to_array(value))),
        None => Err(SignerError::TypeConversion),
    }
}

impl vstd::std_specs::convert::FromSpecImpl<StacksBlockHash> for proto::StacksBlockId {
    open spec fn obeys_from_spec() -> bool {
        true
    }

    open spec fn from_spec(v: StacksBlockHash) -> Self {
        spec_stacks_block_hash_to_proto(v)
    }
}

impl From<StacksBlockHash> for proto::StacksBlockId {
    fn from(value: StacksBlockHash) -> (r: Self)
        ensures
            r == spec_stacks_block_hash_to_proto(value),
    {
        proto::StacksBlockId { block_id: Some(Uint256::from(value.into_bytes())) }
    }
}

impl vstd::std_specs::convert::TryFromSpecImpl<proto::StacksBlockId> for StacksBlockHash {
    open spec fn obeys_try_from_spec() -> bool {
        true
    }

    open spec fn try_from_spec(v: proto::StacksBlockId) -> Result<Self, Self::Error> {
        spec_stacks_block_hash_from_proto(v)
    }
}

impl TryFrom<proto::StacksBlockId> for StacksBlockHash {
    type Error = SignerError;

    fn try_from(value: proto::StacksBlockId) -> (r: Result<Self, Self::Error>)
        ensures
            r == spec_stacks_block_hash_from_proto(value),
            r matches Ok(id) ==> id.0@ == spec_uint256_to_bytes(value.block_id.unwrap()),
    {
        match required(value.block_id) {
            Ok(x) => {
                let bytes = <[u8; 32]>::from(x);
                proof {
                    lemma_uint256_to_array(x);
                }
                Ok(StacksBlockHash(bytes))
            },
            Err(err) => Err(err),
        }
    }
}

/// Converting a stacks block id to its protobuf message and back gives the same value.
pub proof fn lemma_stacks_block_hash_round_trip(id: StacksBlockHash)
    ensures
        spec_stacks_block_hash_from_proto(spec_stacks_block_hash_to_proto(id)) == Ok::<StacksBlockHash, SignerError>(id),
{
    lemma_uint256_array_round_trip(id.0);
}

/// Converting a protobuf message that holds a stacks block id to the value and back gives
/// the same message.
pub proof fn lemma_stacks_block_hash_proto_round_trip(message: proto::StacksBlockId)
    requires
        message.block_id is Some,
    ensures
        spec_stacks_block_hash_from_proto(message) matches Ok(id) && spec_stacks_block_hash_to_proto(id) == message,
{
    lemma_uint256_to_array(message.block_id.unwrap());
    lemma_uint256_value_round_trip(message.block_id.unwrap());
}

/// The protobuf message of an outpoint.
pub open spec fn spec_outpoint_to_proto(outpoint: OutPoint) -> proto::OutPoint {
    proto::OutPoint { txid: Some(spec_bitcoin_txid_to_proto(outpoint.txid)), vout: outpoint.vout }
}

/// The outpoint that a protobuf message describes, or `TypeConversion` when
/// the message, or its transaction id, has no value.
pub open spec fn spec_outpoint_from_proto(message: proto::OutPoint) -> Result<OutPoint, SignerError> {
    match message.txid {
        None => Err(SignerError::TypeConversion),
        Some(txid) => match spec_bitcoin_txid_from_proto(txid) {
            Ok(id) => Ok(OutPoint { txid: id, vout: message.vout }),
            Err(err) => Err(err),
        },
    }
}

impl vstd::std_specs::convert::FromSpecImpl<OutPoint> for proto::OutPoint {
    open spec fn obeys_from_spec() -> bool {
        true
    }

    open spec fn from_spec(v: OutPoint) -> Self {
        spec_outpoint_to_proto(v)
    }
}

impl From<OutPoint> for proto::OutPoint {
    fn from(value: OutPoint) -> (r: Self)
        ensures
            r == spec_outpoint_to_proto(value),
    {
        proto::OutPoint { txid: Some(proto::BitcoinTxid::from(value.txid)), vout: value.vout }
    }
}

impl vstd::std_specs::convert::TryFromSpecImpl<proto::OutPoint> for OutPoint {
    open spec fn obeys_try_from_spec() -> bool {
        true
    }

    open spec fn try_from_spec(v: proto::OutPoint) -> Result<Self, Self::Error> {
        spec_outpoint_from_proto(v)
    }
}

impl TryFrom<proto::OutPoint> for OutPoint {
    type Error = SignerError;

    fn try_from(value: proto::OutPoint) -> (r: Result<Self, Self::Error>)
        ensures
            r == spec_outpoint_from_proto(value),
    {
        let txid_message = match required(value.txid) {
            Ok(txid) => txid,
            Err(err) => return Err(err),
        };
        match BitcoinTxId::try_from(txid_message) {
            Ok(txid) => Ok(OutPoint { txid, vout: value.vout }),
            Err(err) => Err(err),
        }
    }
}

/// Converting an outpoint to its protobuf message and back gives the same
/// outpoint.
pub proof fn lemma_outpoint_round_trip(outpoint: OutPoint)
    ensures
        spec_outpoint_from_proto(spec_outpoint_to_proto(outpoint)) == Ok::<OutPoint, SignerError>(outpoint),
{
    lemma_bitcoin_txid_round_trip(outpoint.txid);
}

/// Converting a complete outpoint message to the outpoint and back gives the
/// same message.
pub proof fn lemma_outpoint_proto_round_trip(message: proto::OutPoint)
    requires
        message.txid matches Some(txid) && txid.txid is Some,
    ensures
        spec_outpoint_from_proto(message) matches Ok(outpoint) && spec_outpoint_to_proto(outpoint) == message,
{
    lemma_bitcoin_txid_proto_round_trip(message.txid.unwrap());
}

/// The message of an outpoint carries its output index, and its
/// transaction id as that id's own message: limbs that are the id's bytes
/// read eight at a time, little-endian, in order.
pub proof fn lemma_outpoint_message_carries_the_txid(outpoint: OutPoint)
    ensures
        spec_outpoint_to_proto(outpoint).vout == outpoint.vout,
        spec_outpoint_to_proto(outpoint).txid == Some(spec_bitcoin_txid_to_proto(outpoint.txid)),
        spec_outpoint_to_proto(outpoint).txid matches Some(message) && message.txid matches Some(limbs) && {
            &&& limbs.bits_part0 == spec_u64_from_le_bytes(outpoint.txid.0@.subrange(0, 8))
            &&& limbs.bits_part1 == spec_u64_from_le_bytes(outpoint.txid.0@.subrange(8, 16))
            &&& limbs.bits_part2 == spec_u64_from_le_bytes(outpoint.txid.0@.subrange(16, 24))
            &&& limbs.bits_part3 == spec_u64_from_le_bytes(outpoint.txid.0@.subrange(24, 32))
        },
{
}

/// The outpoint that a complete message describes has the message's output
/// index and the transaction id that the id's own message gives: the bytes
/// of its limbs, little-endian, in order.
pub proof fn lemma_outpoint_from_message_reads_the_txid(message: proto::OutPoint)
    requires
        message.txid matches Some(txid) && txid.txid is Some,
    ensures
        spec_outpoint_from_proto(message) matches Ok(outpoint) && {
            let limbs = message.txid.unwrap().txid.unwrap();
            &&& outpoint.vout == message.vout
            &&& spec_bitcoin_txid_from_proto(message.txid.unwrap()) == Ok::<BitcoinTxId, SignerError>(
                outpoint.txid,
            )
            &&& outpoint.txid.0@ == spec_u64_to_le_bytes(limbs.bits_part0) + spec_u64_to_le_bytes(
                limbs.bits_part1,
            ) + spec_u64_to_le_bytes(limbs.bits_part2) + spec_u64_to_le_bytes(limbs.bits_part3)
        },
{
    lemma_uint256_to_array(message.txid.unwrap().txid.unwrap());
}

/// Calls `StacksMessageCodec::serialize_to_vec` on the stacks address with
/// this version and hash, which gives the version byte followed by the 20
/// bytes of the hash.
#[verifier::external_body]
fn stacks_address_serialize_to_vec(version: u8, bytes: [u8; 20]) -> (r: Vec<u8>)
    ensures
        r@ == seq![version] + bytes@,
{
    let address = stacks_common::types::chainstate::StacksAddress {
        version,
        bytes: stacks_common::util::hash::Hash160(bytes),
    };
    <stacks_common::types::chainstate::StacksAddress as stacks_common::codec::StacksMessageCodec>::serialize_to_vec(&address)
}

/// Calls `StacksMessageCodec::consensus_deserialize` for a stacks address,
/// reading from the given bytes. It reads the version byte and the 20 bytes
/// of the hash, fails exactly when fewer than 21 bytes are given, and ignores
/// the rest.
#[verifier::external_body]
fn stacks_address_consensus_deserialize(data: &[u8]) -> (r: Result<(u8, [u8; 20]), stacks_common::codec::Error>)
    ensures
        r is Ok <==> data@.len() >= 21,
        r matches Ok((version, bytes)) ==> version == data@[0] && bytes@ == data@.subrange(1, 21),
{
    let mut fd = data;
    match <stacks_common::types::chainstate::StacksAddress as stacks_common::codec::StacksMessageCodec>::consensus_deserialize(&mut fd) {
        Ok(address) => Ok((address.version, address.bytes.0)),
        Err(err) => Err(err),
    }
}

/// The consensus serialization of a stacks address: its version byte and
/// the 20 bytes of its hash.
pub open spec fn spec_stacks_address_bytes(address: StacksAddress) -> Seq<u8> {
    seq![address.version] + address.bytes@
}

/// The stacks address at the start of a serialization, or `None` when it
/// has fewer than 21 bytes.
pub open spec fn spec_stacks_address_from_bytes(bytes: Seq<u8>) -> Option<StacksAddress> {
    if bytes.len() >= 21 {
        Some(
            StacksAddress {
                version: bytes[0],
                bytes: spec_hash160_array(bytes.subrange(1, 21)),
            },
        )
    } else {
        None
    }
}

/// The 20-byte array that holds these bytes.
pub open spec fn spec_hash160_array(hash: Seq<u8>) -> [u8; 20] {
    choose|array: [u8; 20]| array@ == hash
}

/// Any 20 bytes are held by the array chosen for them, and an array is the
/// one chosen for its own bytes.
proof fn lemma_hash160_array(hash: Seq<u8>)
    requires
        hash.len() == 20,
    ensures
        spec_hash160_array(hash)@ == hash,
        forall|array: [u8; 20]| array@ == hash ==> array == spec_hash160_array(hash),
{
    let b = hash;
    let witness: [u8; 20] = [b[0], b[1], b[2], b[3], b[4], b[5], b[6], b[7], b[8], b[9], b[10], b[11], b[12], b[13], b[14], b[15], b[16], b[17], b[18], b[19]];
    assert(witness@ =~= hash);
    assert forall|array: [u8; 20]| array@ == hash implies array == spec_hash160_array(hash) by {
        assert(array =~= spec_hash160_array(hash));
    }
}

impl vstd::std_specs::convert::FromSpecImpl<StacksAddress> for proto::StacksAddress {
    open spec fn obeys_from_spec() -> bool {
        false
    }

    open spec fn from_spec(v: StacksAddress) -> Self {
        arbitrary()
    }
}

impl From<StacksAddress> for proto::StacksAddress {
    fn from(value: StacksAddress) -> (r: Self)
        ensures
            r.address@ == spec_stacks_address_bytes(value),
    {
        proto::StacksAddress { address: stacks_address_serialize_to_vec(value.version, value.bytes) }
    }
}

impl vstd::std_specs::convert::TryFromSpecImpl<proto::StacksAddress> for StacksAddress {
    open spec fn obeys_try_from_spec() -> bool {
        false
    }

    open spec fn try_from_spec(v: proto::StacksAddress) -> Result<Self, Self::Error> {
        arbitrary()
    }
}

impl TryFrom<proto::StacksAddress> for StacksAddress {
    type Error = SignerError;

    /// The address at the start of the serialization; fewer than 21 bytes
    /// give `StacksCodec`.
    fn try_from(value: proto::StacksAddress) -> (r: Result<Self, Self::Error>)
        ensures
            r is Ok <==> spec_stacks_address_from_bytes(value.address@) is Some,
            r matches Ok(address) ==> spec_stacks_address_from_bytes(value.address@) == Some(address),
            r matches Err(err) ==> err is StacksCodec,
    {
        match stacks_address_consensus_deserialize(value.address.as_slice()) {
            Ok((version, bytes)) => {
                proof {
                    lemma_hash160_array(value.address@.subrange(1, 21));
                }
                Ok(StacksAddress { version, bytes })
            },
            Err(err) => Err(SignerError::StacksCodec(err)),
        }
    }
}

/// Serializing a stacks address and reading it back gives the same address.
pub proof fn lemma_stacks_address_round_trip(address: StacksAddress)
    ensures
        spec_stacks_address_from_bytes(spec_stacks_address_bytes(address)) == Some(address),
{
    let b = spec_stacks_address_bytes(address);
    assert(b.subrange(1, 21) =~= address.bytes@);
    lemma_hash160_array(b.subrange(1, 21));
}

/// Reading a 21-byte serialization and serializing the address again gives
/// the same bytes.
pub proof fn lemma_stacks_address_bytes_round_trip(bytes: Seq<u8>)
    requires
        bytes.len() == 21,
    ensures
        spec_stacks_address_from_bytes(bytes) matches Some(address) && spec_stacks_address_bytes(address)
            == bytes,
{
    lemma_hash160_array(bytes.subrange(1, 21));
    assert(spec_stacks_address_bytes(spec_stacks_address_from_bytes(bytes).unwrap()) =~= bytes);
}

} // verus!