//! Public keys and recoverable signatures on the secp256k1 curve.
//!
//! A [`PublicKey`] is held as its 33-byte compressed SEC1 serialization and
//! a [`RecoverableSignature`] as its 64-byte compact form together with its
//! recovery id. Private keys and compact signatures are accepted when their
//! numbers are below the group order ([`spec_private_key_is_valid`],
//! [`spec_compact_signature_is_valid`]); which x-coordinates lie on the curve
//! is not restated here but named by [`spec_x_only_public_key_is_valid`], and
//! the wrappers below tie the library's answers to those statements.

use vstd::prelude::*;

use crate::error::SignerError;

verus! {

/// Whether `secp256k1::XOnlyPublicKey::from_slice` accepts these 32 bytes,
/// that is, whether they encode the x-coordinate of a point on the curve.
pub uninterp spec fn spec_x_only_public_key_is_valid(x: Seq<u8>) -> bool;

/// The order of the secp256k1 group.
pub open spec fn spec_group_order() -> nat {
    0xFFFFFFFFFFFFFFFFFFFFFFFFFFFFFFFEBAAEDCE6AF48A03BBFD25E8CD0364141nat
}

/// The number that these bytes encode, most significant byte first.
pub open spec fn spec_be_value(bytes: Seq<u8>) -> nat
    decreases bytes.len(),
{
    if bytes.len() == 0 {
        0
    } else {
        spec_be_value(bytes.drop_last()) * 256 + bytes.last() as nat
    }
}

/// Whether `secp256k1::ecdsa::RecoverableSignature::from_compact` accepts
/// these 64 bytes (with a recovery id between 0 and 3): both 32-byte halves
/// are numbers below the group order.
pub open spec fn spec_compact_signature_is_valid(data: Seq<u8>) -> bool {
    &&& data.len() == 64
    &&& spec_be_value(data.subrange(0, 32)) < spec_group_order()
    &&& spec_be_value(data.subrange(32, 64)) < spec_group_order()
}

/// The prefix byte of a compressed public key with the given parity.
pub open spec fn spec_parity_prefix(parity_is_odd: bool) -> u8 {
    if parity_is_odd {
        3u8
    } else {
        2u8
    }
}

/// Whether `bytes` is the compressed serialization of a point on the curve.
pub open spec fn spec_is_compressed_public_key(bytes: Seq<u8>) -> bool {
    &&& bytes.len() == 33
    &&& (bytes[0] == 2u8 || bytes[0] == 3u8)
    &&& spec_x_only_public_key_is_valid(bytes.subrange(1, 33))
}

/// Calls `secp256k1::XOnlyPublicKey::from_slice`. It succeeds exactly on the
/// byte strings named valid x-only keys, and serializing the parsed key
/// gives back the input bytes.
#[verifier::external_body]
fn x_only_public_key_from_slice(data: &[u8; 32]) -> (r: Result<[u8; 32], secp256k1::Error>)
    ensures
        r is Ok <==> spec_x_only_public_key_is_valid(data@),
        r matches Ok(bytes) ==> bytes == *data,
{
    match secp256k1::XOnlyPublicKey::from_slice(data) {
        Ok(key) => Ok(key.serialize()),
        Err(err) => Err(err),
    }
}

/// Calls `secp256k1::PublicKey::from_x_only_public_key` on a valid x-only
/// key. The result's compressed serialization is the parity prefix (2 for
/// even, 3 for odd) followed by the x-coordinate.
#[verifier::external_body]
fn public_key_from_x_only_public_key(x: [u8; 32], parity_is_odd: bool) -> (r: [u8; 33])
    requires
        spec_x_only_public_key_is_valid(x@),
    ensures
        r@ == seq![spec_parity_prefix(parity_is_odd)] + x@,
{
    let x_only = secp256k1::XOnlyPublicKey::from_slice(&x).expect("the x-coordinate is valid");
    let parity = if parity_is_odd {
        secp256k1::Parity::Odd
    } else {
        secp256k1::Parity::Even
    };
    secp256k1::PublicKey::from_x_only_public_key(x_only, parity).serialize()
}

/// Calls `secp256k1::PublicKey::from_slice` on 33 bytes. It accepts exactly
/// the compressed serializations of curve points (prefix 2 or 3 followed by a
/// valid x-coordinate) and serializing the parsed key in compressed form
/// gives back the input bytes.
#[verifier::external_body]
fn public_key_from_slice(data: &[u8; 33]) -> (r: Result<[u8; 33], secp256k1::Error>)
    ensures
        r is Ok <==> spec_is_compressed_public_key(data@),
        r matches Ok(bytes) ==> bytes == *data,
{
    match secp256k1::PublicKey::from_slice(data) {
        Ok(key) => Ok(key.serialize()),
        Err(err) => Err(err),
    }
}

/// Calls `secp256k1::ecdsa::RecoveryId::from_i32`. It accepts exactly the ids
/// 0 to 3, and the id it holds is the one given.
#[verifier::external_body]
fn recovery_id_from_i32(id: i32) -> (r: Result<i32, secp256k1::Error>)
    ensures
        r is Ok <==> 0 <= id <= 3,
        r matches Ok(v) ==> v == id,
{
    match secp256k1::ecdsa::RecoveryId::from_i32(id) {
        Ok(recovery_id) => Ok(recovery_id.to_i32()),
        Err(err) => Err(err),
    }
}

/// Calls `secp256k1::ecdsa::RecoverableSignature::from_compact` with a
/// recovery id between 0 and 3. It accepts exactly the byte strings named
/// valid compact signatures, and the compact serialization of the parsed
/// signature gives back the input bytes.
#[verifier::external_body]
fn recoverable_signature_from_compact(data: &[u8; 64], recovery_id: i32) -> (r: Result<
    [u8; 64],
    secp256k1::Error,
>)
    requires
        0 <= recovery_id <= 3,
    ensures
        r is Ok <==> spec_compact_signature_is_valid(data@),
        r matches Ok(bytes) ==> bytes == *data,
{
    let recovery_id = secp256k1::ecdsa::RecoveryId::from_i32(recovery_id).expect("the id is valid");
    match secp256k1::ecdsa::RecoverableSignature::from_compact(data, recovery_id) {
        Ok(signature) => Ok(signature.serialize_compact().1),
        Err(err) => Err(err),
    }
}

/// The 32-byte output key of a key-path-only taproot output whose internal
/// key has this x-coordinate, that is the internal key tweaked with its own
/// taproot tweak (BIP-341).
pub uninterp spec fn spec_taproot_output_key(x_only: Seq<u8>) -> Seq<u8>;

/// The scriptPubKey of the key-path-only taproot output of the key with this
/// x-coordinate: `OP_1`, a 32-byte push and the tweaked output key.
pub open spec fn spec_signers_script_pubkey(x_only: Seq<u8>) -> Seq<u8> {
    seq![0x51u8, 0x20u8] + spec_taproot_output_key(x_only)
}

/// Calls `bitcoin::ScriptBuf::new_p2tr` for a valid x-only internal key and
/// no script tree. The script is a segwit version 1 witness program (`OP_1`,
/// a 32-byte push) whose program is the tweaked output key.
#[verifier::external_body]
fn script_pubkey_new_p2tr(x_only: &[u8; 32]) -> (r: Vec<u8>)
    requires
        spec_x_only_public_key_is_valid(x_only@),
    ensures
        r@ == seq![0x51u8, 0x20u8] + spec_taproot_output_key(x_only@),
{
    let internal_key = secp256k1::XOnlyPublicKey::from_slice(x_only).expect("the x-coordinate is valid");
    bitcoin::ScriptBuf::new_p2tr(secp256k1::SECP256K1, internal_key, None).into_bytes()
}

/// Whether `secp256k1::SecretKey::from_slice` accepts these bytes: 32 bytes
/// encoding a number that is not zero and is below the group order.
pub open spec fn spec_private_key_is_valid(bytes: Seq<u8>) -> bool {
    &&& bytes.len() == 32
    &&& 0 < spec_be_value(bytes) < spec_group_order()
}

/// The compressed serialization of the public key that
/// `p256k1::ecdsa::PublicKey::new` derives from this private key.
pub uninterp spec fn spec_public_key_of_private_key(private_key: Seq<u8>) -> Seq<u8>;

/// Calls `secp256k1::SecretKey::from_slice` on 32 bytes. It succeeds exactly
/// on the byte strings named valid private keys, and the parsed key
/// holds the input bytes.
#[verifier::external_body]
fn secret_key_from_slice(data: &[u8; 32]) -> (r: Result<[u8; 32], secp256k1::Error>)
    ensures
        r is Ok <==> spec_private_key_is_valid(data@),
        r matches Ok(bytes) ==> bytes == *data,
{
    match secp256k1::SecretKey::from_slice(data) {
        Ok(key) => Ok(key.secret_bytes()),
        Err(err) => Err(err),
    }
}

/// Calls `p256k1::ecdsa::PublicKey::new` on the scalar of a valid private
/// key, which the library accepts since the scalar is not zero. The result,
/// serialized in compressed form, is a curve point.
#[verifier::external_body]
fn p256k1_public_key_new(private_key: &[u8; 32]) -> (r: [u8; 33])
    requires
        spec_private_key_is_valid(private_key@),
    ensures
        r@ == spec_public_key_of_private_key(private_key@),
        spec_is_compressed_public_key(r@),
{
    let scalar = p256k1::scalar::Scalar::from(*private_key);
    p256k1::ecdsa::PublicKey::new(&scalar).expect("the private key is valid").to_bytes()
}

/// A private key on the secp256k1 curve, held as its 32 bytes.
#[derive(Clone, Copy, Debug, PartialEq, Eq)]
pub struct PrivateKey {
    pub(crate) bytes: [u8; 32],
}

impl PrivateKey {
    /// Every private key is a non-zero scalar below the group order.
    #[verifier::type_invariant]
    pub closed spec fn wf(self) -> bool {
        spec_private_key_is_valid(self.bytes@)
    }

    /// The bytes of the key.
    pub closed spec fn spec_bytes(self) -> Seq<u8> {
        self.bytes@
    }

    /// Parses a private key; fails exactly when the bytes are not a non-zero
    /// scalar below the group order.
    pub fn from_slice(data: &[u8; 32]) -> (r: Result<PrivateKey, SignerError>)
        ensures
            r is Ok <==> spec_private_key_is_valid(data@),
            r matches Ok(key) ==> key.spec_bytes() == data@,
            r matches Err(err) ==> err is InvalidPrivateKey,
    {
        match secret_key_from_slice(data) {
            Ok(bytes) => Ok(PrivateKey { bytes }),
            Err(err) => Err(SignerError::InvalidPrivateKey(err)),
        }
    }

    /// The bytes of the key.
    pub fn to_bytes(&self) -> (r: [u8; 32])
        ensures
            r@ == self.spec_bytes(),
            spec_private_key_is_valid(r@),
    {
        proof {
            use_type_invariant(self);
        }
        self.bytes
    }
}

/// A public key on the secp256k1 curve, held as its compressed serialization.
#[derive(Clone, Copy, Debug, PartialEq, Eq)]
pub struct PublicKey {
    pub(crate) bytes: [u8; 33],
}

impl PublicKey {
    /// Every public key is the compressed serialization of a curve point.
    #[verifier::type_invariant]
    pub closed spec fn wf(self) -> bool {
        spec_is_compressed_public_key(self.bytes@)
    }

    /// The compressed serialization of the key.
    pub closed spec fn spec_bytes(self) -> Seq<u8> {
        self.bytes@
    }

    /// The 32-byte x-coordinate of the key.
    pub open spec fn spec_x_only(self) -> Seq<u8> {
        self.spec_bytes().subrange(1, 33)
    }

    /// The x-coordinate of the key as an array.
    pub open spec fn spec_x_only_array(self) -> [u8; 32] {
        choose|x: [u8; 32]| x@ == self.spec_x_only()
    }

    /// Whether the y-coordinate of the key is odd.
    pub open spec fn spec_parity_is_odd(self) -> bool {
        self.spec_bytes()[0] == 3u8
    }

    /// Parses a compressed public key; fails exactly when the bytes are not
    /// the compressed serialization of a curve point.
    pub fn from_slice(data: &[u8; 33]) -> (r: Result<PublicKey, SignerError>)
        ensures
            r is Ok <==> spec_is_compressed_public_key(data@),
            r matches Ok(key) ==> key.spec_bytes() == data@,
            r matches Err(err) ==> err is InvalidPublicKey,
    {
        match public_key_from_slice(data) {
            Ok(bytes) => Ok(PublicKey { bytes }),
            Err(err) => Err(SignerError::InvalidPublicKey(err)),
        }
    }

    /// The compressed serialization of the key.
    pub fn serialize(&self) -> (r: [u8; 33])
        ensures
            r@ == self.spec_bytes(),
            spec_is_compressed_public_key(r@),
    {
        proof {
            use_type_invariant(self);
        }
        self.bytes
    }

    /// Builds the public key with the given x-coordinate and parity; fails
    /// exactly when the x-coordinate is not that of a curve point.
    pub fn from_x_only_public_key(x: &[u8; 32], parity_is_odd: bool) -> (r: Result<PublicKey, SignerError>)
        ensures
            r is Ok <==> spec_x_only_public_key_is_valid(x@),
            r matches Ok(key) ==> key.spec_bytes() == seq![spec_parity_prefix(parity_is_odd)] + x@,
            r matches Err(err) ==> err is InvalidPublicKey,
    {
        match x_only_public_key_from_slice(x) {
            Ok(x_only) => {
                let bytes = public_key_from_x_only_public_key(x_only, parity_is_odd);
                assert(bytes@.subrange(1, 33) =~= x@);
                Ok(PublicKey { bytes })
            },
            Err(err) => Err(SignerError::InvalidPublicKey(err)),
        }
    }

    /// The public key of a private key, as `p256k1::ecdsa::PublicKey::new`
    /// derives it.
    pub fn from_private_key(private_key: &PrivateKey) -> (r: PublicKey)
        ensures
            r.spec_bytes() == spec_public_key_of_private_key(private_key.spec_bytes()),
    {
        let bytes = private_key.to_bytes();
        PublicKey { bytes: p256k1_public_key_new(&bytes) }
    }

    /// The x-coordinate of the key and whether its y-coordinate is odd.
    pub fn x_only_public_key(&self) -> (r: ([u8; 32], bool))
        ensures
            r.0@ == self.spec_x_only(),
            r.0 == self.spec_x_only_array(),
            r.1 == self.spec_parity_is_odd(),
            spec_x_only_public_key_is_valid(r.0@),
    {
        proof {
            use_type_invariant(self);
        }
        let b = &self.bytes;
        let x: [u8; 32] = [
            b[1], b[2], b[3], b[4], b[5], b[6], b[7], b[8], b[9], b[10], b[11], b[12], b[13],
            b[14], b[15], b[16], b[17], b[18], b[19], b[20], b[21], b[22], b[23], b[24], b[25],
            b[26], b[27], b[28], b[29], b[30], b[31], b[32],
        ];
        assert(x@ =~= self.spec_x_only());
        proof {
            let chosen = self.spec_x_only_array();
            assert(chosen@ == self.spec_x_only());
            assert(chosen =~= x);
        }
        (x, b[0] == 3u8)
    }

    /// The scriptPubKey that locks the signers' UTXO when this key is their
    /// aggregate key: a key-path-only taproot output with this key as the
    /// internal key.
    pub fn signers_script_pubkey(&self) -> (r: Vec<u8>)
        ensures
            r@ == spec_signers_script_pubkey(self.spec_x_only()),
    {
        let (x_only, _) = self.x_only_public_key();
        script_pubkey_new_p2tr(&x_only)
    }
}

/// A well-formed public key is the compressed serialization of a curve point.
pub proof fn lemma_public_key_wf(key: PublicKey)
    requires
        key.wf(),
    ensures
        spec_is_compressed_public_key(key.spec_bytes()),
{
}

/// A well-formed recoverable signature has a recovery id between 0 and 3 and
/// a valid compact form.
pub proof fn lemma_recoverable_signature_wf(sig: RecoverableSignature)
    requires
        sig.wf(),
    ensures
        0 <= sig.spec_recovery_id() <= 3,
        spec_compact_signature_is_valid(sig.spec_compact()),
        sig.spec_compact().len() == 64,
{
}

/// Two public keys with the same serialization are the same key.
pub proof fn lemma_public_key_ext(a: PublicKey, b: PublicKey)
    requires
        a.spec_bytes() == b.spec_bytes(),
    ensures
        a == b,
{
    assert(a.bytes =~= b.bytes);
}

/// Two recoverable signatures with the same compact form and recovery id are
/// the same signature.
pub proof fn lemma_recoverable_signature_ext(a: RecoverableSignature, b: RecoverableSignature)
    requires
        a.spec_compact() == b.spec_compact(),
        a.spec_recovery_id() == b.spec_recovery_id(),
    ensures
        a == b,
{
    assert(a.compact =~= b.compact);
}

/// A recoverable ECDSA signature, held as its compact form and recovery id.
#[derive(Clone, Copy, Debug, PartialEq, Eq)]
pub struct RecoverableSignature {
    pub(crate) compact: [u8; 64],
    pub(crate) recovery_id: i32,
}

impl RecoverableSignature {
    /// Every signature has a recovery id between 0 and 3 and a valid compact
    /// form.
    #[verifier::type_invariant]
    pub closed spec fn wf(self) -> bool {
        &&& 0 <= self.recovery_id <= 3
        &&& spec_compact_signature_is_valid(self.compact@)
    }

    /// The compact form of the signature.
    pub closed spec fn spec_compact(self) -> Seq<u8> {
        self.compact@
    }

    /// The recovery id of the signature.
    pub closed spec fn spec_recovery_id(self) -> i32 {
        self.recovery_id
    }

    /// Parses a compact signature with its recovery id. An id outside 0 to 3
    /// gives `InvalidPublicKey`; bytes that are not a valid compact signature
    /// give `InvalidRecoverableSignatureBytes`.
    pub fn from_compact(data: &[u8; 64], recovery_id: i32) -> (r: Result<RecoverableSignature, SignerError>)
        ensures
            r is Ok <==> 0 <= recovery_id <= 3 && spec_compact_signature_is_valid(data@),
            r matches Ok(sig) ==> sig.spec_compact() == data@ && sig.spec_recovery_id() == recovery_id,
            r matches Err(err) ==> (if 0 <= recovery_id <= 3 {
                err is InvalidRecoverableSignatureBytes
            } else {
                err is InvalidPublicKey
            }),
    {
        let recovery_id = match recovery_id_from_i32(recovery_id) {
            Ok(id) => id,
            Err(err) => return Err(SignerError::InvalidPublicKey(err)),
        };
        match recoverable_signature_from_compact(data, recovery_id) {
            Ok(compact) => Ok(RecoverableSignature { compact, recovery_id }),
            Err(err) => Err(SignerError::InvalidRecoverableSignatureBytes(err)),
        }
    }

    /// The recovery id and the compact form of the signature.
    pub fn serialize_compact(&self) -> (r: (i32, [u8; 64]))
        ensures
            r.0 == self.spec_recovery_id(),
            r.1@ == self.spec_compact(),
            0 <= r.0 <= 3,
            spec_compact_signature_is_valid(r.1@),
    {
        proof {
            use_type_invariant(self);
        }
        (self.recovery_id, self.compact)
    }
}

} // verus!
