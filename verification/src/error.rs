//! The error type of the signer library.

use vstd::prelude::*;

use crate::codec::CodecError;

verus! {

/// The secp256k1 library's error type.
#[verifier::external_type_specification]
#[verifier::external_body]
pub struct ExSecpError(secp256k1::Error);

/// The error of bitcoin's consensus decoding.
#[verifier::external_type_specification]
#[verifier::external_body]
pub struct ExConsensusError(bitcoin::consensus::encode::Error);

/// The error of the stacks consensus codec.
#[verifier::external_type_specification]
#[verifier::external_body]
pub struct ExStacksCodecError(stacks_common::codec::Error);

/// Errors returned by the signer library.
#[derive(Debug)]
pub enum SignerError {
    /// A conversion between types failed, for example because a required
    /// protobuf field was missing.
    TypeConversion,
    /// The bytes do not describe a valid public key, or the recovery id is
    /// out of range.
    InvalidPublicKey(secp256k1::Error),
    /// The bytes are not a valid private key.
    InvalidPrivateKey(secp256k1::Error),
    /// The bytes do not describe a valid recoverable ECDSA signature.
    InvalidRecoverableSignatureBytes(secp256k1::Error),
    /// A message from bitcoin-core is malformed.
    Encryption,
    /// A raw block from bitcoin-core could not be decoded.
    DecodeBitcoinBlock(bitcoin::consensus::encode::Error),
    /// The signer set does not hold this signer's public key.
    MissingPublicKey,
    /// The signing threshold is larger than the number of keys.
    InvalidConfiguration,
    /// A stacks value could not be decoded.
    StacksCodec(stacks_common::codec::Error),
    /// Encoding or decoding a message failed.
    Codec(CodecError),
    /// The WSTS coordinator failed.
    WstsCoordinator(Box<wsts::state_machine::coordinator::Error>),
    /// More than one unspent output pays to the signers' aggregate key.
    TooManySignerUtxos,
    /// No DKG shares are stored for the requested aggregate key.
    MissingDkgShares,
}

} // verus!
