//! Protobuf message types exchanged between signers.
//!
//! Message fields are `Option`s where the protobuf schema uses a nested
//! message, since a nested message may be missing on the wire.

use vstd::prelude::*;

verus! {

/// A 256-bit unsigned integer split into four little-endian 64-bit limbs.
#[derive(Clone, Copy, Debug, PartialEq, Eq, Structural)]
pub struct Uint256 {
    /// The 64 least significant bits.
    pub bits_part0: u64,
    /// The next 64 bits.
    pub bits_part1: u64,
    /// The next 64 bits.
    pub bits_part2: u64,
    /// The 64 most significant bits.
    pub bits_part3: u64,
}

/// A public key on the secp256k1 curve in x-only form with its parity.
#[derive(Clone, Copy, Debug, PartialEq, Eq, Structural)]
pub struct PublicKey {
    /// The x-coordinate of the public key.
    pub x_only_public_key: Option<Uint256>,
    /// Whether the y-coordinate of the public key is odd.
    pub parity_is_odd: bool,
}

/// A recoverable ECDSA signature in compact form.
#[derive(Clone, Copy, Debug, PartialEq, Eq, Structural)]
pub struct RecoverableSignature {
    /// The first 32 bytes of the compact signature.
    pub lower_bits: Option<Uint256>,
    /// The last 32 bytes of the compact signature.
    pub upper_bits: Option<Uint256>,
    /// The recovery id.
    pub recovery_id: i32,
}

/// A bitcoin transaction id.
#[derive(Clone, Copy, Debug, PartialEq, Eq, Structural)]
pub struct BitcoinTxid {
    /// The transaction id.
    pub txid: Option<Uint256>,
}

/// A bitcoin block hash.
#[derive(Clone, Copy, Debug, PartialEq, Eq, Structural)]
pub struct BitcoinBlockHash {
    /// The block hash.
    pub block_hash: Option<Uint256>,
}

/// A reference to an output of a bitcoin transaction.
#[derive(Clone, Copy, Debug, PartialEq, Eq, Structural)]
pub struct OutPoint {
    /// The id of the transaction holding the output.
    pub txid: Option<BitcoinTxid>,
    /// The index of the output in that transaction.
    pub vout: u32,
}

/// A stacks transaction id.
#[derive(Clone, Copy, Debug, PartialEq, Eq, Structural)]
pub struct StacksTxid {
    /// The transaction id.
    pub txid: Option<Uint256>,
}

/// A stacks block id.
#[derive(Clone, Copy, Debug, PartialEq, Eq, Structural)]
pub struct StacksBlockId {
    /// The block id.
    pub block_id: Option<Uint256>,
}

/// A stacks address in its consensus serialization.
#[derive(Clone, Debug, PartialEq, Eq)]
pub struct StacksAddress {
    /// The serialized address.
    pub address: Vec<u8>,
}

} // verus!
