//! Domain types stored by the signer.

use vstd::prelude::*;

verus! {

/// A bitcoin transaction id, in the byte order of the hash itself.
#[derive(Clone, Copy, Debug, PartialEq, Eq, Hash)]
pub struct BitcoinTxId(pub [u8; 32]);

/// A bitcoin block hash, in the byte order of the hash itself.
#[derive(Clone, Copy, Debug, PartialEq, Eq)]
pub struct BitcoinBlockHash(pub [u8; 32]);

/// A stacks transaction id.
#[derive(Clone, Copy, Debug, PartialEq, Eq)]
pub struct StacksTxId(pub [u8; 32]);

/// A stacks block hash (the stacks block id).
#[derive(Clone, Copy, Debug, PartialEq, Eq)]
pub struct StacksBlockHash(pub [u8; 32]);

/// A stacks address: its version byte and the 20-byte hash of its public
/// key or script.
#[derive(Clone, Copy, Debug, PartialEq, Eq)]
pub struct StacksAddress {
    /// The address version.
    pub version: u8,
    /// The hash160 of the address's public key or script.
    pub bytes: [u8; 20],
}

/// A reference to an output of a bitcoin transaction.
#[derive(Clone, Copy, Debug, PartialEq, Eq)]
pub struct OutPoint {
    /// The id of the transaction holding the output.
    pub txid: BitcoinTxId,
    /// The index of the output in that transaction.
    pub vout: u32,
}

impl BitcoinTxId {
    /// The bytes of the transaction id.
    pub fn into_bytes(self) -> (r: [u8; 32])
        ensures
            r == self.0,
    {
        self.0
    }
}

impl BitcoinBlockHash {
    /// The bytes of the block hash.
    pub fn into_bytes(self) -> (r: [u8; 32])
        ensures
            r == self.0,
    {
        self.0
    }
}

impl StacksTxId {
    /// The bytes of the transaction id.
    pub fn into_bytes(self) -> (r: [u8; 32])
        ensures
            r == self.0,
    {
        self.0
    }
}

impl StacksBlockHash {
    /// The bytes of the block id.
    pub fn into_bytes(self) -> (r: [u8; 32])
        ensures
            r == self.0,
    {
        self.0
    }
}

} // verus!
