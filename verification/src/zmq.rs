//! Parsing of the notifications that bitcoin-core publishes over ZeroMQ.
//!
//! bitcoin-core sends multipart messages made of a topic, a body and a
//! sequence number. Only `hashblock` notifications (the body is a 32-byte
//! block hash in little-endian byte order) and `rawblock` notifications (the
//! body is a consensus-encoded block) are parsed; the sequence number is a
//! little-endian 4-byte unsigned integer.

use vstd::prelude::*;
use vstd::bytes::{
    lemma_auto_spec_u32_to_from_le_bytes, spec_u32_from_le_bytes, spec_u32_to_le_bytes, u32_from_le_bytes,
};

use crate::error::SignerError;
use crate::util::bytes_equal;

verus! {

/// A bitcoin block.
#[verifier::external_type_specification]
#[verifier::external_body]
pub struct ExBlock(bitcoin::Block);

/// The hash of a bitcoin block.
#[verifier::external_type_specification]
#[verifier::external_body]
pub struct ExBlockHash(bitcoin::BlockHash);

/// A multipart ZeroMQ message.
#[verifier::external_type_specification]
#[verifier::external_body]
pub struct ExZmqMessage(zeromq::ZmqMessage);

/// The frames that a ZeroMQ message holds, in order.
pub uninterp spec fn spec_zmq_message_frames(message: zeromq::ZmqMessage) -> Seq<Seq<u8>>;

/// What `bitcoin::BlockHash::from_byte_array` returns for these 32 bytes.
pub uninterp spec fn spec_block_hash_from_byte_array(bytes: Seq<u8>) -> bitcoin::BlockHash;

/// What `bitcoin::Block::consensus_decode` returns when it reads from these
/// bytes.
pub uninterp spec fn spec_block_consensus_decode(bytes: Seq<u8>) -> Result<
    bitcoin::Block,
    bitcoin::consensus::encode::Error,
>;

/// Hands out the frames of a ZeroMQ message (`zeromq::ZmqMessage::iter`),
/// each copied into a vector of bytes.
#[verifier::external_body]
fn zmq_message_frames(message: &zeromq::ZmqMessage) -> (r: Vec<Vec<u8>>)
    ensures
        r@.map_values(|frame: Vec<u8>| frame@) == spec_zmq_message_frames(*message),
{
    message.iter().map(|frame| frame.to_vec()).collect()
}

/// Calls `bitcoin::BlockHash::from_byte_array`.
#[verifier::external_body]
fn block_hash_from_byte_array(bytes: [u8; 32]) -> (r: bitcoin::BlockHash)
    ensures
        r == spec_block_hash_from_byte_array(bytes@),
{
    <bitcoin::BlockHash as bitcoin::hashes::Hash>::from_byte_array(bytes)
}

/// Calls `bitcoin::Block::consensus_decode`, reading from the given bytes.
#[verifier::external_body]
fn block_consensus_decode(bytes: &[u8]) -> (r: Result<bitcoin::Block, bitcoin::consensus::encode::Error>)
    ensures
        r == spec_block_consensus_decode(bytes@),
{
    let mut reader = bytes;
    <bitcoin::Block as bitcoin::consensus::Decodable>::consensus_decode(&mut reader)
}

/// The notifications from bitcoin-core that the signer handles.
#[derive(Debug, PartialEq, Eq)]
pub enum BitcoinCoreMessage {
    /// `hashblock`: the chain tip was updated to the block with this hash;
    /// the second field is the message's sequence number.
    HashBlock(bitcoin::BlockHash, u32),
    /// `rawblock`: the chain tip was updated to this block; the second field
    /// is the message's sequence number.
    RawBlock(bitcoin::Block, u32),
}

/// The topic of block hash notifications, `hashblock`.
pub open spec fn spec_hashblock_topic() -> Seq<u8> {
    seq![104u8, 97u8, 115u8, 104u8, 98u8, 108u8, 111u8, 99u8, 107u8]
}

/// The topic of raw block notifications, `rawblock`.
pub open spec fn spec_rawblock_topic() -> Seq<u8> {
    seq![114u8, 97u8, 119u8, 98u8, 108u8, 111u8, 99u8, 107u8]
}

/// The sequence number carried in a frame: a little-endian 4-byte unsigned
/// integer, or `Encryption` when the frame does not have 4 bytes.
pub open spec fn spec_sequence_number(frame: Seq<u8>) -> Result<u32, SignerError> {
    if frame.len() == 4 {
        Ok(spec_u32_from_le_bytes(frame))
    } else {
        Err(SignerError::Encryption)
    }
}

/// The notification that the frames of a ZeroMQ message describe.
///
/// A message that does not have exactly three frames, whose topic is neither
/// `hashblock` nor `rawblock`, whose block hash does not have 32 bytes or
/// whose sequence number does not have 4 bytes is refused with
/// `Encryption`; a raw block that does not decode is refused with
/// `DecodeBitcoinBlock`. The block hash is sent in little-endian byte order
/// and is reversed before it becomes a `BlockHash`.
pub open spec fn spec_parse_bitcoin_core_message(frames: Seq<Seq<u8>>) -> Result<BitcoinCoreMessage, SignerError> {
    if frames.len() != 3 {
        Err(SignerError::Encryption)
    } else if frames[0] == spec_hashblock_topic() {
        if frames[1].len() != 32 {
            Err(SignerError::Encryption)
        } else {
            match spec_sequence_number(frames[2]) {
                Ok(sequence) => Ok(
                    BitcoinCoreMessage::HashBlock(
                        spec_block_hash_from_byte_array(frames[1].reverse()),
                        sequence,
                    ),
                ),
                Err(err) => Err(err),
            }
        }
    } else if frames[0] == spec_rawblock_topic() {
        match spec_block_consensus_decode(frames[1]) {
            Err(err) => Err(SignerError::DecodeBitcoinBlock(err)),
            Ok(block) => match spec_sequence_number(frames[2]) {
                Ok(sequence) => Ok(BitcoinCoreMessage::RawBlock(block, sequence)),
                Err(err) => Err(err),
            },
        }
    } else {
        Err(SignerError::Encryption)
    }
}

/// Reads the sequence number frame.
fn sequence_number(frame: &Vec<u8>) -> (r: Result<u32, SignerError>)
    ensures
        r == spec_sequence_number(frame@),
{
    if frame.len() != 4 {
        return Err(SignerError::Encryption);
    }
    Ok(u32_from_le_bytes(frame.as_slice()))
}

/// Parses the frames of a ZeroMQ message from bitcoin-core.
pub fn parse_bitcoin_core_message_frames(frames: &Vec<Vec<u8>>) -> (r: Result<BitcoinCoreMessage, SignerError>)
    ensures
        r == spec_parse_bitcoin_core_message(frames@.map_values(|frame: Vec<u8>| frame@)),
{
    let ghost parts = frames@.map_values(|frame: Vec<u8>| frame@);
    if frames.len() != 3 {
        return Err(SignerError::Encryption);
    }
    let topic = &frames[0];
    let body = &frames[1];
    let sequence_bytes = &frames[2];
    assert(parts[0] == topic@ && parts[1] == body@ && parts[2] == sequence_bytes@);
    let hashblock: [u8; 9] = [104u8, 97u8, 115u8, 104u8, 98u8, 108u8, 111u8, 99u8, 107u8];
    let rawblock: [u8; 8] = [114u8, 97u8, 119u8, 98u8, 108u8, 111u8, 99u8, 107u8];
    assert(hashblock@ =~= spec_hashblock_topic());
    assert(rawblock@ =~= spec_rawblock_topic());
    if bytes_equal(topic.as_slice(), hashblock.as_slice()) {
        if body.len() != 32 {
            return Err(SignerError::Encryption);
        }
        // The hash arrives in little-endian byte order, while a `BlockHash`
        // is built from its bytes in the opposite order.
        let block_hash_bytes: [u8; 32] = [body[31], body[30], body[29], body[28], body[27], body[26], body[25], body[24], body[23], body[22], body[21], body[20], body[19], body[18], body[17], body[16], body[15], body[14], body[13], body[12], body[11], body[10], body[9], body[8], body[7], body[6], body[5], body[4], body[3], body[2], body[1], body[0]];
        assert(block_hash_bytes@ =~= body@.reverse());
        let sequence = match sequence_number(sequence_bytes) {
            Ok(sequence) => sequence,
            Err(err) => return Err(err),
        };
        Ok(BitcoinCoreMessage::HashBlock(block_hash_from_byte_array(block_hash_bytes), sequence))
    } else if bytes_equal(topic.as_slice(), rawblock.as_slice()) {
        let block = match block_consensus_decode(body.as_slice()) {
            Ok(block) => block,
            Err(err) => return Err(SignerError::DecodeBitcoinBlock(err)),
        };
        let sequence = match sequence_number(sequence_bytes) {
            Ok(sequence) => sequence,
            Err(err) => return Err(err),
        };
        Ok(BitcoinCoreMessage::RawBlock(block, sequence))
    } else {
        Err(SignerError::Encryption)
    }
}

/// Parses a ZeroMQ message from bitcoin-core.
pub fn parse_bitcoin_core_message(message: zeromq::ZmqMessage) -> (r: Result<BitcoinCoreMessage, SignerError>)
    ensures
        r == spec_parse_bitcoin_core_message(spec_zmq_message_frames(message)),
{
    let frames = zmq_message_frames(&message);
    parse_bitcoin_core_message_frames(&frames)
}

/// A `rawblock` notification carrying a block that decodes and the
/// little-endian bytes of a sequence number parses to that block and that
/// sequence number, for every block and every sequence number.
pub proof fn lemma_rawblock_carries_its_block_and_sequence(body: Seq<u8>, sequence: u32)
    requires
        spec_block_consensus_decode(body) is Ok,
    ensures
        spec_parse_bitcoin_core_message(
            seq![
                seq![114u8, 97u8, 119u8, 98u8, 108u8, 111u8, 99u8, 107u8],
                body,
                spec_u32_to_le_bytes(sequence),
            ],
        ) == Ok::<BitcoinCoreMessage, SignerError>(
            BitcoinCoreMessage::RawBlock(spec_block_consensus_decode(body)->Ok_0, sequence),
        ),
{
    lemma_auto_spec_u32_to_from_le_bytes();
    let frames = seq![
        seq![114u8, 97u8, 119u8, 98u8, 108u8, 111u8, 99u8, 107u8],
        body,
        spec_u32_to_le_bytes(sequence),
    ];
    assert(frames[0] =~= spec_rawblock_topic());
    assert(frames[0] != spec_hashblock_topic()) by {
        assert(frames[0].len() != spec_hashblock_topic().len());
    }
    assert(spec_u32_to_le_bytes(sequence).len() == 4);
    assert(spec_u32_from_le_bytes(frames[2]) == sequence);
}

/// A `hashblock` notification carrying 32 bytes and the little-endian bytes
/// of a sequence number parses to the block hash of those bytes taken in
/// reverse order and to that sequence number, for every hash and every
/// sequence number.
pub proof fn lemma_hashblock_carries_its_hash_and_sequence(hash: Seq<u8>, sequence: u32)
    requires
        hash.len() == 32,
    ensures
        spec_parse_bitcoin_core_message(
            seq![
                seq![104u8, 97u8, 115u8, 104u8, 98u8, 108u8, 111u8, 99u8, 107u8],
                hash,
                spec_u32_to_le_bytes(sequence),
            ],
        ) == Ok::<BitcoinCoreMessage, SignerError>(
            BitcoinCoreMessage::HashBlock(spec_block_hash_from_byte_array(hash.reverse()), sequence),
        ),
{
    lemma_auto_spec_u32_to_from_le_bytes();
    let frames = seq![
        seq![104u8, 97u8, 115u8, 104u8, 98u8, 108u8, 111u8, 99u8, 107u8],
        hash,
        spec_u32_to_le_bytes(sequence),
    ];
    assert(frames[0] =~= spec_hashblock_topic());
    assert(spec_u32_to_le_bytes(sequence).len() == 4);
    assert(spec_u32_from_le_bytes(frames[2]) == sequence);
}

/// What the stream of blocks makes of a message: the block of a `rawblock`
/// notification, nothing for another notification, and errors passed on.
pub fn block_of<E>(message: Result<BitcoinCoreMessage, E>) -> (r: Option<Result<bitcoin::Block, E>>)
    ensures
        match message {
            Ok(BitcoinCoreMessage::RawBlock(block, _)) => r == Some(Ok::<bitcoin::Block, E>(block)),
            Ok(_) => r is None,
            Err(err) => r == Some(Err::<bitcoin::Block, E>(err)),
        },
{
    match message {
        Ok(BitcoinCoreMessage::RawBlock(block, _)) => Some(Ok(block)),
        Ok(_) => None,
        Err(err) => Some(Err(err)),
    }
}

/// What the stream of block hashes makes of a message: the hash of a
/// `hashblock` notification, nothing for another notification, and errors
/// passed on.
pub fn block_hash_of<E>(message: Result<BitcoinCoreMessage, E>) -> (r: Option<Result<bitcoin::BlockHash, E>>)
    ensures
        match message {
            Ok(BitcoinCoreMessage::HashBlock(hash, _)) => r == Some(Ok::<bitcoin::BlockHash, E>(hash)),
            Ok(_) => r is None,
            Err(err) => r == Some(Err::<bitcoin::BlockHash, E>(err)),
        },
{
    match message {
        Ok(BitcoinCoreMessage::HashBlock(hash, _)) => Some(Ok(hash)),
        Ok(_) => None,
        Err(err) => Some(Err(err)),
    }
}

} // verus!
