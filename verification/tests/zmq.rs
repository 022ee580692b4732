use bitcoin::hashes::Hash as _;

use signer::error::SignerError;
use signer::zmq::block_hash_of;
use signer::zmq::block_of;
use signer::zmq::parse_bitcoin_core_message;
use signer::zmq::parse_bitcoin_core_message_frames;
use signer::zmq::BitcoinCoreMessage;

fn message(frames: Vec<Vec<u8>>) -> zeromq::ZmqMessage {
    let mut frames = frames.into_iter();
    let mut msg = zeromq::ZmqMessage::from(frames.next().unwrap());
    for frame in frames {
        msg.push_back(frame.into());
    }
    msg
}

fn hash_bytes() -> Vec<u8> {
    (0..32u8).collect()
}

#[test]
fn hashblock_message_is_parsed_with_reversed_hash() {
    let msg = message(vec![b"hashblock".to_vec(), hash_bytes(), vec![7, 1, 0, 0]]);
    let parsed = parse_bitcoin_core_message(msg).unwrap();

    let mut expected: [u8; 32] = core::array::from_fn(|i| i as u8);
    expected.reverse();
    let expected_hash = bitcoin::BlockHash::from_byte_array(expected);
    assert_eq!(parsed, BitcoinCoreMessage::HashBlock(expected_hash, 263));
}

#[test]
fn rawblock_message_is_parsed() {
    let genesis = bitcoin::blockdata::constants::genesis_block(bitcoin::Network::Bitcoin);
    let raw = bitcoin::consensus::serialize(&genesis);
    let msg = message(vec![b"rawblock".to_vec(), raw, vec![0xff, 0xff, 0xff, 0xff]]);
    let parsed = parse_bitcoin_core_message(msg).unwrap();
    assert_eq!(parsed, BitcoinCoreMessage::RawBlock(genesis, u32::MAX));
}

#[test]
fn rawblock_that_does_not_decode_is_refused() {
    let msg = message(vec![b"rawblock".to_vec(), vec![1, 2, 3], vec![0, 0, 0, 0]]);
    assert!(matches!(parse_bitcoin_core_message(msg), Err(SignerError::DecodeBitcoinBlock(_))));
}

#[test]
fn message_with_wrong_number_of_frames_is_refused() {
    let msg = message(vec![b"hashblock".to_vec(), hash_bytes()]);
    assert!(matches!(parse_bitcoin_core_message(msg), Err(SignerError::Encryption)));
    let msg = message(vec![b"hashblock".to_vec(), hash_bytes(), vec![0; 4], vec![]]);
    assert!(matches!(parse_bitcoin_core_message(msg), Err(SignerError::Encryption)));
}

#[test]
fn message_with_unknown_topic_is_refused() {
    let msg = message(vec![b"hashtx".to_vec(), hash_bytes(), vec![0; 4]]);
    assert!(matches!(parse_bitcoin_core_message(msg), Err(SignerError::Encryption)));
}

#[test]
fn hashblock_with_bad_lengths_is_refused() {
    let frames = vec![b"hashblock".to_vec(), vec![0; 31], vec![0; 4]];
    assert!(matches!(parse_bitcoin_core_message_frames(&frames), Err(SignerError::Encryption)));
    let frames = vec![b"hashblock".to_vec(), hash_bytes(), vec![0; 5]];
    assert!(matches!(parse_bitcoin_core_message_frames(&frames), Err(SignerError::Encryption)));
}

#[test]
fn rawblock_with_bad_sequence_is_refused() {
    let genesis = bitcoin::blockdata::constants::genesis_block(bitcoin::Network::Bitcoin);
    let raw = bitcoin::consensus::serialize(&genesis);
    let frames = vec![b"rawblock".to_vec(), raw, vec![0; 3]];
    assert!(matches!(parse_bitcoin_core_message_frames(&frames), Err(SignerError::Encryption)));
}

#[test]
fn block_streams_keep_their_own_notifications_and_errors() {
    let genesis = bitcoin::blockdata::constants::genesis_block(bitcoin::Network::Bitcoin);
    let hash = genesis.block_hash();
    let raw: Result<BitcoinCoreMessage, u8> = Ok(BitcoinCoreMessage::RawBlock(genesis.clone(), 7));
    let hashed: Result<BitcoinCoreMessage, u8> = Ok(BitcoinCoreMessage::HashBlock(hash, 8));
    assert_eq!(block_of(raw), Some(Ok(genesis.clone())));
    assert_eq!(block_of(hashed), None);
    assert_eq!(block_of::<u8>(Err(3)), Some(Err(3)));
    let raw: Result<BitcoinCoreMessage, u8> = Ok(BitcoinCoreMessage::RawBlock(genesis, 7));
    let hashed: Result<BitcoinCoreMessage, u8> = Ok(BitcoinCoreMessage::HashBlock(hash, 8));
    assert_eq!(block_hash_of(hashed), Some(Ok(hash)));
    assert_eq!(block_hash_of(raw), None);
    assert_eq!(block_hash_of::<u8>(Err(4)), Some(Err(4)));
}
