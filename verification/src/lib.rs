//! Verified core of the sBTC signer: canonical conversions between the
//! signer's domain types and their protobuf messages, parsing of
//! bitcoin-core ZeroMQ notifications, selection of the signers' UTXO and
//! the configuration of the WSTS state machines.

pub mod codec;
pub mod convert;
pub mod error;
pub mod keys;
pub mod model;
pub mod network;
pub mod proto;
pub mod storage;
pub mod testing;
pub mod transaction_signer;
mod util;
pub mod wire;
pub mod wsts_state_machine;
pub mod zmq;
