# signer

The verified core of an sBTC signer, written in Verus.

- `src/convert.rs`: conversions between the signer's domain types and their
  protobuf messages, with the laws that each conversion undoes the other.
- `src/wire.rs`, `src/codec.rs`: the canonical protobuf wire format of the
  messages, and the `Encode`/`Decode` traits built on it.
- `src/keys.rs`: public keys, private keys and recoverable signatures on
  secp256k1, with the calls into the `secp256k1` and `p256k1` crates.
- `src/zmq.rs`: parsing of bitcoin-core's ZeroMQ block notifications.
- `src/storage.rs`: selection of the signers' UTXO, which does not depend
  on the order of the transactions.
- `src/network.rs`: the record of sent messages that keeps an in-memory
  signer network from receiving its own messages.
- `src/wsts_state_machine.rs`: the configuration and construction of the
  WSTS signer and coordinator state machines, and their loading from
  stored DKG results.
- `src/testing.rs`, `src/transaction_signer.rs`: test configuration types
  and the event loop harness.

`app/` holds the asynchronous and I/O parts (the ZeroMQ stream, the
in-memory network, the metrics exporter) and the dummy data generators.
