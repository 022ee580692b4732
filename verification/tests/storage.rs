use bitcoin::hashes::Hash as _;
use secp256k1::SECP256K1;

use signer::error::SignerError;
use signer::keys::PublicKey;
use signer::model::BitcoinTxId;
use signer::model::OutPoint;
use signer::storage::get_utxo;
use signer::storage::BitcoinTransaction;
use signer::storage::SignerUtxo;
use signer::storage::TxOut;

fn aggregate_key() -> (PublicKey, secp256k1::XOnlyPublicKey) {
    let secret = secp256k1::SecretKey::from_slice(&[11; 32]).unwrap();
    let key = secp256k1::PublicKey::from_secret_key(SECP256K1, &secret);
    (PublicKey::from_slice(&key.serialize()).unwrap(), key.x_only_public_key().0)
}

fn signers_script(x_only: secp256k1::XOnlyPublicKey) -> Vec<u8> {
    bitcoin::ScriptBuf::new_p2tr(SECP256K1, x_only, None).into_bytes()
}

fn tx(id: u8, inputs: Vec<OutPoint>, outputs: Vec<TxOut>) -> BitcoinTransaction {
    BitcoinTransaction { txid: BitcoinTxId([id; 32]), inputs, outputs }
}

#[test]
fn signers_script_pubkey_is_the_taproot_script_of_the_key() {
    let (key, x_only) = aggregate_key();
    let script = key.signers_script_pubkey();
    assert_eq!(script, signers_script(x_only));
    assert_eq!(script.len(), 34);
    assert_eq!(&script[..2], &[0x51, 0x20]);
}

#[test]
fn no_transactions_means_no_utxo() {
    let (key, _) = aggregate_key();
    assert_eq!(get_utxo(&key, vec![]).unwrap(), None);
}

#[test]
fn the_unspent_signer_output_is_found() {
    let (key, x_only) = aggregate_key();
    let script = signers_script(x_only);
    let first = tx(1, vec![], vec![TxOut { value: 1000, script_pubkey: script.clone() }]);
    let second = tx(
        2,
        vec![OutPoint { txid: BitcoinTxId([1; 32]), vout: 0 }],
        vec![TxOut { value: 900, script_pubkey: script.clone() }],
    );
    let utxo = get_utxo(&key, vec![first, second]).unwrap();
    assert_eq!(
        utxo,
        Some(SignerUtxo {
            outpoint: OutPoint { txid: BitcoinTxId([2; 32]), vout: 0 },
            amount: 900,
            public_key: x_only.serialize(),
        })
    );
}

#[test]
fn outputs_to_other_scripts_and_later_outputs_are_ignored() {
    let (key, x_only) = aggregate_key();
    let script = signers_script(x_only);
    let other = tx(3, vec![], vec![TxOut { value: 5, script_pubkey: vec![0x6a] }]);
    let second_output = tx(
        4,
        vec![],
        vec![
            TxOut { value: 1, script_pubkey: vec![0x51] },
            TxOut { value: 2, script_pubkey: script.clone() },
        ],
    );
    let no_outputs = tx(5, vec![], vec![]);
    assert_eq!(get_utxo(&key, vec![other, second_output, no_outputs]).unwrap(), None);
}

#[test]
fn two_unspent_signer_outputs_are_refused() {
    let (key, x_only) = aggregate_key();
    let script = signers_script(x_only);
    let first = tx(1, vec![], vec![TxOut { value: 1000, script_pubkey: script.clone() }]);
    let second = tx(2, vec![], vec![TxOut { value: 900, script_pubkey: script.clone() }]);
    assert!(matches!(get_utxo(&key, vec![first, second]), Err(SignerError::TooManySignerUtxos)));
}

#[test]
fn a_spent_output_is_not_a_utxo_even_when_spent_by_an_earlier_transaction() {
    let (key, x_only) = aggregate_key();
    let script = signers_script(x_only);
    let spender = tx(
        7,
        vec![OutPoint { txid: BitcoinTxId([8; 32]), vout: 0 }],
        vec![TxOut { value: 1, script_pubkey: vec![0x00] }],
    );
    let spent = tx(8, vec![], vec![TxOut { value: 50, script_pubkey: script }]);
    assert_eq!(get_utxo(&key, vec![spender, spent]).unwrap(), None);
}

#[test]
fn the_order_of_the_transactions_does_not_matter() {
    let (key, x_only) = aggregate_key();
    let script = signers_script(x_only);
    let first = tx(1, vec![], vec![TxOut { value: 1000, script_pubkey: script.clone() }]);
    let second = tx(
        2,
        vec![OutPoint { txid: BitcoinTxId([1; 32]), vout: 0 }],
        vec![TxOut { value: 900, script_pubkey: script.clone() }],
    );
    let third = tx(3, vec![], vec![TxOut { value: 5, script_pubkey: vec![0x00] }]);
    let forward = get_utxo(&key, vec![first.clone(), second.clone(), third.clone()]).unwrap();
    let backward = get_utxo(&key, vec![third, second, first]).unwrap();
    assert_eq!(forward, backward);
    assert_eq!(forward.unwrap().amount, 900);
}

#[test]
fn bitcoin_transactions_keep_their_id_inputs_and_outputs() {
    let previous = bitcoin::OutPoint { txid: bitcoin::Txid::from_byte_array([4; 32]), vout: 3 };
    let tx = bitcoin::Transaction {
        version: bitcoin::transaction::Version::TWO,
        lock_time: bitcoin::absolute::LockTime::ZERO,
        input: vec![bitcoin::TxIn { previous_output: previous, ..Default::default() }],
        output: vec![bitcoin::TxOut {
            value: bitcoin::Amount::from_sat(700),
            script_pubkey: bitcoin::ScriptBuf::from_bytes(vec![0x51]),
        }],
    };
    let model = signer::storage::bitcoin_transaction(&tx);
    assert_eq!(model.txid, BitcoinTxId(tx.compute_txid().to_byte_array()));
    assert_eq!(model.inputs, vec![OutPoint { txid: BitcoinTxId([4; 32]), vout: 3 }]);
    assert_eq!(model.outputs, vec![TxOut { value: 700, script_pubkey: vec![0x51] }]);
}
