use signer::keys::PrivateKey;
use signer::keys::PublicKey;
use signer::testing::BitcoinAddresses;
use signer::testing::DepositTxConfig;
use signer::testing::SignerSetConfig;
use signer::testing::sweep_tx_outputs;
use signer::testing::SweepTxConfig;
use signer::testing::TxSignerEventLoopHarness;

#[test]
fn harness_starts_with_no_state_machines() {
    let key = PrivateKey::from_slice(&[3; 32]).unwrap();
    let harness = TxSignerEventLoopHarness::create(5u8, "network", 10, key, 2, 99u64);
    assert_eq!(harness.context, 5);
    assert_eq!(harness.event_loop.context, 5);
    assert_eq!(harness.event_loop.network, "network");
    assert_eq!(harness.event_loop.context_window, 10);
    assert_eq!(harness.event_loop.signer_private_key, key);
    assert!(harness.event_loop.wsts_state_machines.is_empty());
    assert_eq!(harness.event_loop.threshold, 2);
    assert_eq!(harness.event_loop.rng, 99);
    assert_eq!(harness.event_loop.dkg_begin_pause, None);
}

#[test]
fn config_types_hold_their_values() {
    let aggregate_key = PublicKey::from_private_key(&PrivateKey::from_slice(&[4; 32]).unwrap());
    let config = DepositTxConfig { aggregate_key, amount: 5000, max_fee: 8000, lock_time: 10 };
    assert_eq!(config.aggregate_key, aggregate_key);
    assert_eq!(config.amount, 5000);
    let addresses = BitcoinAddresses(1..5);
    assert_eq!(addresses.0, 1..5);
}

#[test]
fn signer_set_config_holds_its_numbers() {
    let config = SignerSetConfig { num_keys: 7, signatures_required: 5 };
    assert_eq!(config.num_keys, 7);
    assert_eq!(config.signatures_required, 5);
}

#[test]
fn sweep_outputs_pay_the_signers_then_op_return_then_withdrawals() {
    let key = PublicKey::from_private_key(&PrivateKey::from_slice(&[6; 32]).unwrap());
    let config = SweepTxConfig {
        aggregate_key: key,
        amounts: 100..200,
        inputs: Vec::new(),
        outputs: vec![(50, vec![0x00, 0x14]), (60, vec![0x51])],
    };
    let outputs = sweep_tx_outputs(&config, 150);
    assert_eq!(outputs.len(), 4);
    assert_eq!(outputs[0].value, 150);
    assert_eq!(outputs[0].script_pubkey, key.signers_script_pubkey());
    assert_eq!(outputs[1].value, 0);
    let mut op_return = vec![0x6a, 41];
    op_return.extend_from_slice(&[0; 41]);
    assert_eq!(outputs[1].script_pubkey, op_return);
    assert_eq!(outputs[2].value, 50);
    assert_eq!(outputs[2].script_pubkey, vec![0x00, 0x14]);
    assert_eq!(outputs[3].value, 60);

    let config = SweepTxConfig { aggregate_key: key, amounts: 1..2, inputs: Vec::new(), outputs: Vec::new() };
    let outputs = sweep_tx_outputs(&config, 1);
    assert_eq!(outputs.len(), 2);
    let mut op_return = vec![0x6a, 21];
    op_return.extend_from_slice(&[0; 21]);
    assert_eq!(outputs[1].script_pubkey, op_return);
}
