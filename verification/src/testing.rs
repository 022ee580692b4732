//! Configuration types and harnesses used when testing the signer.

use vstd::prelude::*;

use crate::keys::PrivateKey;
use crate::keys::{spec_signers_script_pubkey, PublicKey};
use crate::model::OutPoint;
use crate::storage::TxOut;
use crate::transaction_signer::TxSignerEventLoop;

verus! {

/// Used to for fine-grained control of generating fake testing addresses:
/// the number of addresses is drawn from this range, or is one when the
/// range is empty.
#[derive(Debug)]
pub struct BitcoinAddresses(pub std::ops::Range<usize>);

/// A struct for configuring the signing set of a randomly generated
/// rotate-keys transaction that has an aggregate key formed from the
/// randomly generated public keys.
pub struct SignerSetConfig {
    /// The number of signers in the signing set.
    pub num_keys: u16,
    /// The number of signatures required
    pub signatures_required: u16,
}

/// A struct to aid in the generation of bitcoin deposit transactions.
///
/// A transaction created with this config has a UTXO that is locked with a
/// valid deposit scriptPubKey.
#[derive(Debug, Clone, Copy)]
pub struct DepositTxConfig {
    /// The public key of the signer.
    pub aggregate_key: PublicKey,
    /// The amount of the deposit
    pub amount: u64,
    /// The max fee of the deposit
    pub max_fee: u64,
    /// The lock-time of the deposit. The value here cannot have the 32nd
    /// bit set to 1, or else the reclaim script cannot be built.
    pub lock_time: i64,
}

/// A struct to aid in the generation of bitcoin sweep transactions.
///
/// A transaction created with this config has a UTXO that is locked with a
/// scriptPubKey that the signers can spend.
#[derive(Debug)]
pub struct SweepTxConfig {
    /// The public key of the signers.
    pub aggregate_key: PublicKey,
    /// The amount of the signers UTXO afterwards is drawn from this range.
    pub amounts: std::ops::Range<u64>,
    /// The outpoints to use as inputs.
    pub inputs: Vec<OutPoint>,
    /// The outputs to include as withdrawals: their amounts and scripts.
    pub outputs: Vec<(u64, Vec<u8>)>,
}

/// The script `OP_RETURN` followed by a push of the given data, when it
/// holds fewer than 76 bytes: the push is the data's length and the data.
pub open spec fn spec_op_return_script(data: Seq<u8>) -> Seq<u8> {
    seq![0x6au8, data.len() as u8] + data
}

/// Calls `bitcoin::ScriptBuf::new_op_return` on fewer than 76 bytes, which
/// pushes them with a single length byte after `OP_RETURN`.
#[verifier::external_body]
fn op_return_script(data: &[u8]) -> (r: Vec<u8>)
    requires
        data@.len() < 76,
    ensures
        r@ == spec_op_return_script(data@),
{
    let push = bitcoin::script::PushBytesBuf::try_from(data.to_vec()).expect("fewer than 76 bytes");
    bitcoin::ScriptBuf::new_op_return(push).into_bytes()
}

/// The outputs of a sweep transaction of this configuration whose signers'
/// UTXO holds `amount`: first that UTXO, locked by the signers' taproot
/// script; then an `OP_RETURN` output of no value carrying 21 zero bytes, or
/// 41 when there are withdrawals; then the withdrawals in order.
pub fn sweep_tx_outputs(config: &SweepTxConfig, amount: u64) -> (r: Vec<TxOut>)
    ensures
        r.len() == config.outputs.len() + 2,
        r@[0].value == amount,
        r@[0].script_pubkey@ == spec_signers_script_pubkey(config.aggregate_key.spec_x_only()),
        r@[1].value == 0,
        r@[1].script_pubkey@ == spec_op_return_script(
            Seq::new(if config.outputs.len() == 0 { 21nat } else { 41nat }, |i: int| 0u8),
        ),
        forall|i: int|
            0 <= i < config.outputs.len() ==> (#[trigger] r@[i + 2]).value == config.outputs@[i].0
                && r@[i + 2].script_pubkey@ == config.outputs@[i].1@,
{
    let data_len: usize = if config.outputs.len() == 0 { 21 } else { 41 };
    let mut data: Vec<u8> = Vec::new();
    while data.len() < data_len
        invariant
            data_len == 21 || data_len == 41,
            data.len() <= data_len,
            forall|i: int| 0 <= i < data.len() ==> data@[i] == 0u8,
        decreases data_len - data.len(),
    {
        data.push(0u8);
    }
    assert(data@ =~= Seq::new(data_len as nat, |i: int| 0u8));
    let mut r: Vec<TxOut> = Vec::new();
    r.push(TxOut { value: amount, script_pubkey: config.aggregate_key.signers_script_pubkey() });
    r.push(TxOut { value: 0, script_pubkey: op_return_script(data.as_slice()) });
    let mut i: usize = 0;
    while i < config.outputs.len()
        invariant
            i <= config.outputs.len(),
            r.len() == i + 2,
            r@[0].value == amount,
            r@[0].script_pubkey@ == spec_signers_script_pubkey(config.aggregate_key.spec_x_only()),
            r@[1].value == 0,
            r@[1].script_pubkey@ == spec_op_return_script(Seq::new(data_len as nat, |i: int| 0u8)),
            forall|j: int|
                0 <= j < i ==> (#[trigger] r@[j + 2]).value == config.outputs@[j].0 && r@[j + 2].script_pubkey@
                    == config.outputs@[j].1@,
        decreases config.outputs.len() - i,
    {
        let (value, script) = &config.outputs[i];
        r.push(TxOut { value: *value, script_pubkey: script.clone() });
        i = i + 1;
    }
    r
}

/// A test harness for the signer event loop.
pub struct TxSignerEventLoopHarness<Context, M, Rng> {
    /// The context shared with the event loop.
    pub context: Context,
    /// The event loop under test.
    pub event_loop: TxSignerEventLoop<Context, M, Rng>,
}

impl<Ctx: Clone, M, Rng> TxSignerEventLoopHarness<Ctx, M, Rng> {
    /// Create the test harness: an event loop over a clone of the given
    /// context and the given network, with no signing round in progress and
    /// no pause before DKG.
    pub fn create(
        context: Ctx,
        network: M,
        context_window: u16,
        signer_private_key: PrivateKey,
        threshold: u32,
        rng: Rng,
    ) -> (r: Self)
        ensures
            r.context == context,
            cloned(context, r.event_loop.context),
            r.event_loop.network == network,
            r.event_loop.context_window == context_window,
            r.event_loop.signer_private_key == signer_private_key,
            r.event_loop.wsts_state_machines@ == Map::<crate::model::BitcoinTxId, crate::wsts_state_machine::SignerStateMachine>::empty(),
            r.event_loop.threshold == threshold,
            r.event_loop.rng == rng,
            r.event_loop.dkg_begin_pause is None,
    {
        Self {
            event_loop: TxSignerEventLoop {
                context: context.clone(),
                network,
                signer_private_key,
                context_window,
                wsts_state_machines: std::collections::HashMap::new(),
                threshold,
                rng,
                dkg_begin_pause: None,
            },
            context,
        }
    }
}

} // verus!
