//! The state of the transaction signer's event loop.

use vstd::prelude::*;

use crate::keys::PrivateKey;
use crate::model::BitcoinTxId;
use crate::wsts_state_machine::SignerStateMachine;

verus! {

/// The transaction signer's event loop: it answers signing requests and
/// takes part in DKG rounds over the given network.
pub struct TxSignerEventLoop<Context, Network, Rng> {
    /// The signer's context: its storage and clients.
    pub context: Context,
    /// The network over which signers exchange messages.
    pub network: Network,
    /// The signer's private key.
    pub signer_private_key: PrivateKey,
    /// How many bitcoin blocks back the signer looks for requests.
    pub context_window: u16,
    /// The WSTS state machines of the signing rounds in progress, by the id
    /// of the transaction that they sign for.
    pub wsts_state_machines: std::collections::HashMap<BitcoinTxId, SignerStateMachine>,
    /// The number of signatures needed.
    pub threshold: u32,
    /// The source of randomness.
    pub rng: Rng,
    /// How long to wait before answering a DKG begin message, if at all.
    pub dkg_begin_pause: Option<std::time::Duration>,
}

} // verus!
