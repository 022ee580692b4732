//! Selection of the signers' UTXO among the sBTC transactions.

use vstd::multiset::Multiset;
use vstd::prelude::*;

use crate::error::SignerError;
use crate::keys::{spec_signers_script_pubkey, PublicKey};
use crate::model::{BitcoinTxId, OutPoint};
use crate::util::bytes_equal;

verus! {

/// An output of a bitcoin transaction.
#[derive(Clone, Debug, PartialEq, Eq)]
pub struct TxOut {
    /// The amount locked in the output, in satoshis.
    pub value: u64,
    /// The script that locks the output.
    pub script_pubkey: Vec<u8>,
}

/// The parts of a bitcoin transaction that UTXO selection reads: its id, the
/// outputs that its inputs spend, and its outputs.
#[derive(Clone, Debug, PartialEq, Eq)]
pub struct BitcoinTransaction {
    /// The transaction id.
    pub txid: BitcoinTxId,
    /// The outpoints spent by the transaction's inputs, in order.
    pub inputs: Vec<OutPoint>,
    /// The transaction's outputs, in order.
    pub outputs: Vec<TxOut>,
}

/// A bitcoin transaction of the bitcoin library.
#[verifier::external_type_specification]
#[verifier::external_body]
pub struct ExTransaction(bitcoin::Transaction);

/// The bytes of what `bitcoin::Transaction::compute_txid` returns for a
/// transaction.
pub uninterp spec fn spec_compute_txid(tx: bitcoin::Transaction) -> Seq<u8>;

/// The outpoints that the inputs of a transaction spend (the
/// `previous_output` of each of its `input`s), in order.
pub uninterp spec fn spec_transaction_inputs(tx: bitcoin::Transaction) -> Seq<OutPoint>;

/// The outputs of a transaction (its `output` field), each as its amount in
/// satoshis and its script's bytes, in order.
pub uninterp spec fn spec_transaction_outputs(tx: bitcoin::Transaction) -> Seq<TxOut>;

/// Calls `bitcoin::Transaction::compute_txid` and takes the bytes of the id.
#[verifier::external_body]
fn compute_txid(tx: &bitcoin::Transaction) -> (r: [u8; 32])
    ensures
        r@ == spec_compute_txid(*tx),
{
    <bitcoin::Txid as bitcoin::hashes::Hash>::to_byte_array(tx.compute_txid())
}

/// Reads the outpoints that the inputs of a transaction spend.
#[verifier::external_body]
fn transaction_inputs(tx: &bitcoin::Transaction) -> (r: Vec<OutPoint>)
    ensures
        r@ == spec_transaction_inputs(*tx),
{
    tx.input.iter().map(|txin| OutPoint {
        txid: BitcoinTxId(<bitcoin::Txid as bitcoin::hashes::Hash>::to_byte_array(txin.previous_output.txid)),
        vout: txin.previous_output.vout,
    }).collect()
}

/// Reads the outputs of a transaction.
#[verifier::external_body]
fn transaction_outputs(tx: &bitcoin::Transaction) -> (r: Vec<TxOut>)
    ensures
        r@ == spec_transaction_outputs(*tx),
{
    tx.output.iter().map(|txout| TxOut { value: txout.value.to_sat(), script_pubkey: txout.script_pubkey.to_bytes() }).collect()
}

/// The parts of a bitcoin transaction that UTXO selection reads: the id that
/// the transaction hashes to, the outpoints its inputs spend and its
/// outputs.
pub fn bitcoin_transaction(tx: &bitcoin::Transaction) -> (r: BitcoinTransaction)
    ensures
        r.txid.0@ == spec_compute_txid(*tx),
        r.inputs@ == spec_transaction_inputs(*tx),
        r.outputs@ == spec_transaction_outputs(*tx),
{
    BitcoinTransaction {
        txid: BitcoinTxId(compute_txid(tx)),
        inputs: transaction_inputs(tx),
        outputs: transaction_outputs(tx),
    }
}

/// A UTXO that the signers control.
#[derive(Clone, Copy, Debug, PartialEq, Eq)]
pub struct SignerUtxo {
    /// The output.
    pub outpoint: OutPoint,
    /// The amount locked in the output, in satoshis.
    pub amount: u64,
    /// The x-coordinate of the signers' aggregate key.
    pub public_key: [u8; 32],
}

/// Whether some input of some transaction spends `outpoint`.
pub open spec fn spec_is_spent(txs: Seq<BitcoinTransaction>, outpoint: OutPoint) -> bool {
    exists|j: int, k: int|
        0 <= j < txs.len() && 0 <= k < txs[j].inputs.len() && #[trigger] txs[j].inputs@[k] == outpoint
}

/// The first output of a transaction, if it pays to `script_pubkey` and no
/// transaction spends it, as a signers' UTXO.
pub open spec fn spec_candidate(
    txs: Seq<BitcoinTransaction>,
    tx: BitcoinTransaction,
    script_pubkey: Seq<u8>,
    x_only: [u8; 32],
) -> Option<SignerUtxo> {
    let outpoint = OutPoint { txid: tx.txid, vout: 0 };
    if tx.outputs.len() > 0 && tx.outputs@[0].script_pubkey@ == script_pubkey && !spec_is_spent(txs, outpoint) {
        Some(SignerUtxo { outpoint, amount: tx.outputs@[0].value, public_key: x_only })
    } else {
        None
    }
}

/// The candidate UTXOs among the first `n` transactions, in order.
pub open spec fn spec_candidates(
    txs: Seq<BitcoinTransaction>,
    n: nat,
    script_pubkey: Seq<u8>,
    x_only: [u8; 32],
) -> Seq<SignerUtxo>
    decreases n,
{
    if n == 0 {
        seq![]
    } else {
        let earlier = spec_candidates(txs, (n - 1) as nat, script_pubkey, x_only);
        match spec_candidate(txs, txs[n - 1], script_pubkey, x_only) {
            Some(utxo) => earlier.push(utxo),
            None => earlier,
        }
    }
}

/// The outcome of UTXO selection given the candidates: none, the only one,
/// or `TooManySignerUtxos` when there are several.
pub open spec fn spec_select_utxo(candidates: Seq<SignerUtxo>) -> Result<Option<SignerUtxo>, SignerError> {
    if candidates.len() == 0 {
        Ok(None)
    } else if candidates.len() == 1 {
        Ok(Some(candidates[0]))
    } else {
        Err(SignerError::TooManySignerUtxos)
    }
}

/// Whether two outpoints are equal.
fn outpoint_equal(a: &OutPoint, b: &OutPoint) -> (r: bool)
    ensures
        r == (*a == *b),
{
    if a.vout != b.vout {
        return false;
    }
    let equal = bytes_equal(a.txid.0.as_slice(), b.txid.0.as_slice());
    if equal {
        assert(a.txid.0 =~= b.txid.0);
    }
    equal
}

/// Whether some input of some transaction spends `outpoint`.
fn is_spent(txs: &Vec<BitcoinTransaction>, outpoint: &OutPoint) -> (r: bool)
    ensures
        r == spec_is_spent(txs@, *outpoint),
{
    let mut j: usize = 0;
    while j < txs.len()
        invariant
            j <= txs.len(),
            forall|jj: int, k: int|
                0 <= jj < j && 0 <= k < txs@[jj].inputs.len() ==> txs@[jj].inputs@[k] != *outpoint,
        decreases txs.len() - j,
    {
        let inputs = &txs[j].inputs;
        let mut k: usize = 0;
        while k < inputs.len()
            invariant
                j < txs.len(),
                inputs == txs@[j as int].inputs,
                k <= inputs.len(),
                forall|kk: int| 0 <= kk < k ==> inputs@[kk] != *outpoint,
            decreases inputs.len() - k,
        {
            if outpoint_equal(&inputs[k], outpoint) {
                assert(txs@[j as int].inputs@[k as int] == *outpoint);
                return true;
            }
            k = k + 1;
        }
        j = j + 1;
    }
    false
}

/// Finds the signers' UTXO among the given sBTC transactions.
///
/// A candidate is the first output of a transaction, when it pays to the
/// aggregate key's scriptPubKey and no input of the given transactions
/// spends it. There is no UTXO when there is no candidate, and more than
/// one candidate is refused with `TooManySignerUtxos`.
pub fn get_utxo(aggregate_key: &PublicKey, sbtc_txs: Vec<BitcoinTransaction>) -> (r: Result<
    Option<SignerUtxo>,
    SignerError,
>)
    ensures
        r == spec_select_utxo(
            spec_candidates(
                sbtc_txs@,
                sbtc_txs@.len(),
                spec_signers_script_pubkey(aggregate_key.spec_x_only()),
                aggregate_key.spec_x_only_array(),
            ),
        ),
{
    let script_pubkey = aggregate_key.signers_script_pubkey();
    let (x_only, _) = aggregate_key.x_only_public_key();
    let mut utxos: Vec<SignerUtxo> = Vec::new();
    let mut i: usize = 0;
    while i < sbtc_txs.len()
        invariant
            i <= sbtc_txs.len(),
            script_pubkey@ == spec_signers_script_pubkey(aggregate_key.spec_x_only()),
            utxos@ == spec_candidates(sbtc_txs@, i as nat, script_pubkey@, x_only),
        decreases sbtc_txs.len() - i,
    {
        let tx = &sbtc_txs[i];
        if tx.outputs.len() > 0 {
            let tx_out = &tx.outputs[0];
            let outpoint = OutPoint { txid: tx.txid, vout: 0 };
            if bytes_equal(tx_out.script_pubkey.as_slice(), script_pubkey.as_slice()) && !is_spent(
                &sbtc_txs,
                &outpoint,
            ) {
                utxos.push(SignerUtxo { outpoint, amount: tx_out.value, public_key: x_only });
            }
        }
        i = i + 1;
    }
    if utxos.len() == 0 {
        Ok(None)
    } else if utxos.len() == 1 {
        Ok(Some(utxos[0]))
    } else {
        Err(SignerError::TooManySignerUtxos)
    }
}

/// Every candidate among the first `n` transactions is the candidate of one
/// of them.
proof fn lemma_candidates_come_from_transactions(
    txs: Seq<BitcoinTransaction>,
    n: nat,
    script_pubkey: Seq<u8>,
    x_only: [u8; 32],
    m: int,
)
    requires
        n <= txs.len(),
        0 <= m < spec_candidates(txs, n, script_pubkey, x_only).len(),
    ensures
        exists|i: int|
            0 <= i < n && #[trigger] spec_candidate(txs, txs[i], script_pubkey, x_only) == Some(
                spec_candidates(txs, n, script_pubkey, x_only)[m],
            ),
    decreases n,
{
    let earlier = spec_candidates(txs, (n - 1) as nat, script_pubkey, x_only);
    if m < earlier.len() {
        lemma_candidates_come_from_transactions(txs, (n - 1) as nat, script_pubkey, x_only, m);
        let i = choose|i: int|
            0 <= i < n - 1 && #[trigger] spec_candidate(txs, txs[i], script_pubkey, x_only) == Some(
                earlier[m],
            );
        assert(spec_candidate(txs, txs[i], script_pubkey, x_only) == Some(
            spec_candidates(txs, n, script_pubkey, x_only)[m],
        ));
    } else {
        assert(spec_candidate(txs, txs[n - 1], script_pubkey, x_only) == Some(
            spec_candidates(txs, n, script_pubkey, x_only)[m],
        ));
    }
}

/// The UTXO that selection returns is the first output of one of the
/// transactions, pays to the signers' scriptPubKey, carries that output's
/// amount, and is spent by none of the transactions.
pub proof fn lemma_selected_utxo_is_unspent_signer_output(
    txs: Seq<BitcoinTransaction>,
    script_pubkey: Seq<u8>,
    x_only: [u8; 32],
    utxo: SignerUtxo,
)
    requires
        spec_select_utxo(spec_candidates(txs, txs.len(), script_pubkey, x_only)) == Ok::<
            Option<SignerUtxo>,
            SignerError,
        >(Some(utxo)),
    ensures
        exists|i: int|
            0 <= i < txs.len() && #[trigger] txs[i].txid == utxo.outpoint.txid && txs[i].outputs.len() > 0
                && txs[i].outputs@[0].script_pubkey@ == script_pubkey && txs[i].outputs@[0].value
                == utxo.amount,
        utxo.outpoint.vout == 0,
        utxo.public_key == x_only,
        !spec_is_spent(txs, utxo.outpoint),
{
    lemma_candidates_come_from_transactions(txs, txs.len(), script_pubkey, x_only, 0);
    let i = choose|i: int|
        0 <= i < txs.len() && #[trigger] spec_candidate(txs, txs[i], script_pubkey, x_only) == Some(
            spec_candidates(txs, txs.len(), script_pubkey, x_only)[0],
        );
    assert(txs[i].txid == utxo.outpoint.txid);
}

/// Selection finds no UTXO exactly when no transaction has an unspent first
/// output that pays to the signers' scriptPubKey.
pub proof fn lemma_no_utxo_iff_no_candidate(
    txs: Seq<BitcoinTransaction>,
    script_pubkey: Seq<u8>,
    x_only: [u8; 32],
)
    ensures
        spec_select_utxo(spec_candidates(txs, txs.len(), script_pubkey, x_only)) == Ok::<
            Option<SignerUtxo>,
            SignerError,
        >(None) <==> forall|i: int|
            0 <= i < txs.len() ==> #[trigger] spec_candidate(txs, txs[i], script_pubkey, x_only) is None,
{
    lemma_candidates_empty_iff(txs, txs.len(), script_pubkey, x_only);
}

/// There are no candidates among the first `n` transactions exactly when
/// none of them has one.
proof fn lemma_candidates_empty_iff(
    txs: Seq<BitcoinTransaction>,
    n: nat,
    script_pubkey: Seq<u8>,
    x_only: [u8; 32],
)
    requires
        n <= txs.len(),
    ensures
        spec_candidates(txs, n, script_pubkey, x_only).len() == 0 <==> forall|i: int|
            0 <= i < n ==> #[trigger] spec_candidate(txs, txs[i], script_pubkey, x_only) is None,
    decreases n,
{
    if n > 0 {
        lemma_candidates_empty_iff(txs, (n - 1) as nat, script_pubkey, x_only);
        let earlier = spec_candidates(txs, (n - 1) as nat, script_pubkey, x_only);
        if spec_candidates(txs, n, script_pubkey, x_only).len() == 0 {
            assert forall|i: int| 0 <= i < n implies #[trigger] spec_candidate(
                txs,
                txs[i],
                script_pubkey,
                x_only,
            ) is None by {
                if i < n - 1 {
                } else {
                }
            }
        }
    }
}

/// Adds the candidate of a transaction, judged against the transactions of
/// `pool`, to a multiset of candidates.
pub open spec fn spec_add_candidate(
    pool: Seq<BitcoinTransaction>,
    script_pubkey: Seq<u8>,
    x_only: [u8; 32],
) -> spec_fn(Multiset<SignerUtxo>, BitcoinTransaction) -> Multiset<SignerUtxo> {
    |found: Multiset<SignerUtxo>, tx: BitcoinTransaction|
        match spec_candidate(pool, tx, script_pubkey, x_only) {
            Some(utxo) => found.insert(utxo),
            None => found,
        }
}

/// The candidates among the first `n` transactions, counted without their
/// order.
proof fn lemma_candidates_multiset(
    txs: Seq<BitcoinTransaction>,
    n: nat,
    script_pubkey: Seq<u8>,
    x_only: [u8; 32],
)
    requires
        n <= txs.len(),
    ensures
        spec_candidates(txs, n, script_pubkey, x_only).to_multiset() == txs.take(n as int).fold_left(
            Multiset::<SignerUtxo>::empty(),
            spec_add_candidate(txs, script_pubkey, x_only),
        ),
    decreases n,
{
    broadcast use vstd::seq_lib::group_to_multiset_ensures;

    if n == 0 {
        assert(spec_candidates(txs, n, script_pubkey, x_only).to_multiset() =~= Multiset::empty());
    } else {
        lemma_candidates_multiset(txs, (n - 1) as nat, script_pubkey, x_only);
        assert(txs.take(n as int).drop_last() =~= txs.take(n - 1));
        assert(txs.take(n as int).last() == txs[n - 1]);
    }
}

/// Whether an outpoint is spent depends only on which transactions there
/// are, not on their order.
proof fn lemma_is_spent_permutation(txs: Seq<BitcoinTransaction>, perm: Seq<BitcoinTransaction>, outpoint: OutPoint)
    requires
        perm.to_multiset() == txs.to_multiset(),
    ensures
        spec_is_spent(perm, outpoint) == spec_is_spent(txs, outpoint),
{
    broadcast use vstd::seq_lib::group_to_multiset_ensures;

    if spec_is_spent(txs, outpoint) {
        let (j, k) = choose|j: int, k: int|
            0 <= j < txs.len() && 0 <= k < txs[j].inputs.len() && #[trigger] txs[j].inputs@[k] == outpoint;
        assert(txs.contains(txs[j]));
        vstd::seq_lib::to_multiset_contains(txs, txs[j]);
        vstd::seq_lib::to_multiset_contains(perm, txs[j]);
        assert(perm.contains(txs[j]));
        let jp = choose|jp: int| 0 <= jp < perm.len() && perm[jp] == txs[j];
        assert(perm[jp].inputs@[k] == outpoint);
    }
    if spec_is_spent(perm, outpoint) {
        let (j, k) = choose|j: int, k: int|
            0 <= j < perm.len() && 0 <= k < perm[j].inputs.len() && #[trigger] perm[j].inputs@[k] == outpoint;
        assert(perm.contains(perm[j]));
        vstd::seq_lib::to_multiset_contains(txs, perm[j]);
        vstd::seq_lib::to_multiset_contains(perm, perm[j]);
        assert(txs.contains(perm[j]));
        let jt = choose|jt: int| 0 <= jt < txs.len() && txs[jt] == perm[j];
        assert(txs[jt].inputs@[k] == outpoint);
    }
}

/// UTXO selection does not depend on the order of the transactions: any
/// reordering of them gives the same result.
pub proof fn lemma_select_utxo_ignores_order(
    txs: Seq<BitcoinTransaction>,
    perm: Seq<BitcoinTransaction>,
    script_pubkey: Seq<u8>,
    x_only: [u8; 32],
)
    requires
        perm.to_multiset() == txs.to_multiset(),
    ensures
        spec_select_utxo(spec_candidates(perm, perm.len(), script_pubkey, x_only)) == spec_select_utxo(
            spec_candidates(txs, txs.len(), script_pubkey, x_only),
        ),
{
    broadcast use vstd::seq_lib::group_to_multiset_ensures;

    let f = spec_add_candidate(txs, script_pubkey, x_only);
    let g = spec_add_candidate(perm, script_pubkey, x_only);
    assert forall|found: Multiset<SignerUtxo>, tx: BitcoinTransaction| #[trigger] g(found, tx) == f(found, tx) by {
        lemma_is_spent_permutation(txs, perm, OutPoint { txid: tx.txid, vout: 0 });
    }
    assert(g =~= f);
    assert forall|x: BitcoinTransaction, y: BitcoinTransaction, v: Multiset<SignerUtxo>|
        #[trigger] f(f(v, x), y) == f(f(v, y), x) by {
        assert(f(f(v, x), y) =~= f(f(v, y), x));
    }
    assert(vstd::seq_lib::commutative_foldl(f));
    vstd::seq_lib::lemma_fold_left_permutation(perm, txs, f, Multiset::<SignerUtxo>::empty());
    lemma_candidates_multiset(txs, txs.len(), script_pubkey, x_only);
    lemma_candidates_multiset(perm, perm.len(), script_pubkey, x_only);
    assert(txs.take(txs.len() as int) =~= txs);
    assert(perm.take(perm.len() as int) =~= perm);
    let a = spec_candidates(txs, txs.len(), script_pubkey, x_only);
    let b = spec_candidates(perm, perm.len(), script_pubkey, x_only);
    assert(a.to_multiset() == b.to_multiset());
    vstd::seq_lib::to_multiset_len(a);
    vstd::seq_lib::to_multiset_len(b);
    assert(a.len() == b.len());
    if a.len() == 1 {
        assert(a.contains(a[0]));
        vstd::seq_lib::to_multiset_contains(a, a[0]);
        vstd::seq_lib::to_multiset_contains(b, a[0]);
        assert(b.contains(a[0]));
    }
}

/// An outpoint counts as spent exactly when some input of some of the
/// transactions spends that very outpoint: the same transaction id, byte for
/// byte, and the same output index.
pub proof fn lemma_spent_means_some_input_spends_it(txs: Seq<BitcoinTransaction>, outpoint: OutPoint)
    ensures
        spec_is_spent(txs, outpoint) <==> exists|j: int, k: int|
            0 <= j < txs.len() && 0 <= k < txs[j].inputs.len() && #[trigger] txs[j].inputs@[k].txid.0@
                == outpoint.txid.0@ && txs[j].inputs@[k].vout == outpoint.vout,
{
    if exists|j: int, k: int|
        0 <= j < txs.len() && 0 <= k < txs[j].inputs.len() && #[trigger] txs[j].inputs@[k].txid.0@
            == outpoint.txid.0@ && txs[j].inputs@[k].vout == outpoint.vout {
        let (j, k) = choose|j: int, k: int|
            0 <= j < txs.len() && 0 <= k < txs[j].inputs.len() && #[trigger] txs[j].inputs@[k].txid.0@
                == outpoint.txid.0@ && txs[j].inputs@[k].vout == outpoint.vout;
        assert(txs[j].inputs@[k].txid.0 =~= outpoint.txid.0);
        assert(txs[j].inputs@[k] == outpoint);
    }
    if spec_is_spent(txs, outpoint) {
        let (j, k) = choose|j: int, k: int|
            0 <= j < txs.len() && 0 <= k < txs[j].inputs.len() && #[trigger] txs[j].inputs@[k] == outpoint;
        assert(txs[j].inputs@[k].txid.0@ == outpoint.txid.0@);
    }
}

/// An output that an input of one of the transactions spends is never a
/// candidate UTXO: no candidate has that outpoint, whatever its transaction
/// id.
pub proof fn lemma_spent_output_is_no_candidate(
    txs: Seq<BitcoinTransaction>,
    script_pubkey: Seq<u8>,
    x_only: [u8; 32],
    spent: OutPoint,
    j: int,
    k: int,
)
    requires
        0 <= j < txs.len(),
        0 <= k < txs[j].inputs.len(),
        txs[j].inputs@[k].txid.0@ == spent.txid.0@,
        txs[j].inputs@[k].vout == spent.vout,
    ensures
        forall|m: int|
            0 <= m < spec_candidates(txs, txs.len(), script_pubkey, x_only).len() ==> (#[trigger] spec_candidates(
                txs,
                txs.len(),
                script_pubkey,
                x_only,
            )[m]).outpoint != spent,
{
    assert(txs[j].inputs@[k].txid.0 =~= spent.txid.0);
    assert(txs[j].inputs@[k] == spent);
    assert forall|m: int|
        0 <= m < spec_candidates(txs, txs.len(), script_pubkey, x_only).len() implies (#[trigger] spec_candidates(
            txs,
            txs.len(),
            script_pubkey,
            x_only,
        )[m]).outpoint != spent by {
        lemma_candidates_come_from_transactions(txs, txs.len(), script_pubkey, x_only, m);
        let i = choose|i: int|
            0 <= i < txs.len() && #[trigger] spec_candidate(txs, txs[i], script_pubkey, x_only) == Some(
                spec_candidates(txs, txs.len(), script_pubkey, x_only)[m],
            );
        if spec_candidates(txs, txs.len(), script_pubkey, x_only)[m].outpoint == spent {
            assert(spec_is_spent(txs, spent));
        }
    }
}

/// In a chain of two sweeps, where the second spends the signers' output of
/// the first, the signers' UTXO is the output of the second: its first
/// output, with its amount, whatever the two transaction ids are.
pub proof fn lemma_chain_of_two_sweeps(
    first: BitcoinTransaction,
    second: BitcoinTransaction,
    script_pubkey: Seq<u8>,
    x_only: [u8; 32],
)
    requires
        first.txid != second.txid,
        first.inputs@.len() == 0,
        first.outputs@.len() > 0,
        first.outputs@[0].script_pubkey@ == script_pubkey,
        second.inputs@ == seq![OutPoint { txid: first.txid, vout: 0 }],
        second.outputs@.len() > 0,
        second.outputs@[0].script_pubkey@ == script_pubkey,
    ensures
        spec_select_utxo(spec_candidates(seq![first, second], 2, script_pubkey, x_only)) == Ok::<
            Option<SignerUtxo>,
            SignerError,
        >(
            Some(
                SignerUtxo {
                    outpoint: OutPoint { txid: second.txid, vout: 0 },
                    amount: second.outputs@[0].value,
                    public_key: x_only,
                },
            ),
        ),
{
    let txs = seq![first, second];
    let spent_first = OutPoint { txid: first.txid, vout: 0 };
    let second_out = OutPoint { txid: second.txid, vout: 0 };
    assert(txs[1].inputs@[0] == spent_first);
    assert(spec_is_spent(txs, spent_first));
    assert(!spec_is_spent(txs, second_out)) by {
        if spec_is_spent(txs, second_out) {
            let (j, k) = choose|j: int, k: int|
                0 <= j < txs.len() && 0 <= k < txs[j].inputs.len() && #[trigger] txs[j].inputs@[k] == second_out;
            if j == 0 {
                assert(txs[0] == first);
            } else {
                assert(txs[1] == second);
                assert(k == 0);
            }
        }
    }
    assert(txs[0] == first);
    assert(txs[1] == second);
    assert(spec_candidate(txs, txs[0], script_pubkey, x_only) is None);
    assert(spec_candidates(txs, 0, script_pubkey, x_only) =~= seq![]);
    assert(spec_candidates(txs, 1, script_pubkey, x_only) =~= seq![]);
    assert(spec_candidate(txs, txs[1], script_pubkey, x_only) == Some(
        SignerUtxo { outpoint: second_out, amount: second.outputs@[0].value, public_key: x_only },
    ));
    assert(spec_candidates(txs, 2, script_pubkey, x_only) =~= seq![
        SignerUtxo { outpoint: second_out, amount: second.outputs@[0].value, public_key: x_only },
    ]);
}

} // verus!
