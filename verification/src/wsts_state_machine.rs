//! Construction of the WSTS signer and coordinator state machines.
//!
//! The decisions (which id each signer gets, which key ids it controls, and
//! which configurations are refused) are made by [`signer_config`] and
//! [`coordinator_config`]; the state machines are then built by the `wsts`
//! crate from exactly those values.

use vstd::prelude::*;

use crate::error::SignerError;
use crate::keys::{
    spec_is_compressed_public_key, spec_private_key_is_valid, spec_public_key_of_private_key, PrivateKey,
    PublicKey,
};
use crate::util::bytes_equal;

verus! {

/// Wrapper around a WSTS signer state machine. The `wsts` type's generic
/// parameter is bound by a trait of the `wsts` crate, so the wrapper is
/// opaque; what it holds is named by [`spec_signer_fields`].
#[verifier::external_body]
#[derive(Debug, PartialEq)]
pub struct SignerStateMachine(pub wsts::state_machine::signer::Signer<wsts::v2::Party>);

/// Wrapper around a WSTS FROST coordinator state machine. The `wsts` type's
/// generic parameter is bound by a trait of the `wsts` crate, so the wrapper
/// is opaque; what it holds is named by [`spec_coordinator_config`],
/// [`spec_coordinator_phase`], [`spec_coordinator_dkg_id`],
/// [`spec_coordinator_awaited`], [`spec_coordinator_public_shares`] and
/// [`spec_coordinator_aggregate_key`].
#[verifier::external_body]
#[derive(Debug, PartialEq)]
pub struct CoordinatorStateMachine(pub wsts::state_machine::coordinator::frost::Coordinator<wsts::v2::Aggregator>);

/// The error of a WSTS coordinator.
#[verifier::external_type_specification]
#[verifier::external_body]
pub struct ExCoordinatorError(wsts::state_machine::coordinator::Error);

/// A curve point of the p256k1 library.
#[verifier::external_type_specification]
#[verifier::external_body]
pub struct ExPoint(p256k1::point::Point);

/// A scalar of the p256k1 library.
#[verifier::external_type_specification]
#[verifier::external_body]
pub struct ExScalar(p256k1::scalar::Scalar);

/// What `p256k1::point::Point::try_from` returns for a compressed
/// serialization that it accepts.
pub uninterp spec fn spec_point_from_compressed(bytes: Seq<u8>) -> p256k1::point::Point;

/// What `p256k1::scalar::Scalar::from` returns for these 32 bytes.
pub uninterp spec fn spec_scalar_from_bytes(bytes: Seq<u8>) -> p256k1::scalar::Scalar;

/// What `Coordinator::get_config` returns for a coordinator state machine,
/// field by field: the number of signers, the number of keys, the signing
/// threshold, the DKG threshold, the message private key, the key ids of
/// each signer, the public key of each signer, and the DKG public, DKG
/// private, DKG end, nonce and sign timeouts.
pub uninterp spec fn spec_coordinator_config(coordinator: CoordinatorStateMachine) -> (
    u32,
    u32,
    u32,
    u32,
    p256k1::scalar::Scalar,
    Map<u32, Set<u32>>,
    Map<u32, p256k1::point::Point>,
    (
        Option<std::time::Duration>,
        Option<std::time::Duration>,
        Option<std::time::Duration>,
        Option<std::time::Duration>,
        Option<std::time::Duration>,
    ),
);

/// The states of a WSTS coordinator, without the data that the states of a
/// signing round carry.
#[derive(Clone, Copy, Debug, PartialEq, Eq)]
pub enum CoordinatorPhase {
    /// Idle: ready to start DKG or a signing round.
    Idle,
    /// Asking signers to send their public DKG shares.
    DkgPublicDistribute,
    /// Gathering public DKG shares.
    DkgPublicGather,
    /// Asking signers to send their private DKG shares.
    DkgPrivateDistribute,
    /// Gathering private DKG shares.
    DkgPrivateGather,
    /// Asking signers to end DKG.
    DkgEndDistribute,
    /// Gathering the signers' ends of DKG.
    DkgEndGather,
    /// Requesting nonces.
    NonceRequest,
    /// Gathering nonces.
    NonceGather,
    /// Requesting signature shares.
    SigShareRequest,
    /// Gathering signature shares.
    SigShareGather,
}

/// Which state `Coordinator::get_state` returns for a coordinator state
/// machine.
pub uninterp spec fn spec_coordinator_phase(coordinator: CoordinatorStateMachine) -> CoordinatorPhase;

/// The id of the current DKG round of a coordinator (its `current_dkg_id`).
pub uninterp spec fn spec_coordinator_dkg_id(coordinator: CoordinatorStateMachine) -> u64;

/// The ids of the signers that a coordinator still waits on (its
/// `ids_to_await`).
pub uninterp spec fn spec_coordinator_awaited(coordinator: CoordinatorStateMachine) -> Set<u32>;

/// The public DKG shares that a coordinator holds, by signer id (its
/// `dkg_public_shares`, which `save` hands out).
pub uninterp spec fn spec_coordinator_public_shares(coordinator: CoordinatorStateMachine) -> Map<
    u32,
    wsts::net::DkgPublicShares,
>;

/// The DKG id and the signer id of a public DKG shares message (its
/// `dkg_id` and `signer_id`).
pub uninterp spec fn spec_dkg_public_shares_ids(shares: wsts::net::DkgPublicShares) -> (u64, u32);

/// What `Coordinator::get_aggregate_public_key` returns for a coordinator
/// state machine.
pub uninterp spec fn spec_coordinator_aggregate_key(coordinator: CoordinatorStateMachine) -> Option<
    p256k1::point::Point,
>;

/// What the fields of a WSTS signer state machine hold, in order: the
/// threshold, the total number of signers, the total number of keys, the
/// signer id, the key ids of its party (`get_key_ids`), the network private
/// key, and the compressed serialization of each signer's public key and of
/// each key id's public key (`public_keys.signers` and
/// `public_keys.key_ids`).
pub uninterp spec fn spec_signer_fields(signer: SignerStateMachine) -> (
    u32,
    u32,
    u32,
    u32,
    Seq<u32>,
    p256k1::scalar::Scalar,
    Map<u32, Seq<u8>>,
    Map<u32, Seq<u8>>,
);

/// The pairs of ids and compressed serializations, with each serialization
/// taken as a sequence of bytes.
pub open spec fn spec_key_bytes_pairs(pairs: Seq<(u32, [u8; 33])>) -> Seq<(u32, Seq<u8>)> {
    pairs.map_values(|pair: (u32, [u8; 33])| (pair.0, pair.1@))
}

/// The map that collecting these pairs into a hash map gives: each key maps
/// to the value of its last pair.
pub open spec fn spec_pairs_to_map<V>(pairs: Seq<(u32, V)>) -> Map<u32, V>
    decreases pairs.len(),
{
    if pairs.len() == 0 {
        Map::empty()
    } else {
        spec_pairs_to_map(pairs.drop_last()).insert(pairs.last().0, pairs.last().1)
    }
}

/// Pairs whose keys are their positions plus `base` collect into the map
/// from each such key to the value of its pair.
proof fn lemma_indexed_pairs_to_map<V>(pairs: Seq<(u32, V)>, base: int)
    requires
        forall|i: int| 0 <= i < pairs.len() ==> #[trigger] pairs[i].0 == i + base,
    ensures
        forall|id: u32|
            #[trigger] spec_pairs_to_map(pairs).dom().contains(id) <==> base <= id < pairs.len() + base,
        forall|i: int| 0 <= i < pairs.len() ==> spec_pairs_to_map(pairs)[(i + base) as u32] == #[trigger] pairs[i].1,
    decreases pairs.len(),
{
    if pairs.len() > 0 {
        let prefix = pairs.drop_last();
        assert forall|i: int| 0 <= i < prefix.len() implies #[trigger] prefix[i].0 == i + base by {
            assert(prefix[i] == pairs[i]);
        }
        lemma_indexed_pairs_to_map(prefix, base);
        assert(pairs.last().0 == pairs.len() - 1 + base);
        assert forall|id: u32|
            #[trigger] spec_pairs_to_map(pairs).dom().contains(id) <==> base <= id < pairs.len() + base by {
            assert(spec_pairs_to_map(pairs).dom() == spec_pairs_to_map(prefix).dom().insert(pairs.last().0));
        }
        assert forall|i: int| 0 <= i < pairs.len() implies spec_pairs_to_map(pairs)[(i + base) as u32]
            == #[trigger] pairs[i].1 by {
            if i < pairs.len() - 1 {
                assert(prefix[i] == pairs[i]);
                assert(pairs[i].0 == i + base);
            }
        }
    }
}

/// Calls `p256k1::point::Point::try_from` on the compressed serialization of
/// a curve point, which the library accepts since the x-coordinate is below
/// the field size and lies on the curve.
#[verifier::external_body]
fn point_from_compressed(bytes: &[u8; 33]) -> (r: p256k1::point::Point)
    requires
        spec_is_compressed_public_key(bytes@),
    ensures
        r == spec_point_from_compressed(bytes@),
{
    let compressed = p256k1::point::Compressed::from(*bytes);
    p256k1::point::Point::try_from(&compressed).expect("the key is a curve point")
}

/// Calls `p256k1::scalar::Scalar::from` on the bytes of a private key.
#[verifier::external_body]
fn scalar_from_bytes(bytes: [u8; 32]) -> (r: p256k1::scalar::Scalar)
    ensures
        r == spec_scalar_from_bytes(bytes@),
{
    p256k1::scalar::Scalar::from(bytes)
}

/// Calls `wsts::state_machine::signer::Signer::new`, which panics unless the
/// threshold is at most the number of keys, and whose party computes a
/// polynomial of degree `threshold - 1`. The public keys are handed over as
/// `p256k1::ecdsa::PublicKey`s parsed from their compressed serializations,
/// which the library accepts since it parses them with the same libsecp256k1
/// routine, and whose compressed serialization gives back the same bytes. The
/// state machine holds the given threshold, totals, signer id, key ids (in
/// its party) and network private key, and the public keys collected into
/// hash maps. The party's polynomial is drawn at random, so nothing is stated
/// of it.
#[verifier::external_body]
fn wsts_signer_new(
    threshold: u32,
    total_signers: u32,
    total_keys: u32,
    signer_id: u32,
    key_ids: Vec<u32>,
    network_private_key: p256k1::scalar::Scalar,
    signers: Vec<(u32, [u8; 33])>,
    key_id_keys: Vec<(u32, [u8; 33])>,
) -> (r: SignerStateMachine)
    requires
        1 <= threshold <= total_keys,
        forall|i: int| 0 <= i < signers.len() ==> spec_is_compressed_public_key(#[trigger] signers@[i].1@),
        forall|i: int| 0 <= i < key_id_keys.len() ==> spec_is_compressed_public_key(#[trigger] key_id_keys@[i].1@),
    ensures
        spec_signer_fields(r) == (
            threshold,
            total_signers,
            total_keys,
            signer_id,
            key_ids@,
            network_private_key,
            spec_pairs_to_map(spec_key_bytes_pairs(signers@)),
            spec_pairs_to_map(spec_key_bytes_pairs(key_id_keys@)),
        ),
{
    let parse = |(id, key): (u32, [u8; 33])| (id, p256k1::ecdsa::PublicKey::try_from(key.as_slice()).unwrap());
    let public_keys = wsts::state_machine::PublicKeys {
        signers: signers.into_iter().map(parse).collect(),
        key_ids: key_id_keys.into_iter().map(parse).collect(),
    };
    let signer = wsts::state_machine::signer::Signer::new(
        threshold, total_signers, total_keys, signer_id, key_ids, network_private_key, public_keys,
    );
    SignerStateMachine(signer)
}

/// Calls `wsts::state_machine::coordinator::Coordinator::new` for the FROST
/// coordinator, on the configuration that `Config::new` builds (which sets no
/// timeouts) with the given DKG threshold, key ids and public keys. The
/// coordinator keeps that configuration, which `get_config` returns, with the
/// key ids and public keys collected into hash maps and no timeouts set. The
/// new coordinator is idle, in DKG round 0, and holds no public shares and no
/// aggregate public key.
#[verifier::external_body]
fn wsts_coordinator_new(
    num_signers: u32,
    num_keys: u32,
    threshold: u32,
    dkg_threshold: u32,
    message_private_key: p256k1::scalar::Scalar,
    signer_key_ids: Vec<(u32, Vec<u32>)>,
    signer_public_keys: Vec<(u32, p256k1::point::Point)>,
) -> (r: CoordinatorStateMachine)
    ensures
        spec_coordinator_config(r) == (
            num_signers,
            num_keys,
            threshold,
            dkg_threshold,
            message_private_key,
            spec_pairs_to_map(signer_key_ids@.map_values(|pair: (u32, Vec<u32>)| (pair.0, pair.1@.to_set()))),
            spec_pairs_to_map(signer_public_keys@),
            (
                None::<std::time::Duration>,
                None::<std::time::Duration>,
                None::<std::time::Duration>,
                None::<std::time::Duration>,
                None::<std::time::Duration>,
            ),
        ),
        spec_coordinator_phase(r) is Idle,
        spec_coordinator_dkg_id(r) == 0,
        spec_coordinator_public_shares(r).dom().is_empty(),
        spec_coordinator_aggregate_key(r) is None,
{
    let signer_key_ids = signer_key_ids.into_iter().map(|(id, ids)| (id, ids.into_iter().collect()));
    let config = wsts::state_machine::coordinator::Config {
        signer_key_ids: signer_key_ids.collect(),
        signer_public_keys: signer_public_keys.into_iter().collect(),
        dkg_threshold,
        ..wsts::state_machine::coordinator::Config::new(num_signers, num_keys, threshold, message_private_key)
    };
    CoordinatorStateMachine(<wsts::state_machine::coordinator::frost::Coordinator<
        wsts::v2::Aggregator,
    > as wsts::state_machine::coordinator::Coordinator>::new(config))
}

/// The configuration of a WSTS signer.
#[derive(Clone, Debug, PartialEq, Eq)]
pub struct SignerConfig {
    /// The number of keys needed for a signature.
    pub threshold: u32,
    /// The number of signers.
    pub num_parties: u32,
    /// The number of keys; each signer controls one.
    pub num_keys: u32,
    /// The id of this signer: its position in the signer set.
    pub signer_id: u32,
    /// The key ids that this signer controls: its id plus one.
    pub key_ids: Vec<u32>,
    /// Each signer's id with its public key.
    pub signers: Vec<(u32, PublicKey)>,
    /// Each key id with the public key of the signer that controls it.
    pub key_id_keys: Vec<(u32, PublicKey)>,
}

/// Whether a key with the serialization `key` occurs among the first `n`
/// keys of `keys`.
pub open spec fn spec_key_among(keys: Seq<PublicKey>, key: Seq<u8>, n: int) -> bool {
    exists|i: int| 0 <= i < n && #[trigger] keys[i].spec_bytes() == key
}

/// Whether `i` is the position of the first key with the serialization
/// `key` in `keys`.
pub open spec fn spec_first_position(keys: Seq<PublicKey>, key: Seq<u8>, i: int) -> bool {
    &&& 0 <= i < keys.len()
    &&& keys[i].spec_bytes() == key
    &&& !spec_key_among(keys, key, i)
}

/// Every signer's position as its id, with its public key.
pub open spec fn spec_signer_ids(keys: Seq<PublicKey>) -> Seq<(u32, PublicKey)> {
    Seq::new(keys.len(), |i: int| (i as u32, keys[i]))
}

/// Every signer's position plus one as a key id, with its public key.
pub open spec fn spec_key_ids(keys: Seq<PublicKey>) -> Seq<(u32, PublicKey)> {
    Seq::new(keys.len(), |i: int| ((i + 1) as u32, keys[i]))
}

/// The error with which a signer configuration is refused, if any: more
/// signers than ids (`TypeConversion`), a signer set without this signer's
/// key (`MissingPublicKey`), or a threshold above the number of keys
/// (`InvalidConfiguration`), checked in that order.
pub open spec fn spec_signer_config_error(
    signers: Seq<PublicKey>,
    signer_public_key: Seq<u8>,
    threshold: u32,
) -> Option<SignerError> {
    if signers.len() > u32::MAX {
        Some(SignerError::TypeConversion)
    } else if !spec_key_among(signers, signer_public_key, signers.len() as int) {
        Some(SignerError::MissingPublicKey)
    } else if threshold > signers.len() {
        Some(SignerError::InvalidConfiguration)
    } else {
        None
    }
}

/// Whether two public keys have the same serialization.
fn public_key_equal(a: &PublicKey, b: &PublicKey) -> (r: bool)
    ensures
        r == (a.spec_bytes() == b.spec_bytes()),
{
    let a_bytes = a.serialize();
    let b_bytes = b.serialize();
    bytes_equal(a_bytes.as_slice(), b_bytes.as_slice())
}

/// Decides the configuration of this signer's WSTS state machine: signers
/// get their position in the signer set as id and that id plus one as their
/// single key id, and this signer is the first one whose key is its own.
pub fn signer_config(signers: &Vec<PublicKey>, signer_public_key: &PublicKey, threshold: u32) -> (r: Result<
    SignerConfig,
    SignerError,
>)
    ensures
        match spec_signer_config_error(signers@, signer_public_key.spec_bytes(), threshold) {
            Some(err) => r == Err::<SignerConfig, SignerError>(err),
            None => r matches Ok(config) && {
                &&& config.threshold == threshold
                &&& config.num_parties == signers.len()
                &&& config.num_keys == signers.len()
                &&& spec_first_position(signers@, signer_public_key.spec_bytes(), config.signer_id as int)
                &&& config.key_ids@ == seq![(config.signer_id + 1) as u32]
                &&& config.signers@ == spec_signer_ids(signers@)
                &&& config.key_id_keys@ == spec_key_ids(signers@)
            },
        },
{
    if signers.len() > 0xffff_ffffusize {
        return Err(SignerError::TypeConversion);
    }
    let num_parties = signers.len() as u32;
    let mut ids: Vec<(u32, PublicKey)> = Vec::new();
    let mut key_ids: Vec<(u32, PublicKey)> = Vec::new();
    let mut signer_id: Option<u32> = None;
    let mut i: usize = 0;
    while i < signers.len()
        invariant
            signers.len() <= u32::MAX,
            i <= signers.len(),
            ids@ == spec_signer_ids(signers@).take(i as int),
            key_ids@ == spec_key_ids(signers@).take(i as int),
            match signer_id {
                Some(id) => spec_first_position(signers@, signer_public_key.spec_bytes(), id as int),
                None => !spec_key_among(signers@, signer_public_key.spec_bytes(), i as int),
            },
        decreases signers.len() - i,
    {
        let key = signers[i];
        ids.push((i as u32, key));
        key_ids.push(((i + 1) as u32, key));
        if signer_id.is_none() && public_key_equal(&key, signer_public_key) {
            signer_id = Some(i as u32);
        }
        proof {
            assert(ids@ =~= spec_signer_ids(signers@).take(i + 1));
            assert(key_ids@ =~= spec_key_ids(signers@).take(i + 1));
            if signer_id is None {
                assert forall|j: int| 0 <= j < i + 1 implies #[trigger] signers@[j].spec_bytes() != signer_public_key.spec_bytes() by {
                    if j < i {
                        assert(!spec_key_among(signers@, signer_public_key.spec_bytes(), i as int));
                    }
                }
            }
        }
        i = i + 1;
    }
    assert(ids@ =~= spec_signer_ids(signers@));
    assert(key_ids@ =~= spec_key_ids(signers@));
    let signer_id = match signer_id {
        Some(id) => id,
        None => return Err(SignerError::MissingPublicKey),
    };
    if threshold > num_parties {
        return Err(SignerError::InvalidConfiguration);
    }
    Ok(
        SignerConfig {
            threshold,
            num_parties,
            num_keys: num_parties,
            signer_id,
            key_ids: vec![signer_id + 1],
            signers: ids,
            key_id_keys: key_ids,
        },
    )
}

/// The serialization of each key of a list of ids with keys.
fn serialize_keys(pairs: &Vec<(u32, PublicKey)>) -> (r: Vec<(u32, [u8; 33])>)
    ensures
        r.len() == pairs.len(),
        forall|i: int|
            0 <= i < pairs.len() ==> (#[trigger] r@[i]).0 == pairs@[i].0 && r@[i].1@ == pairs@[i].1.spec_bytes()
                && spec_is_compressed_public_key(r@[i].1@),
{
    let mut out: Vec<(u32, [u8; 33])> = Vec::new();
    let mut i: usize = 0;
    while i < pairs.len()
        invariant
            i <= pairs.len(),
            out.len() == i,
            forall|j: int|
                0 <= j < i ==> (#[trigger] out@[j]).0 == pairs@[j].0 && out@[j].1@ == pairs@[j].1.spec_bytes()
                    && spec_is_compressed_public_key(out@[j].1@),
        decreases pairs.len() - i,
    {
        let (id, key) = pairs[i];
        out.push((id, key.serialize()));
        i = i + 1;
    }
    out
}

/// What the signer state machine of the signer at position `signer_id` holds:
/// the threshold, the size of the signer set as the number of signers and of
/// keys, its id, its single key id (its id plus one), the scalar of its
/// private key, every signer's public key by position, and every signer's
/// public key by position plus one.
pub open spec fn spec_signer_fields_for(
    signers: Seq<PublicKey>,
    threshold: u32,
    signer_private_key: Seq<u8>,
    signer_id: u32,
) -> (u32, u32, u32, u32, Seq<u32>, p256k1::scalar::Scalar, Map<u32, Seq<u8>>, Map<u32, Seq<u8>>) {
    (
        threshold,
        signers.len() as u32,
        signers.len() as u32,
        signer_id,
        seq![(signer_id + 1) as u32],
        spec_scalar_from_bytes(signer_private_key),
        Map::new(|id: u32| id < signers.len(), |id: u32| signers[id as int].spec_bytes()),
        Map::new(|id: u32| 1 <= id <= signers.len(), |id: u32| signers[id - 1].spec_bytes()),
    )
}

impl SignerStateMachine {
    /// Creates a new signer state machine for the signer with the given
    /// private key, within the given signer set and signing threshold. The
    /// configuration is the one that [`signer_config`] decides for the
    /// signer's own public key, and it is refused on the same inputs. A
    /// threshold of zero is only admitted where the configuration is refused,
    /// since `wsts` cannot build a party for it.
    pub fn new(signers: Vec<PublicKey>, threshold: u32, signer_private_key: PrivateKey) -> (r: Result<
        Self,
        SignerError,
    >)
        requires
            threshold >= 1 || spec_signer_config_error(
                signers@,
                spec_public_key_of_private_key(signer_private_key.spec_bytes()),
                threshold,
            ) is Some,
        ensures
            match spec_signer_config_error(
                signers@,
                spec_public_key_of_private_key(signer_private_key.spec_bytes()),
                threshold,
            ) {
                Some(err) => r == Err::<Self, SignerError>(err),
                None => r is Ok,
            },
            r matches Ok(machine) ==> exists|signer_id: u32|
                #![trigger spec_signer_fields_for(signers@, threshold, signer_private_key.spec_bytes(), signer_id)]
                spec_first_position(
                    signers@,
                    spec_public_key_of_private_key(signer_private_key.spec_bytes()),
                    signer_id as int,
                ) && spec_signer_fields(machine) == spec_signer_fields_for(
                    signers@,
                    threshold,
                    signer_private_key.spec_bytes(),
                    signer_id,
                ),
    {
        let signer_public_key = PublicKey::from_private_key(&signer_private_key);
        let config = match signer_config(&signers, &signer_public_key, threshold) {
            Ok(config) => config,
            Err(err) => return Err(err),
        };
        let signer_keys = serialize_keys(&config.signers);
        let key_id_keys = serialize_keys(&config.key_id_keys);
        let network_private_key = scalar_from_bytes(signer_private_key.to_bytes());
        let ghost signer_id = config.signer_id;
        let machine = wsts_signer_new(
            config.threshold,
            config.num_parties,
            config.num_keys,
            config.signer_id,
            config.key_ids,
            network_private_key,
            signer_keys,
            key_id_keys,
        );
        proof {
            let n = signers.len();
            let by_id = spec_key_bytes_pairs(signer_keys@);
            let by_key_id = spec_key_bytes_pairs(key_id_keys@);
            assert forall|i: int| 0 <= i < by_id.len() implies #[trigger] by_id[i].0 == i + 0 by {
                assert(config.signers@[i] == spec_signer_ids(signers@)[i]);
            }
            lemma_indexed_pairs_to_map(by_id, 0);
            assert forall|i: int| 0 <= i < by_key_id.len() implies #[trigger] by_key_id[i].0 == i + 1 by {
                assert(config.key_id_keys@[i] == spec_key_ids(signers@)[i]);
            }
            lemma_indexed_pairs_to_map(by_key_id, 1);
            let expected = spec_signer_fields_for(signers@, threshold, signer_private_key.spec_bytes(), signer_id);
            assert(spec_pairs_to_map(by_id) =~= expected.6) by {
                assert forall|id: u32| #[trigger] expected.6.dom().contains(id) implies spec_pairs_to_map(by_id)[id]
                    == expected.6[id] by {
                    let i = id as int;
                    assert(config.signers@[i] == spec_signer_ids(signers@)[i]);
                    assert(by_id[i].1 == signer_keys@[i].1@);
                }
            }
            assert(spec_pairs_to_map(by_key_id) =~= expected.7) by {
                assert forall|id: u32| #[trigger] expected.7.dom().contains(id) implies spec_pairs_to_map(
                    by_key_id,
                )[id] == expected.7[id] by {
                    let i = id - 1;
                    assert(config.key_id_keys@[i] == spec_key_ids(signers@)[i]);
                    assert(by_key_id[i].1 == key_id_keys@[i].1@);
                    assert((i + 1) as u32 == id);
                }
            }
            assert(spec_signer_fields(machine) == expected);
        }
        Ok(machine)
    }
}

/// The configuration of a WSTS FROST coordinator.
#[derive(Clone, Debug, PartialEq, Eq)]
pub struct CoordinatorConfig {
    /// The number of signers.
    pub num_signers: u32,
    /// The number of keys; each signer controls one.
    pub num_keys: u32,
    /// The number of keys needed for a signature.
    pub threshold: u32,
    /// The number of keys needed to complete DKG: all of them.
    pub dkg_threshold: u32,
    /// Each signer's id with the key ids it controls: its id alone.
    pub signer_key_ids: Vec<(u32, Vec<u32>)>,
    /// Each signer's id with its public key.
    pub signer_public_keys: Vec<(u32, PublicKey)>,
}

/// Decides the configuration of a WSTS coordinator: signers get their
/// position in the signer set as id and control the key with that same id,
/// and DKG needs every key.
pub fn coordinator_config(signers: &Vec<PublicKey>, threshold: u32) -> (r: CoordinatorConfig)
    requires
        signers.len() <= u32::MAX,
    ensures
        r.num_signers == signers.len(),
        r.num_keys == signers.len(),
        r.threshold == threshold,
        r.dkg_threshold == signers.len(),
        r.signer_public_keys@ == spec_signer_ids(signers@),
        r.signer_key_ids.len() == signers.len(),
        forall|i: int|
            0 <= i < signers.len() ==> (#[trigger] r.signer_key_ids@[i]).0 == i && r.signer_key_ids@[i].1@
                == seq![i as u32],
{
    let num_signers = signers.len() as u32;
    let mut signer_key_ids: Vec<(u32, Vec<u32>)> = Vec::new();
    let mut signer_public_keys: Vec<(u32, PublicKey)> = Vec::new();
    let mut i: usize = 0;
    while i < signers.len()
        invariant
            signers.len() <= u32::MAX,
            i <= signers.len(),
            signer_public_keys@ == spec_signer_ids(signers@).take(i as int),
            signer_key_ids.len() == i,
            forall|j: int|
                0 <= j < i ==> (#[trigger] signer_key_ids@[j]).0 == j && signer_key_ids@[j].1@ == seq![j as u32],
        decreases signers.len() - i,
    {
        let id = i as u32;
        signer_public_keys.push((id, signers[i]));
        signer_key_ids.push((id, vec![id]));
        assert(signer_public_keys@ =~= spec_signer_ids(signers@).take(i + 1));
        i = i + 1;
    }
    assert(signer_public_keys@ =~= spec_signer_ids(signers@));
    CoordinatorConfig {
        num_signers,
        num_keys: num_signers,
        threshold,
        dkg_threshold: num_signers,
        signer_key_ids,
        signer_public_keys,
    }
}

/// The curve point of each key of a list of ids with keys.
fn keys_to_points(pairs: &Vec<(u32, PublicKey)>) -> (r: Vec<(u32, p256k1::point::Point)>)
    ensures
        r.len() == pairs.len(),
        forall|i: int|
            0 <= i < pairs.len() ==> (#[trigger] r@[i]).0 == pairs@[i].0 && r@[i].1
                == spec_point_from_compressed(pairs@[i].1.spec_bytes()),
{
    let mut out: Vec<(u32, p256k1::point::Point)> = Vec::new();
    let mut i: usize = 0;
    while i < pairs.len()
        invariant
            i <= pairs.len(),
            out.len() == i,
            forall|j: int|
                0 <= j < i ==> (#[trigger] out@[j]).0 == pairs@[j].0 && out@[j].1
                    == spec_point_from_compressed(pairs@[j].1.spec_bytes()),
        decreases pairs.len() - i,
    {
        let (id, key) = pairs[i];
        let bytes = key.serialize();
        out.push((id, point_from_compressed(&bytes)));
        i = i + 1;
    }
    out
}

/// The configuration that a coordinator of the given signer set holds: every
/// signer's position is its id and the id of the one key it controls, DKG
/// needs every key, and every signer's public key is its curve point.
pub open spec fn spec_coordinator_config_for(signers: Seq<PublicKey>, threshold: u32, message_private_key: Seq<u8>) -> (
    u32,
    u32,
    u32,
    u32,
    p256k1::scalar::Scalar,
    Map<u32, Set<u32>>,
    Map<u32, p256k1::point::Point>,
    (
        Option<std::time::Duration>,
        Option<std::time::Duration>,
        Option<std::time::Duration>,
        Option<std::time::Duration>,
        Option<std::time::Duration>,
    ),
) {
    (
        signers.len() as u32,
        signers.len() as u32,
        threshold,
        signers.len() as u32,
        spec_scalar_from_bytes(message_private_key),
        Map::new(|id: u32| id < signers.len(), |id: u32| set![id]),
        Map::new(|id: u32| id < signers.len(), |id: u32| spec_point_from_compressed(signers[id as int].spec_bytes())),
        (
                None::<std::time::Duration>,
                None::<std::time::Duration>,
                None::<std::time::Duration>,
                None::<std::time::Duration>,
                None::<std::time::Duration>,
            ),
    )
}

impl CoordinatorStateMachine {
    /// Creates a new coordinator state machine for the given signer set and
    /// signing threshold, signing its messages with the given private key.
    /// The configuration is the one that [`coordinator_config`] decides, with
    /// no timeouts; the coordinator is idle, in DKG round 0, and holds no
    /// public shares and no aggregate key yet.
    pub fn new(signers: Vec<PublicKey>, threshold: u32, message_private_key: PrivateKey) -> (r: Self)
        requires
            signers.len() <= u32::MAX,
        ensures
            spec_coordinator_config(r) == spec_coordinator_config_for(
                signers@,
                threshold,
                message_private_key.spec_bytes(),
            ),
            spec_coordinator_phase(r) is Idle,
            spec_coordinator_dkg_id(r) == 0,
            spec_coordinator_public_shares(r) == Map::<u32, wsts::net::DkgPublicShares>::empty(),
            spec_coordinator_aggregate_key(r) is None,
    {
        let config = coordinator_config(&signers, threshold);
        let signer_public_keys = keys_to_points(&config.signer_public_keys);
        let ghost key_ids = config.signer_key_ids@.map_values(
            |pair: (u32, Vec<u32>)| (pair.0, pair.1@.to_set()),
        );
        let r = wsts_coordinator_new(
            config.num_signers,
            config.num_keys,
            config.threshold,
            config.dkg_threshold,
            scalar_from_bytes(message_private_key.to_bytes()),
            config.signer_key_ids,
            signer_public_keys,
        );
        proof {
            let n = signers.len();
            assert forall|i: int| 0 <= i < key_ids.len() implies #[trigger] key_ids[i].0 == i by {
                assert(config.signer_key_ids@[i].0 == i);
            }
            lemma_indexed_pairs_to_map(key_ids, 0);
            assert forall|i: int| 0 <= i < signer_public_keys@.len() implies #[trigger] signer_public_keys@[i].0
                == i by {
                assert(config.signer_public_keys@[i] == spec_signer_ids(signers@)[i]);
            }
            lemma_indexed_pairs_to_map(signer_public_keys@, 0);
            let expected = spec_coordinator_config_for(signers@, threshold, message_private_key.spec_bytes());
            assert(spec_pairs_to_map(key_ids) =~= expected.5) by {
                assert forall|id: u32| #[trigger] expected.5.dom().contains(id) implies spec_pairs_to_map(
                    key_ids,
                )[id] == expected.5[id] by {
                    let i = id as int;
                    assert(config.signer_key_ids@[i].1@ == seq![id]);
                    assert(key_ids[i].1 == seq![id].to_set());
                    assert(seq![id].to_set() =~= set![id]) by {
                        assert(seq![id].contains(id)) by {
                            assert(seq![id][0] == id);
                        }
                    }
                }
            }
            assert(spec_pairs_to_map(signer_public_keys@) =~= expected.6) by {
                assert forall|id: u32| #[trigger] expected.6.dom().contains(id) implies spec_pairs_to_map(
                    signer_public_keys@,
                )[id] == expected.6[id] by {
                    let i = id as int;
                    assert(config.signer_public_keys@[i] == spec_signer_ids(signers@)[i]);
                    assert(signer_public_keys@[i].1 == spec_point_from_compressed(signers@[i].spec_bytes()));
                    assert((i + 0) as u32 == id);
                    assert(spec_pairs_to_map(signer_public_keys@)[(i + 0) as u32] == signer_public_keys@[i].1);
                }
                assert forall|id: u32| #[trigger] expected.6.dom().contains(id) <==> spec_pairs_to_map(
                    signer_public_keys@,
                ).dom().contains(id) by {}
            }
        }
        r
    }
}

/// The saved state of a WSTS signer: its party and the results of DKG.
#[verifier::external_type_specification]
#[verifier::external_body]
pub struct ExSignerState(wsts::traits::SignerState);

/// What `wsts::util::decrypt` returns for this key and data: the plaintext,
/// or `None` when the AES-GCM tag does not verify.
pub uninterp spec fn spec_decrypt(key: Seq<u8>, data: Seq<u8>) -> Option<Seq<u8>>;

/// The number of parties in a saved signer state (`parties.len()`).
pub uninterp spec fn spec_signer_state_party_count(state: wsts::traits::SignerState) -> nat;

/// What a saved signer state holds of its party: its id, key ids, number of
/// keys, number of parties, threshold and group key, and the private keys of
/// its (first) party by key id.
pub uninterp spec fn spec_signer_state_party(state: wsts::traits::SignerState) -> (
    u32,
    Seq<u32>,
    u32,
    u32,
    u32,
    p256k1::point::Point,
    Map<u32, p256k1::scalar::Scalar>,
);

/// What `save` returns for the party of a signer state machine, in the form
/// of [`spec_signer_state_party`].
pub uninterp spec fn spec_signer_party(machine: SignerStateMachine) -> (
    u32,
    Seq<u32>,
    u32,
    u32,
    u32,
    p256k1::point::Point,
    Map<u32, p256k1::scalar::Scalar>,
);

/// Calls `wsts::util::decrypt`, which takes the first 12 bytes as the
/// AES-GCM nonce and so panics on shorter data; the AES-GCM error, which
/// carries nothing, becomes `None`.
#[verifier::external_body]
fn wsts_decrypt(key: &[u8; 32], data: &[u8]) -> (r: Option<Vec<u8>>)
    requires
        data@.len() >= 12,
    ensures
        r matches Some(plain) ==> spec_decrypt(key@, data@) == Some(plain@),
        r is None ==> spec_decrypt(key@, data@) is None,
{
    wsts::util::decrypt(key, data).ok()
}

/// Reads the number of parties of a saved signer state.
#[verifier::external_body]
fn signer_state_party_count(state: &wsts::traits::SignerState) -> (r: usize)
    ensures
        r == spec_signer_state_party_count(*state),
{
    state.parties.len()
}

/// Sets the signer of a signer state machine to `wsts::v2::Party::load` of a
/// saved state, which asserts that the state holds exactly one party. The
/// loaded party takes its id, key ids, numbers of keys and parties,
/// threshold, group key and private keys from the saved state, so its own
/// saved form holds them again; no other field of the state machine changes.
/// Its polynomial and nonce, which it also takes from the saved state, are
/// not stated.
#[verifier::external_body]
fn load_party(machine: &mut SignerStateMachine, state: &wsts::traits::SignerState)
    requires
        spec_signer_state_party_count(*state) == 1,
    ensures
        spec_signer_fields(*final(machine)) == ({
            let old_fields = spec_signer_fields(*old(machine));
            (
                old_fields.0,
                old_fields.1,
                old_fields.2,
                old_fields.3,
                spec_signer_state_party(*state).1,
                old_fields.5,
                old_fields.6,
                old_fields.7,
            )
        }),
        spec_signer_party(*final(machine)) == spec_signer_state_party(*state),
{
    machine.0.signer = <wsts::v2::Party as wsts::traits::Signer>::load(state);
}

/// Decrypts the private DKG shares stored for this signer, which were
/// encrypted with its private key; `Encryption` when they do not decrypt.
pub fn decrypt_dkg_shares(signer_private_key: &PrivateKey, encrypted: &Vec<u8>) -> (r: Result<Vec<u8>, SignerError>)
    requires
        encrypted@.len() >= 12,
    ensures
        match spec_decrypt(signer_private_key.spec_bytes(), encrypted@) {
            Some(plain) => r matches Ok(bytes) && bytes@ == plain,
            None => r matches Err(err) && err is Encryption,
        },
{
    let key = signer_private_key.to_bytes();
    match wsts_decrypt(&key, encrypted.as_slice()) {
        Some(plain) => Ok(plain),
        None => Err(SignerError::Encryption),
    }
}

/// What the signer state machine of the signer at position `signer_id`
/// holds once its party is loaded from a saved state: the fields of
/// [`spec_signer_fields_for`], with the saved state's key ids.
pub open spec fn spec_loaded_signer_fields(
    signers: Seq<PublicKey>,
    threshold: u32,
    signer_private_key: Seq<u8>,
    signer_id: u32,
    saved_state: wsts::traits::SignerState,
) -> (u32, u32, u32, u32, Seq<u32>, p256k1::scalar::Scalar, Map<u32, Seq<u8>>, Map<u32, Seq<u8>>) {
    let fields = spec_signer_fields_for(signers, threshold, signer_private_key, signer_id);
    (
        fields.0,
        fields.1,
        fields.2,
        fields.3,
        spec_signer_state_party(saved_state).1,
        fields.5,
        fields.6,
        fields.7,
    )
}

/// Creates the signer state machine of this signer from its saved state:
/// the state machine that [`SignerStateMachine::new`] creates, with its
/// party loaded from the saved state. It is refused on the same inputs as
/// `new`.
pub fn signer_from_saved_state(
    signers: Vec<PublicKey>,
    threshold: u32,
    signer_private_key: PrivateKey,
    saved_state: wsts::traits::SignerState,
) -> (r: Result<SignerStateMachine, SignerError>)
    requires
        threshold >= 1 || spec_signer_config_error(
            signers@,
            spec_public_key_of_private_key(signer_private_key.spec_bytes()),
            threshold,
        ) is Some,
        spec_signer_state_party_count(saved_state) == 1,
    ensures
        match spec_signer_config_error(
            signers@,
            spec_public_key_of_private_key(signer_private_key.spec_bytes()),
            threshold,
        ) {
            Some(err) => r == Err::<SignerStateMachine, SignerError>(err),
            None => r is Ok,
        },
        r matches Ok(machine) ==> exists|signer_id: u32|
            #![trigger spec_signer_fields_for(signers@, threshold, signer_private_key.spec_bytes(), signer_id)]
            spec_first_position(
                signers@,
                spec_public_key_of_private_key(signer_private_key.spec_bytes()),
                signer_id as int,
            ) && spec_signer_fields(machine) == spec_loaded_signer_fields(
                signers@,
                threshold,
                signer_private_key.spec_bytes(),
                signer_id,
                saved_state,
            ),
        r matches Ok(machine) ==> spec_signer_party(machine) == spec_signer_state_party(saved_state),
{
    let mut machine = match SignerStateMachine::new(signers, threshold, signer_private_key) {
        Ok(machine) => machine,
        Err(err) => return Err(err),
    };
    load_party(&mut machine, &saved_state);
    Ok(machine)
}

/// Creates the signer state machine of this signer from its saved state, as
/// [`signer_from_saved_state`] does, when the saved state holds exactly one
/// party and the threshold is not zero (or the configuration is refused
/// anyway); `None` otherwise.
pub fn try_signer_from_saved_state(
    signers: Vec<PublicKey>,
    threshold: u32,
    signer_private_key: PrivateKey,
    saved_state: wsts::traits::SignerState,
) -> (r: Option<Result<SignerStateMachine, SignerError>>)
    ensures
        r is Some <==> spec_signer_state_party_count(saved_state) == 1 && (threshold >= 1
            || spec_signer_config_error(
            signers@,
            spec_public_key_of_private_key(signer_private_key.spec_bytes()),
            threshold,
        ) is Some),
        r matches Some(result) ==> match spec_signer_config_error(
            signers@,
            spec_public_key_of_private_key(signer_private_key.spec_bytes()),
            threshold,
        ) {
            Some(err) => result == Err::<SignerStateMachine, SignerError>(err),
            None => result is Ok,
        },
        r matches Some(Ok(machine)) ==> exists|signer_id: u32|
            #![trigger spec_signer_fields_for(signers@, threshold, signer_private_key.spec_bytes(), signer_id)]
            spec_first_position(
                signers@,
                spec_public_key_of_private_key(signer_private_key.spec_bytes()),
                signer_id as int,
            ) && spec_signer_fields(machine) == spec_loaded_signer_fields(
                signers@,
                threshold,
                signer_private_key.spec_bytes(),
                signer_id,
                saved_state,
            ),
        r matches Some(Ok(machine)) ==> spec_signer_party(machine) == spec_signer_state_party(saved_state),
{
    if signer_state_party_count(&saved_state) != 1 {
        return None;
    }
    if threshold == 0 {
        let signer_public_key = PublicKey::from_private_key(&signer_private_key);
        if signer_config(&signers, &signer_public_key, threshold).is_ok() {
            return None;
        }
    }
    Some(signer_from_saved_state(signers, threshold, signer_private_key, saved_state))
}

/// A network packet of the WSTS protocol.
#[verifier::external_type_specification]
#[verifier::external_body]
pub struct ExPacket(wsts::net::Packet);

/// The result of a completed WSTS operation.
#[verifier::external_type_specification]
#[verifier::external_body]
pub struct ExOperationResult(wsts::state_machine::OperationResult);

/// The public DKG shares that a signer sent.
#[verifier::external_type_specification]
#[verifier::external_body]
pub struct ExDkgPublicShares(wsts::net::DkgPublicShares);

/// A message that a coordinator processes while it is being loaded.
pub enum DkgInput {
    /// `DkgBegin` with this DKG id.
    DkgBegin(u64),
    /// A signer's public DKG shares.
    DkgPublicShares(wsts::net::DkgPublicShares),
}

/// Whether the coordinator's message private key is the scalar of a valid
/// private key, which is what lets it sign the packets it sends.
pub open spec fn spec_coordinator_can_sign(coordinator: CoordinatorStateMachine) -> bool {
    exists|key: Seq<u8>|
        spec_private_key_is_valid(key) && #[trigger] spec_scalar_from_bytes(key) == spec_coordinator_config(
            coordinator,
        ).4
}

/// The ids of all `n` signers.
pub open spec fn spec_all_signer_ids(n: u32) -> Set<u32> {
    Set::new(|id: u32| id < n)
}

/// Whether a coordinator can be fed DKG messages while it is loaded: it can
/// sign, it has at least one signer, and it is idle, gathering public shares,
/// or gathering private shares while still waiting on some signer.
pub open spec fn spec_coordinator_loadable(coordinator: CoordinatorStateMachine) -> bool {
    &&& spec_coordinator_can_sign(coordinator)
    &&& spec_coordinator_config(coordinator).0 > 0
    &&& {
        ||| spec_coordinator_phase(coordinator) is Idle
        ||| spec_coordinator_phase(coordinator) is DkgPublicGather
        ||| spec_coordinator_phase(coordinator) is DkgPrivateGather && !spec_coordinator_awaited(
            coordinator,
        ).is_empty()
    }
}

/// Calls `Coordinator::process_message` on an unsigned packet holding the
/// message, for a coordinator that is idle or gathering DKG shares.
///
/// The coordinator signs the packets it sends with its message private key,
/// which succeeds since that key is a valid private key. In these states it
/// only ever moves between them: an idle coordinator starts DKG round `id`
/// on a `DkgBegin` with an `id` above its current round (gathering the
/// public shares of all signers) and otherwise ignores the message; while
/// gathering public shares it refuses shares of another round and otherwise
/// keeps them by signer id and stops waiting on their signer, moving on to
/// gather private shares from all signers once it waits on no one; while
/// gathering private shares it ignores DKG messages, since they do not stop
/// it from waiting on a signer. Neither its configuration nor its aggregate
/// key changes. What it returns besides these outcomes is not stated.
#[verifier::external_body]
fn coordinator_process_message(coordinator: &mut CoordinatorStateMachine, input: DkgInput) -> (r: Result<
    (Option<wsts::net::Packet>, Option<wsts::state_machine::OperationResult>),
    wsts::state_machine::coordinator::Error,
>)
    requires
        spec_coordinator_loadable(*old(coordinator)),
    ensures
        spec_coordinator_config(*final(coordinator)) == spec_coordinator_config(*old(coordinator)),
        spec_coordinator_aggregate_key(*final(coordinator)) == spec_coordinator_aggregate_key(*old(coordinator)),
        spec_coordinator_loadable(*final(coordinator)),
        match input {
            DkgInput::DkgBegin(id) => spec_coordinator_phase(*old(coordinator)) is Idle ==> if id
                <= spec_coordinator_dkg_id(*old(coordinator)) {
                &&& r matches Ok((None, None))
                &&& *final(coordinator) == *old(coordinator)
            } else {
                &&& r matches Ok((Some(_), _))
                &&& spec_coordinator_phase(*final(coordinator)) is DkgPublicGather
                &&& spec_coordinator_dkg_id(*final(coordinator)) == id
                &&& spec_coordinator_awaited(*final(coordinator)) == spec_all_signer_ids(
                    spec_coordinator_config(*old(coordinator)).0,
                )
                &&& spec_coordinator_public_shares(*final(coordinator)).dom().is_empty()
            },
            DkgInput::DkgPublicShares(shares) => {
                &&& !(spec_coordinator_phase(*old(coordinator)) is DkgPublicGather) ==> {
                    &&& r matches Ok((None, None))
                    &&& *final(coordinator) == *old(coordinator)
                }
                &&& spec_coordinator_phase(*old(coordinator)) is DkgPublicGather ==> {
                    let (dkg_id, signer_id) = spec_dkg_public_shares_ids(shares);
                    let waiting = spec_coordinator_awaited(*old(coordinator)).remove(signer_id);
                    if dkg_id != spec_coordinator_dkg_id(*old(coordinator)) {
                        &&& r is Err
                        &&& *final(coordinator) == *old(coordinator)
                    } else {
                        &&& r is Ok
                        &&& spec_coordinator_dkg_id(*final(coordinator)) == spec_coordinator_dkg_id(
                            *old(coordinator),
                        )
                        &&& spec_coordinator_public_shares(*final(coordinator)) == spec_coordinator_public_shares(
                            *old(coordinator),
                        ).insert(signer_id, shares)
                        &&& if waiting.is_empty() {
                            &&& spec_coordinator_phase(*final(coordinator)) is DkgPrivateGather
                            &&& spec_coordinator_awaited(*final(coordinator)) == spec_all_signer_ids(
                                spec_coordinator_config(*old(coordinator)).0,
                            )
                        } else {
                            &&& spec_coordinator_phase(*final(coordinator)) is DkgPublicGather
                            &&& spec_coordinator_awaited(*final(coordinator)) == waiting
                        }
                    }
                }
            },
        },
{
    let msg = match input {
        DkgInput::DkgBegin(dkg_id) => wsts::net::Message::DkgBegin(wsts::net::DkgBegin { dkg_id }),
        DkgInput::DkgPublicShares(shares) => wsts::net::Message::DkgPublicShares(shares),
    };
    coordinator.0.process_message(&wsts::net::Packet { msg, sig: Vec::new() })
}

/// Calls `Coordinator::set_aggregate_public_key`, which sets the aggregate
/// key and nothing else.
#[verifier::external_body]
fn coordinator_set_aggregate_public_key(
    coordinator: &mut CoordinatorStateMachine,
    aggregate_key: Option<p256k1::point::Point>,
)
    ensures
        spec_coordinator_aggregate_key(*final(coordinator)) == aggregate_key,
        spec_coordinator_config(*final(coordinator)) == spec_coordinator_config(*old(coordinator)),
        spec_coordinator_phase(*final(coordinator)) == spec_coordinator_phase(*old(coordinator)),
        spec_coordinator_dkg_id(*final(coordinator)) == spec_coordinator_dkg_id(*old(coordinator)),
        spec_coordinator_awaited(*final(coordinator)) == spec_coordinator_awaited(*old(coordinator)),
        spec_coordinator_public_shares(*final(coordinator)) == spec_coordinator_public_shares(*old(coordinator)),
{
    wsts::state_machine::coordinator::Coordinator::set_aggregate_public_key(&mut coordinator.0, aggregate_key)
}

/// Calls `StateMachine::move_to` with `State::Idle`. A coordinator may always
/// move to the idle state, and the move sets the state and nothing else.
#[verifier::external_body]
fn coordinator_move_to_idle(coordinator: &mut CoordinatorStateMachine) -> (r: Result<
    (),
    wsts::state_machine::coordinator::Error,
>)
    ensures
        r is Ok,
        spec_coordinator_phase(*final(coordinator)) is Idle,
        spec_coordinator_aggregate_key(*final(coordinator)) == spec_coordinator_aggregate_key(*old(coordinator)),
        spec_coordinator_config(*final(coordinator)) == spec_coordinator_config(*old(coordinator)),
        spec_coordinator_dkg_id(*final(coordinator)) == spec_coordinator_dkg_id(*old(coordinator)),
        spec_coordinator_awaited(*final(coordinator)) == spec_coordinator_awaited(*old(coordinator)),
        spec_coordinator_public_shares(*final(coordinator)) == spec_coordinator_public_shares(*old(coordinator)),
{
    wsts::state_machine::StateMachine::move_to(&mut coordinator.0, wsts::state_machine::coordinator::State::Idle)
}

/// Builds the coordinator error `BadStateChange` with this message.
#[verifier::external_body]
fn bad_state_change(message: String) -> (r: wsts::state_machine::coordinator::Error) {
    wsts::state_machine::coordinator::Error::BadStateChange(message)
}

/// The DKG shares read from storage, or `MissingDkgShares` when none are
/// stored.
pub fn dkg_shares_or_missing<T>(shares: Option<T>) -> (r: Result<T, SignerError>)
    ensures
        match shares {
            Some(value) => r == Ok::<T, SignerError>(value),
            None => r == Err::<T, SignerError>(SignerError::MissingDkgShares),
        },
{
    match shares {
        Some(value) => Ok(value),
        None => Err(SignerError::MissingDkgShares),
    }
}

/// The shares messages of pairs of signer ids and shares.
pub open spec fn spec_share_messages(pairs: Seq<(u32, wsts::net::DkgPublicShares)>) -> Seq<wsts::net::DkgPublicShares> {
    pairs.map_values(|pair: (u32, wsts::net::DkgPublicShares)| pair.1)
}

/// What a coordinator of `n` signers in DKG round 1 makes of these public
/// shares, given in turn: `None` when a share of another round arrives
/// while it gathers public shares; otherwise whether it still gathers public
/// shares, the signers it waits on, and the shares it keeps by signer id.
/// Once it waits on no one it gathers private shares and ignores the rest.
pub open spec fn spec_gather_public_shares(n: u32, shares: Seq<wsts::net::DkgPublicShares>) -> Option<
    (bool, Set<u32>, Map<u32, wsts::net::DkgPublicShares>),
>
    decreases shares.len(),
{
    if shares.len() == 0 {
        Some((true, spec_all_signer_ids(n), Map::empty()))
    } else {
        match spec_gather_public_shares(n, shares.drop_last()) {
            None => None,
            Some((gathering, awaited, kept)) => if !gathering {
                Some((false, awaited, kept))
            } else {
                let (dkg_id, signer_id) = spec_dkg_public_shares_ids(shares.last());
                let waiting = awaited.remove(signer_id);
                if dkg_id != 1 {
                    None
                } else if waiting.is_empty() {
                    Some((false, spec_all_signer_ids(n), kept.insert(signer_id, shares.last())))
                } else {
                    Some((true, waiting, kept.insert(signer_id, shares.last())))
                }
            },
        }
    }
}

/// Once some shares are refused, any further shares are refused too.
proof fn lemma_gather_refused_stays_refused(n: u32, shares: Seq<wsts::net::DkgPublicShares>, k: int)
    requires
        0 <= k <= shares.len(),
        spec_gather_public_shares(n, shares.take(k)) is None,
    ensures
        spec_gather_public_shares(n, shares) is None,
    decreases shares.len() - k,
{
    if k < shares.len() {
        assert(shares.take(k + 1).drop_last() =~= shares.take(k));
        lemma_gather_refused_stays_refused(n, shares, k + 1);
    } else {
        assert(shares.take(k) =~= shares);
    }
}

/// The shares of a completed DKG round among `n` signers, one from each
/// signer in the order of their ids and all of round 1, are all kept, and the
/// coordinator then gathers private shares.
pub proof fn lemma_completed_dkg_shares_are_kept(n: u32, shares: Seq<wsts::net::DkgPublicShares>)
    requires
        n > 0,
        shares.len() == n,
        forall|i: int| 0 <= i < n ==> #[trigger] spec_dkg_public_shares_ids(shares[i]) == (1u64, i as u32),
    ensures
        spec_gather_public_shares(n, shares) == Some(
            (
                false,
                spec_all_signer_ids(n),
                Map::new(|id: u32| id < n, |id: u32| shares[id as int]),
            ),
        ),
{
    lemma_gather_prefix(n, shares, (n - 1) as int);
    let prefix = shares.take(n - 1);
    assert(shares.take(n as int) =~= shares);
    assert(shares.drop_last() =~= prefix);
    let waiting = Set::new(|id: u32| n - 1 <= id < n).remove((n - 1) as u32);
    assert(waiting =~= Set::<u32>::empty());
    let kept = Map::new(|id: u32| id < n - 1, |id: u32| shares[id as int]).insert(
        (n - 1) as u32,
        shares.last(),
    );
    assert(kept =~= Map::new(|id: u32| id < n, |id: u32| shares[id as int]));
}

/// After the first `k` shares of a completed DKG round, fewer than all of
/// them, the coordinator still gathers public shares, waits on the signers
/// from `k` on, and keeps the shares of the signers before `k`.
proof fn lemma_gather_prefix(n: u32, shares: Seq<wsts::net::DkgPublicShares>, k: int)
    requires
        n > 0,
        shares.len() == n,
        0 <= k < n,
        forall|i: int| 0 <= i < n ==> #[trigger] spec_dkg_public_shares_ids(shares[i]) == (1u64, i as u32),
    ensures
        spec_gather_public_shares(n, shares.take(k)) == Some(
            (
                true,
                Set::new(|id: u32| k <= id < n),
                Map::new(|id: u32| id < k, |id: u32| shares[id as int]),
            ),
        ),
    decreases k,
{
    if k == 0 {
        assert(shares.take(0) =~= Seq::<wsts::net::DkgPublicShares>::empty());
        assert(Set::new(|id: u32| 0 <= id < n) =~= spec_all_signer_ids(n));
        assert(Map::new(|id: u32| id < 0, |id: u32| shares[id as int]) =~= Map::<
            u32,
            wsts::net::DkgPublicShares,
        >::empty());
    } else {
        lemma_gather_prefix(n, shares, k - 1);
        let prefix = shares.take(k);
        assert(prefix.drop_last() =~= shares.take(k - 1));
        assert(prefix.last() == shares[k - 1]);
        assert(spec_dkg_public_shares_ids(shares[k - 1]) == (1u64, (k - 1) as u32));
        let waiting = Set::new(|id: u32| k - 1 <= id < n).remove((k - 1) as u32);
        assert(waiting =~= Set::new(|id: u32| k <= id < n));
        assert(waiting.contains((n - 1) as u32));
        let kept = Map::new(|id: u32| id < k - 1, |id: u32| shares[id as int]).insert(
            (k - 1) as u32,
            shares[k - 1],
        );
        assert(kept =~= Map::new(|id: u32| id < k, |id: u32| shares[id as int]));
    }
}

/// Creates a coordinator state machine for a completed DKG round: a new
/// coordinator for the signer set is moved into DKG round 1 by a `DkgBegin`,
/// given the public DKG shares of the signers in the order given (for shares
/// read from storage, the order of their signer ids), handed the aggregate
/// key, and moved to the idle state. A coordinator that does not answer the
/// `DkgBegin` with a packet (it thinks that DKG round is already done) gives
/// `BadStateChange`, and a share of another DKG round, arriving while the
/// coordinator still gathers public shares, is refused; every failure is an
/// error of the WSTS coordinator. It succeeds exactly when no share is
/// refused (in particular when there are no shares), and then the
/// coordinator holds the configuration of [`CoordinatorStateMachine::new`],
/// the shares that [`spec_gather_public_shares`] keeps, the aggregate key,
/// and is idle in DKG round 1.
pub fn coordinator_from_dkg_shares(
    signers: Vec<PublicKey>,
    threshold: u32,
    message_private_key: PrivateKey,
    aggregate_key: p256k1::point::Point,
    public_shares: Vec<(u32, wsts::net::DkgPublicShares)>,
) -> (r: Result<CoordinatorStateMachine, SignerError>)
    requires
        0 < signers.len() <= u32::MAX,
    ensures
        r is Ok <==> spec_gather_public_shares(
            signers.len() as u32,
            spec_share_messages(public_shares@),
        ) is Some,
        r matches Ok(coordinator) ==> {
            &&& spec_coordinator_config(coordinator) == spec_coordinator_config_for(
                signers@,
                threshold,
                message_private_key.spec_bytes(),
            )
            &&& spec_coordinator_public_shares(coordinator) == spec_gather_public_shares(
                signers.len() as u32,
                spec_share_messages(public_shares@),
            ).unwrap().2
            &&& spec_coordinator_aggregate_key(coordinator) == Some(aggregate_key)
            &&& spec_coordinator_phase(coordinator) is Idle
            &&& spec_coordinator_dkg_id(coordinator) == 1
        },
        r matches Err(err) ==> err is WstsCoordinator,
{
    let ghost signers_view = signers@;
    let ghost n = signers_view.len() as u32;
    let ghost shares_view = public_shares@;
    let ghost all = spec_share_messages(public_shares@);
    let key_bytes = message_private_key.to_bytes();
    let ghost expected = spec_coordinator_config_for(signers@, threshold, message_private_key.spec_bytes());
    let mut coordinator = CoordinatorStateMachine::new(signers, threshold, message_private_key);
    assert(spec_coordinator_can_sign(coordinator)) by {
        assert(spec_private_key_is_valid(key_bytes@));
        assert(spec_scalar_from_bytes(key_bytes@) == spec_coordinator_config(coordinator).4);
    }
    match coordinator_process_message(&mut coordinator, DkgInput::DkgBegin(1)) {
        Ok((Some(_), _)) => {},
        Ok((None, _)) => {
            let err = bad_state_change("Bad DKG id given".to_string());
            return Err(coordinator_error(err));
        },
        Err(err) => return Err(coordinator_error(err)),
    }
    proof {
        assert(all.take(0) =~= Seq::<wsts::net::DkgPublicShares>::empty());
    }
    let mut shares = public_shares;
    let ghost total = all.len();
    while shares.len() > 0
        invariant
            n == signers_view.len() as u32,
            all == spec_share_messages(shares_view),
            signers_view == signers@,
            shares_view == public_shares@,
            total == all.len(),
            shares.len() <= total,
            spec_share_messages(shares@) == all.subrange(
                total - shares.len(),
                total as int,
            ),
            spec_coordinator_config(coordinator) == expected,
            expected.0 == n,
            spec_coordinator_loadable(coordinator),
            spec_coordinator_aggregate_key(coordinator) is None,
            spec_coordinator_dkg_id(coordinator) == 1,
            spec_gather_public_shares(n, all.take(total - shares.len())) matches Some(
                (gathering, awaited, kept),
            ) && {
                &&& spec_coordinator_phase(coordinator) == (if gathering {
                    CoordinatorPhase::DkgPublicGather
                } else {
                    CoordinatorPhase::DkgPrivateGather
                })
                &&& spec_coordinator_awaited(coordinator) == awaited
                &&& spec_coordinator_public_shares(coordinator) == kept
            },
        decreases shares.len(),
    {
        let ghost done = total - shares.len();
        let ghost old_pairs = shares@;
        let ghost before = spec_share_messages(shares@);
        let (_, message) = shares.remove(0);
        proof {
            assert(before[0] == message);
            assert(before[0] == all.subrange(done, total as int)[0]);
            assert(all[done] == message);
            assert(all.take(done + 1).drop_last() =~= all.take(done));
            assert(all.take(done + 1).last() == message);
            assert(shares@ == old_pairs.remove(0));
            assert forall|j: int| 0 <= j < shares@.len() implies #[trigger] spec_share_messages(shares@)[j] == all.subrange(total - shares.len(), total as int)[j] by {
                assert(shares@[j] == old_pairs[j + 1]);
                assert(before[j + 1] == all.subrange(done, total as int)[j + 1]);
            }
            assert(spec_share_messages(shares@) =~= all.subrange(
                total - shares.len(),
                total as int,
            ));
        }
        let ghost prior = coordinator;
        match coordinator_process_message(&mut coordinator, DkgInput::DkgPublicShares(message)) {
            Ok(_) => {},
            Err(err) => {
                proof {
                    let (gathering, awaited, kept) = spec_gather_public_shares(n, all.take(done)).unwrap();
                    assert(gathering);
                    assert(spec_dkg_public_shares_ids(message).0 != 1);
                    assert(spec_gather_public_shares(n, all.take(done + 1)) is None);
                    lemma_gather_refused_stays_refused(n, all, done + 1);
                    assert(spec_gather_public_shares(n, all) is None);
                    assert(n == signers_view.len() as u32);
                    assert(all == spec_share_messages(shares_view));
                }
                return Err(coordinator_error(err));
            },
        }
    }
    proof {
        assert(all.take(total as int) =~= all);
    }
    coordinator_set_aggregate_public_key(&mut coordinator, Some(aggregate_key));
    match coordinator_move_to_idle(&mut coordinator) {
        Ok(()) => {},
        Err(err) => return Err(coordinator_error(err)),
    }
    Ok(coordinator)
}

/// Converts an error of the WSTS coordinator into a signer error.
pub fn coordinator_error(err: wsts::state_machine::coordinator::Error) -> (r: SignerError)
    ensures
        r == SignerError::WstsCoordinator(Box::new(err)),
{
    SignerError::WstsCoordinator(Box::new(err))
}

} // verus!
