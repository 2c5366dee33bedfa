//! FROST, as `schnorr_fun` implements it, as the threshold scheme of ROAST.
//!
//! Signer `i` of ROAST is FROST's party `i + 1`: FROST numbers its parties by
//! non-zero scalars, and its simulated key generation counts them from one.
use vstd::prelude::*;
use core::num::NonZeroU32;
use rand::RngCore;
use schnorr_fun::binonce::{Nonce, NonceKeyPair};
use schnorr_fun::frost::{Frost, FrostKey, SignSession};
use schnorr_fun::nonce::Deterministic;
use schnorr_fun::{Message, Signature};
use secp256kfun::marker::{EvenY, Public, Zero};
use secp256kfun::Scalar;
use sha2::Sha256;
use crate::coordinator::Coordinator;
use crate::foreign::{nonce_public, random_nonce_pair};
use crate::model::initial;
use crate::threshold_scheme::{distinct_indices, is_nonce_set, key_fits, ThresholdScheme};

verus! {

/// A FROST context over SHA-256. Its hash type has bounds that the verifier
/// cannot read, so the context is kept opaque.
#[verifier::external_body]
pub struct FrostScheme {
    pub frost: Frost<Sha256, Deterministic<Sha256>>,
}

/// A joint FROST key with an even y-coordinate, as signing needs it. The key's
/// type is bounded by a trait that the verifier cannot read, so the key is kept
/// opaque.
#[verifier::external_body]
pub struct XOnlyFrostKey {
    pub key: FrostKey<EvenY>,
}

/// The number of shares that `key` asks for, as `FrostKey::threshold` returns it.
pub uninterp spec fn frost_threshold(key: XOnlyFrostKey) -> usize;

/// The session that `Frost::start_sign_session` derives from the parties'
/// nonces and the message.
pub uninterp spec fn frost_session(
    scheme: FrostScheme,
    key: XOnlyFrostKey,
    parties: Seq<(u32, Nonce)>,
    message: Message<Public>,
) -> SignSession;

/// The share that `Frost::sign` computes for `party` in `session`.
pub uninterp spec fn frost_share(
    scheme: FrostScheme,
    key: XOnlyFrostKey,
    session: SignSession,
    party: u32,
    secret_share: Scalar,
    secret_nonce: NonceKeyPair,
) -> Scalar<Public, Zero>;

/// What `Frost::verify_signature_share` says of `party`'s share in `session`.
pub uninterp spec fn frost_share_valid(
    scheme: FrostScheme,
    key: XOnlyFrostKey,
    session: SignSession,
    party: u32,
    signature_share: Scalar<Public, Zero>,
) -> bool;

/// The signature that `Frost::combine_signature_shares` makes of the shares of
/// `session`.
pub uninterp spec fn frost_signature(
    scheme: FrostScheme,
    key: XOnlyFrostKey,
    session: SignSession,
    signature_shares: Seq<Scalar<Public, Zero>>,
) -> Signature;

/// The FROST party that stands for signer `index`.
pub open spec fn party_of(index: usize) -> u32 {
    (index + 1) as u32
}

/// The nonce set with each signer index replaced by its party.
pub open spec fn party_nonces(nonces: Seq<(usize, Nonce)>) -> Seq<(u32, Nonce)> {
    Seq::new(nonces.len(), |i: int| (party_of(nonces[i].0), nonces[i].1))
}

/// No party occurs twice in `parties`, and none is zero.
pub open spec fn proper_parties(parties: Seq<(u32, Nonce)>) -> bool {
    &&& forall|i: int| 0 <= i < parties.len() ==> (#[trigger] parties[i]).0 != 0
    &&& forall|i: int, j: int|
        0 <= i < j < parties.len() ==> (#[trigger] parties[i]).0 != (#[trigger] parties[j]).0
}

/// `session` was started on a proper list of parties in which `party` brought
/// `nonce`.
pub open spec fn session_binds(
    scheme: FrostScheme,
    key: XOnlyFrostKey,
    session: SignSession,
    party: u32,
    nonce: Nonce,
) -> bool {
    exists|parties: Seq<(u32, Nonce)>, message: Message<Public>|
        session == #[trigger] frost_session(scheme, key, parties, message) && proper_parties(
            parties,
        ) && parties.contains((party, nonce))
}

/// `session` was started on a proper list of parties with `party` among them.
pub open spec fn session_has(
    scheme: FrostScheme,
    key: XOnlyFrostKey,
    session: SignSession,
    party: u32,
) -> bool {
    exists|nonce: Nonce| session_binds(scheme, key, session, party, nonce)
}

/// `FrostKey::threshold`: reads the key's threshold.
#[verifier::external_body]
fn key_threshold(key: &XOnlyFrostKey) -> (threshold: usize)
    ensures
        threshold == frost_threshold(*key),
{
    key.key.threshold()
}

/// `Frost::start_sign_session`, which panics on fewer nonces than the key's
/// threshold. It keeps the nonces in a map by party, so the list may not name a
/// party twice, and computes the session from the key, that map and the message.
#[verifier::external_body]
fn start_session(
    scheme: &FrostScheme,
    key: &XOnlyFrostKey,
    parties: Vec<(u32, Nonce)>,
    message: Message<Public>,
) -> (session: SignSession)
    requires
        frost_threshold(*key) <= parties@.len(),
        proper_parties(parties@),
    ensures
        session == frost_session(*scheme, *key, parties@, message),
{
    let nonces = parties.into_iter().map(
        |(party, nonce)|
            (Scalar::from_non_zero_u32(NonZeroU32::new(party).unwrap()).public(), nonce),
    ).collect();
    scheme.frost.start_sign_session(&key.key, nonces, message)
}

/// `Frost::sign`, which panics unless the session holds the public half of
/// `secret_nonce` for `party`. The share is computed from the key, the session,
/// the party, the secret share and the secret nonce.
#[verifier::external_body]
fn sign_in_session(
    scheme: &FrostScheme,
    key: &XOnlyFrostKey,
    session: &SignSession,
    party: u32,
    secret_share: &Scalar,
    secret_nonce: NonceKeyPair,
) -> (share: Scalar<Public, Zero>)
    requires
        party != 0,
        session_binds(*scheme, *key, *session, party, nonce_public(secret_nonce)),
    ensures
        share == frost_share(*scheme, *key, *session, party, *secret_share, secret_nonce),
{
    let party = Scalar::from_non_zero_u32(NonZeroU32::new(party).unwrap()).public();
    scheme.frost.sign(&key.key, session, party, secret_share, secret_nonce)
}

/// `Frost::verify_signature_share`, which panics for a party that the session
/// does not hold, and answers false for one that the key does not know. The
/// answer depends on the key, the session, the party and the share.
#[verifier::external_body]
fn verify_in_session(
    scheme: &FrostScheme,
    key: &XOnlyFrostKey,
    session: &SignSession,
    party: u32,
    signature_share: Scalar<Public, Zero>,
) -> (ok: bool)
    requires
        party != 0,
        session_has(*scheme, *key, *session, party),
    ensures
        ok == frost_share_valid(*scheme, *key, *session, party, signature_share),
{
    let party = Scalar::from_non_zero_u32(NonZeroU32::new(party).unwrap()).public();
    scheme.frost.verify_signature_share(&key.key, session, party, signature_share)
}

/// `Frost::combine_signature_shares`: adds the shares up and completes the
/// signature from the session and the key. It checks nothing and does not panic.
#[verifier::external_body]
fn combine_in_session(
    scheme: &FrostScheme,
    key: &XOnlyFrostKey,
    session: &SignSession,
    signature_shares: Vec<Scalar<Public, Zero>>,
) -> (signature: Signature)
    ensures
        signature == frost_signature(*scheme, *key, *session, signature_shares@),
{
    scheme.frost.combine_signature_shares(&key.key, session, signature_shares)
}

/// Every index of `nonces` is one that a party number can stand for.
pub open spec fn indices_fit(nonces: Seq<(usize, Nonce)>) -> bool {
    forall|i: int| 0 <= i < nonces.len() ==> (#[trigger] nonces[i]).0 < u32::MAX
}

/// Distinct indices that fit give a proper list of parties.
pub proof fn lemma_parties_proper(nonces: Seq<(usize, Nonce)>)
    requires
        distinct_indices(nonces),
        indices_fit(nonces),
    ensures
        proper_parties(party_nonces(nonces)),
        party_nonces(nonces).len() == nonces.len(),
{
    let parties = party_nonces(nonces);
    assert forall|i: int| 0 <= i < parties.len() implies (#[trigger] parties[i]).0 != 0 by {
        assert(nonces[i].0 < u32::MAX);
    }
    assert forall|i: int, j: int| 0 <= i < j < parties.len() implies (#[trigger] parties[i]).0 != (
    #[trigger] parties[j]).0 by {
        assert(nonces[i].0 < u32::MAX);
        assert(nonces[j].0 < u32::MAX);
        assert(nonces[i].0 != nonces[j].0);
    }
}

/// The nonce set with each signer index turned into its party.
fn to_parties(nonces: &Vec<(usize, Nonce)>) -> (parties: Vec<(u32, Nonce)>)
    requires
        indices_fit(nonces@),
    ensures
        parties@ == party_nonces(nonces@),
{
    let mut parties: Vec<(u32, Nonce)> = Vec::new();
    let mut i: usize = 0;
    while i < nonces.len()
        invariant
            i <= nonces.len(),
            indices_fit(nonces@),
            parties@.len() == i,
            forall|k: int| 0 <= k < i ==> parties@[k] == (party_of(nonces@[k].0), nonces@[k].1),
        decreases nonces.len() - i,
    {
        let (index, nonce) = nonces[i];
        assert(nonces@[i as int].0 < u32::MAX);
        parties.push(((index + 1) as u32, nonce));
        i += 1;
    }
    assert(parties@ =~= party_nonces(nonces@));
    parties
}

/// Whether the indices of `nonces` are distinct and fit.
fn indices_usable(nonces: &Vec<(usize, Nonce)>) -> (ok: bool)
    ensures
        ok == (distinct_indices(nonces@) && indices_fit(nonces@)),
{
    let mut i: usize = 0;
    while i < nonces.len()
        invariant
            i <= nonces.len(),
            forall|k: int| 0 <= k < i ==> (#[trigger] nonces@[k]).0 < u32::MAX,
            forall|k: int, l: int|
                0 <= k < l < nonces.len() && k < i ==> nonces@[k].0 != nonces@[l].0,
        decreases nonces.len() - i,
    {
        if nonces[i].0 >= 0xffff_ffff {
            assert(!indices_fit(nonces@)) by {
                assert(nonces@[i as int].0 >= u32::MAX);
            }
            return false;
        }
        let mut j: usize = i + 1;
        while j < nonces.len()
            invariant
                i < j <= nonces.len(),
                forall|l: int| i < l < j ==> nonces@[i as int].0 != nonces@[l].0,
            decreases nonces.len() - j,
        {
            if nonces[i].0 == nonces[j].0 {
                return false;
            }
            j += 1;
        }
        i += 1;
    }
    true
}

impl ThresholdScheme<XOnlyFrostKey> for FrostScheme {
    /// FROST works on distinct signers, at least as many as the key's
    /// threshold, whose indices fit a party number.
    open spec fn accepts(&self, joint_key: &XOnlyFrostKey, nonces: Seq<(usize, Nonce)>) -> bool {
        &&& frost_threshold(*joint_key) <= nonces.len()
        &&& distinct_indices(nonces)
        &&& indices_fit(nonces)
    }

    open spec fn share_of(
        &self,
        joint_key: &XOnlyFrostKey,
        nonces: Seq<(usize, Nonce)>,
        my_index: usize,
        secret_share: Scalar,
        secret_nonce: NonceKeyPair,
        message: Message<Public>,
    ) -> Scalar<Public, Zero> {
        frost_share(
            *self,
            *joint_key,
            frost_session(*self, *joint_key, party_nonces(nonces), message),
            party_of(my_index),
            secret_share,
            secret_nonce,
        )
    }

    open spec fn share_valid(
        &self,
        joint_key: &XOnlyFrostKey,
        nonces: Seq<(usize, Nonce)>,
        index: usize,
        signature_share: Scalar<Public, Zero>,
        message: Message<Public>,
    ) -> bool {
        frost_share_valid(
            *self,
            *joint_key,
            frost_session(*self, *joint_key, party_nonces(nonces), message),
            party_of(index),
            signature_share,
        )
    }

    open spec fn combined(
        &self,
        joint_key: &XOnlyFrostKey,
        nonces: Seq<(usize, Nonce)>,
        signature_shares: Seq<Scalar<Public, Zero>>,
        message: Message<Public>,
    ) -> Signature {
        frost_signature(
            *self,
            *joint_key,
            frost_session(*self, *joint_key, party_nonces(nonces), message),
            signature_shares,
        )
    }

    fn accepts_nonces(&self, joint_key: &XOnlyFrostKey, nonces: &Vec<(usize, Nonce)>) -> (ok:
        bool) {
        key_threshold(joint_key) <= nonces.len() && indices_usable(nonces)
    }

    /// A pair drawn from `nonce_rng`. Which pair comes out is up to the
    /// generator, so nothing is promised of it.
    fn gen_nonce<R: RngCore>(&self, nonce_rng: &mut R) -> NonceKeyPair {
        random_nonce_pair(nonce_rng)
    }

    fn sign(
        &self,
        joint_key: &XOnlyFrostKey,
        nonces: Vec<(usize, Nonce)>,
        my_index: usize,
        secret_share: &Scalar,
        secret_nonce: NonceKeyPair,
        message: Message<Public>,
    ) -> (share: Scalar<Public, Zero>) {
        let parties = to_parties(&nonces);
        proof {
            lemma_parties_proper(nonces@);
            let i = choose|i: int|
                0 <= i < nonces@.len() && nonces@[i] == (my_index, nonce_public(secret_nonce));
            assert(parties@[i] == (party_of(my_index), nonce_public(secret_nonce)));
            assert(nonces@[i].0 < u32::MAX);
        }
        let session = start_session(self, joint_key, parties, message);
        sign_in_session(
            self,
            joint_key,
            &session,
            (my_index + 1) as u32,
            secret_share,
            secret_nonce,
        )
    }

    fn verify_signature_share(
        &self,
        joint_key: &XOnlyFrostKey,
        nonces: Vec<(usize, Nonce)>,
        index: usize,
        signature_share: Scalar<Public, Zero>,
        message: Message<Public>,
    ) -> (ok: bool) {
        let parties = to_parties(&nonces);
        let ghost at = choose|i: int| 0 <= i < nonces@.len() && nonces@[i].0 == index;
        proof {
            lemma_parties_proper(nonces@);
            assert(parties@[at] == (party_of(index), nonces@[at].1));
            assert(nonces@[at].0 < u32::MAX);
        }
        let session = start_session(self, joint_key, parties, message);
        assert(session_binds(*self, *joint_key, session, party_of(index), nonces@[at].1));
        verify_in_session(self, joint_key, &session, (index + 1) as u32, signature_share)
    }

    fn combine_signature_shares(
        &self,
        joint_key: &XOnlyFrostKey,
        nonces: Vec<(usize, Nonce)>,
        signature_shares: Vec<Scalar<Public, Zero>>,
        message: Message<Public>,
    ) -> (signature: Signature) {
        let parties = to_parties(&nonces);
        proof {
            lemma_parties_proper(nonces@);
        }
        let session = start_session(self, joint_key, parties, message);
        combine_in_session(self, joint_key, &session, signature_shares)
    }
}

/// A key whose threshold is at most `threshold` serves every session of
/// `threshold` signers with indices below `n_signers`, if those fit a party
/// number.
pub proof fn lemma_frost_key_fits(
    scheme: FrostScheme,
    joint_key: XOnlyFrostKey,
    threshold: usize,
    n_signers: usize,
)
    requires
        frost_threshold(joint_key) <= threshold,
        n_signers <= u32::MAX,
    ensures
        key_fits(&scheme, &joint_key, threshold, n_signers),
{
    assert forall|nonces: Seq<(usize, Nonce)>| #[trigger]
        is_nonce_set(nonces, threshold, n_signers) implies scheme.accepts(&joint_key, nonces) by {
    }
}

/// A coordinator over FROST for `threshold` of `n_signers` signers, where the
/// key serves such sessions: where `threshold` is at least one, at most
/// `n_signers` and at least the key's own threshold, and every signer's index
/// fits a party number. There is none otherwise.
pub fn frost_coordinator<'a>(
    scheme: FrostScheme,
    joint_key: XOnlyFrostKey,
    message: Message<'a, Public>,
    threshold: usize,
    n_signers: usize,
) -> (made: Option<Coordinator<'a, FrostScheme, XOnlyFrostKey>>)
    ensures
        made is Some <==> 1 <= threshold <= n_signers <= u32::MAX && frost_threshold(joint_key)
            <= threshold,
        made matches Some(coordinator) ==> {
            &&& coordinator.wf()
            &&& coordinator@ == initial()
            &&& *coordinator.scheme() == scheme
            &&& *coordinator.key() == joint_key
            &&& coordinator.spec_message() == message
            &&& coordinator.spec_threshold() == threshold
            &&& coordinator.spec_n_signers() == n_signers
        },
{
    if 1 <= threshold && threshold <= n_signers && n_signers <= 0xffff_ffff && key_threshold(
        &joint_key,
    ) <= threshold {
        proof {
            lemma_frost_key_fits(scheme, joint_key, threshold, n_signers);
        }
        Some(Coordinator::new(scheme, joint_key, message, threshold, n_signers))
    } else {
        None
    }
}

} // verus!
