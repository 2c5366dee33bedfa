//! The threshold signature scheme that ROAST wraps.
//!
//! The coordinator and the signer are generic over a [`ThresholdScheme`], which
//! gives them fresh nonces, signature shares, the check of one share and the
//! combination of a session's shares. Each operation but nonce generation is a
//! function of its arguments, named here by a specification function of the
//! scheme.
use vstd::prelude::*;
use rand::RngCore;
use schnorr_fun::binonce::{Nonce, NonceKeyPair};
use schnorr_fun::{Message, Signature};
use secp256kfun::marker::{Public, Zero};
use secp256kfun::Scalar;
use crate::foreign::nonce_public;

verus! {

/// No signer index occurs twice in `nonces`.
pub open spec fn distinct_indices(nonces: Seq<(usize, Nonce)>) -> bool {
    forall|i: int, j: int| 0 <= i < j < nonces.len() ==> nonces[i].0 != nonces[j].0
}

/// `nonces` holds a nonce of signer `index`.
pub open spec fn holds_index(nonces: Seq<(usize, Nonce)>, index: usize) -> bool {
    exists|i: int| 0 <= i < nonces.len() && nonces[i].0 == index
}

/// The signer indices of `nonces` ascend strictly.
pub open spec fn ascending(nonces: Seq<(usize, Nonce)>) -> bool {
    forall|i: int, j: int| 0 <= i < j < nonces.len() ==> nonces[i].0 < nonces[j].0
}

/// `nonces` is a nonce set of a `threshold`-of-`n_signers` session: one nonce
/// of each of `threshold` signers, by ascending index.
pub open spec fn is_nonce_set(
    nonces: Seq<(usize, Nonce)>,
    threshold: usize,
    n_signers: usize,
) -> bool {
    &&& nonces.len() == threshold
    &&& ascending(nonces)
    &&& forall|i: int| 0 <= i < nonces.len() ==> nonces[i].0 < n_signers
}

/// `joint_key` serves sessions of `threshold` out of `n_signers` signers: the
/// scheme accepts every nonce set of such a session.
pub open spec fn key_fits<S: ThresholdScheme<K>, K>(
    scheme: &S,
    joint_key: &K,
    threshold: usize,
    n_signers: usize,
) -> bool {
    forall|nonces: Seq<(usize, Nonce)>| #[trigger]
        is_nonce_set(nonces, threshold, n_signers) ==> scheme.accepts(joint_key, nonces)
}

/// A threshold signature scheme to be used with ROAST.
///
/// The four specification functions say what the scheme computes; the
/// contracts of the methods tie an implementation to them. What is proved of the
/// coordinator and the signer holds for every scheme whose methods keep these
/// contracts, and that is for the scheme's author to see to: the methods of
/// [`crate::frost::FrostScheme`], the one scheme of this library, are proved to
/// keep them, given what `schnorr_fun` computes.
pub trait ThresholdScheme<K> {
    /// The nonce sets on which the scheme works under `joint_key`.
    spec fn accepts(&self, joint_key: &K, nonces: Seq<(usize, Nonce)>) -> bool;

    /// The signature share of signer `my_index` in the session of `nonces`.
    spec fn share_of(
        &self,
        joint_key: &K,
        nonces: Seq<(usize, Nonce)>,
        my_index: usize,
        secret_share: Scalar,
        secret_nonce: NonceKeyPair,
        message: Message<Public>,
    ) -> Scalar<Public, Zero>;

    /// Whether `signature_share` is the share that signer `index` owes to the
    /// session of `nonces`.
    spec fn share_valid(
        &self,
        joint_key: &K,
        nonces: Seq<(usize, Nonce)>,
        index: usize,
        signature_share: Scalar<Public, Zero>,
        message: Message<Public>,
    ) -> bool;

    /// The signature that the shares of the session of `nonces` add up to.
    spec fn combined(
        &self,
        joint_key: &K,
        nonces: Seq<(usize, Nonce)>,
        signature_shares: Seq<Scalar<Public, Zero>>,
        message: Message<Public>,
    ) -> Signature;

    /// Tells whether the scheme works on `nonces` under `joint_key`.
    fn accepts_nonces(&self, joint_key: &K, nonces: &Vec<(usize, Nonce)>) -> (ok: bool)
        ensures
            ok == self.accepts(joint_key, nonces@),
    ;

    /// The scheme must implement a way for signers to generate nonces.
    fn gen_nonce<R: RngCore>(&self, nonce_rng: &mut R) -> NonceKeyPair;

    /// The scheme must implement a way for signers to sign signature shares.
    /// The secret nonce is the signer's own one of the nonce set, and is used up.
    fn sign(
        &self,
        joint_key: &K,
        nonces: Vec<(usize, Nonce)>,
        my_index: usize,
        secret_share: &Scalar,
        secret_nonce: NonceKeyPair,
        message: Message<Public>,
    ) -> (share: Scalar<Public, Zero>)
        requires
            self.accepts(joint_key, nonces@),
            nonces@.contains((my_index, nonce_public(secret_nonce))),
        ensures
            share == self.share_of(
                joint_key,
                nonces@,
                my_index,
                *secret_share,
                secret_nonce,
                message,
            ),
    ;

    /// The scheme must implement identifiable aborts: a share that fails this
    /// check convicts the signer who sent it.
    fn verify_signature_share(
        &self,
        joint_key: &K,
        nonces: Vec<(usize, Nonce)>,
        index: usize,
        signature_share: Scalar<Public, Zero>,
        message: Message<Public>,
    ) -> (ok: bool)
        requires
            self.accepts(joint_key, nonces@),
            holds_index(nonces@, index),
        ensures
            ok == self.share_valid(joint_key, nonces@, index, signature_share, message),
    ;

    /// The scheme must implement some way for the coordinator to combine
    /// signature shares.
    fn combine_signature_shares(
        &self,
        joint_key: &K,
        nonces: Vec<(usize, Nonce)>,
        signature_shares: Vec<Scalar<Public, Zero>>,
        message: Message<Public>,
    ) -> (signature: Signature)
        requires
            self.accepts(joint_key, nonces@),
        ensures
            signature == self.combined(joint_key, nonces@, signature_shares@, message),
    ;
}

} // verus!
