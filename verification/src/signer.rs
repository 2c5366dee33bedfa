//! The ROAST signer.
//!
//! A signer holds a secret share of the joint key and a pool of nonces that it
//! has not used. It sends the public half of a nonce to the coordinator, signs
//! with the secret half when the coordinator sends the nonce set of a session,
//! and makes a new nonce for the session after that. A nonce that was signed
//! with is gone from the pool.
use vstd::prelude::*;
use rand::RngCore;
use schnorr_fun::binonce::{Nonce, NonceKeyPair};
use schnorr_fun::Message;
use secp256kfun::marker::{Public, Zero};
use secp256kfun::Scalar;
use crate::foreign::{nonce_public, public_nonce, same_nonce};
use crate::threshold_scheme::ThresholdScheme;

verus! {

/// A signer of one message under a joint key.
pub struct RoastSigner<'a, S, K> {
    threshold_scheme: S,
    joint_key: K,
    my_index: usize,
    secret_share: Scalar,
    message: Message<'a, Public>,
    my_nonces: Vec<NonceKeyPair>,
}

impl<'a, S: ThresholdScheme<K>, K> RoastSigner<'a, S, K> {
    /// The threshold scheme.
    pub closed spec fn scheme(&self) -> &S {
        &self.threshold_scheme
    }

    /// The joint key.
    pub closed spec fn key(&self) -> &K {
        &self.joint_key
    }

    /// The signer's index.
    pub closed spec fn index(&self) -> usize {
        self.my_index
    }

    /// The signer's secret share of the joint key.
    pub closed spec fn secret(&self) -> Scalar {
        self.secret_share
    }

    /// The message that is signed.
    pub closed spec fn message(&self) -> Message<'a, Public> {
        self.message
    }

    /// The nonces that the signer has made and not used, the latest last.
    pub closed spec fn pool(&self) -> Seq<NonceKeyPair> {
        self.my_nonces@
    }

    /// The signer is the same but for its pool of nonces.
    pub open spec fn same_signer(&self, other: &Self) -> bool {
        &&& self.scheme() == other.scheme()
        &&& self.key() == other.key()
        &&& self.index() == other.index()
        &&& self.secret() == other.secret()
        &&& self.message() == other.message()
    }

    /// The signer can sign in the session of `nonce_set`: the scheme works on
    /// the nonce set, and the set holds, for this signer, the public half of the
    /// latest nonce in the pool.
    pub open spec fn can_sign(&self, nonce_set: Seq<(usize, Nonce)>) -> bool {
        &&& self.pool().len() > 0
        &&& self.scheme().accepts(self.key(), nonce_set)
        &&& nonce_set.contains((self.index(), nonce_public(self.pool().last())))
    }

    /// Create a new signer for a particular message, with one nonce in its
    /// pool. The public half of that nonce is returned, to be sent to the
    /// coordinator.
    pub fn new<R: RngCore>(
        nonce_rng: &mut R,
        threshold_scheme: S,
        joint_key: K,
        my_index: usize,
        secret_share: Scalar,
        message: Message<'a, Public>,
    ) -> (made: (Self, Nonce))
        ensures
            *made.0.scheme() == threshold_scheme,
            *made.0.key() == joint_key,
            made.0.index() == my_index,
            made.0.secret() == secret_share,
            made.0.message() == message,
            made.0.pool().len() == 1,
            made.1 == nonce_public(made.0.pool()[0]),
    {
        let initial_nonce = threshold_scheme.gen_nonce(nonce_rng);
        let public = public_nonce(&initial_nonce);
        let mut my_nonces: Vec<NonceKeyPair> = Vec::new();
        my_nonces.push(initial_nonce);
        (
            RoastSigner { threshold_scheme, joint_key, my_index, secret_share, message, my_nonces },
            public,
        )
    }

    /// Create a new nonce and put it in the pool.
    pub fn new_nonce<R: RngCore>(&mut self, nonce_rng: &mut R) -> (nonce: NonceKeyPair)
        ensures
            final(self).pool() == old(self).pool().push(nonce),
            final(self).same_signer(old(self)),
    {
        let nonce = self.threshold_scheme.gen_nonce(nonce_rng);
        self.my_nonces.push(nonce.clone());
        nonce
    }

    /// Sign the message in the session of `nonce_set`, with the latest nonce of
    /// the pool, which is used up. A new nonce takes its place, and its public
    /// half is returned with the share, for the next session.
    pub fn sign<R: RngCore>(
        &mut self,
        nonce_rng: &mut R,
        nonce_set: Vec<(usize, Nonce)>,
    ) -> (signed: (Scalar<Public, Zero>, Nonce))
        requires
            old(self).can_sign(nonce_set@),
        ensures
            signed.0 == old(self).scheme().share_of(
                old(self).key(),
                nonce_set@,
                old(self).index(),
                old(self).secret(),
                old(self).pool().last(),
                old(self).message(),
            ),
            final(self).pool().len() == old(self).pool().len(),
            final(self).pool().drop_last() == old(self).pool().drop_last(),
            signed.1 == nonce_public(final(self).pool().last()),
            final(self).same_signer(old(self)),
    {
        let my_nonce = self.my_nonces.pop().unwrap();
        let share = self.threshold_scheme.sign(
            &self.joint_key,
            nonce_set,
            self.my_index,
            &self.secret_share,
            my_nonce,
            self.message,
        );
        let nonce = self.new_nonce(nonce_rng);
        assert(self.pool().drop_last() =~= old(self).pool().drop_last());
        (share, public_nonce(&nonce))
    }

    /// Tells whether the signer can sign in the session of `nonce_set`.
    pub fn ready_for(&self, nonce_set: &Vec<(usize, Nonce)>) -> (ready: bool)
        ensures
            ready == self.can_sign(nonce_set@),
    {
        if self.my_nonces.len() == 0 {
            return false;
        }
        if !self.threshold_scheme.accepts_nonces(&self.joint_key, nonce_set) {
            return false;
        }
        let mine = public_nonce(&self.my_nonces[self.my_nonces.len() - 1]);
        let mut i: usize = 0;
        while i < nonce_set.len()
            invariant
                i <= nonce_set.len(),
                self.pool().len() > 0,
                self.scheme().accepts(self.key(), nonce_set@),
                mine == nonce_public(self.pool().last()),
                forall|k: int| 0 <= k < i ==> nonce_set@[k] != (self.my_index, mine),
            decreases nonce_set.len() - i,
        {
            if nonce_set[i].0 == self.my_index && same_nonce(&nonce_set[i].1, &mine) {
                assert(nonce_set@[i as int] == (self.my_index, mine));
                return true;
            }
            i += 1;
        }
        false
    }
}

/// Signs in the session of `nonce_set` if the signer can, as
/// [`RoastSigner::sign`] does. Otherwise the signer stays as it is and there is
/// no share.
pub fn sign<'a, S: ThresholdScheme<K>, K, R: RngCore>(
    signer: &mut RoastSigner<'a, S, K>,
    nonce_rng: &mut R,
    nonce_set: Vec<(usize, Nonce)>,
) -> (signed: Option<(Scalar<Public, Zero>, Nonce)>)
    ensures
        signed is Some <==> old(signer).can_sign(nonce_set@),
        signed is None ==> *final(signer) == *old(signer),
        signed matches Some(signed) ==> {
            &&& signed.0 == old(signer).scheme().share_of(
                old(signer).key(),
                nonce_set@,
                old(signer).index(),
                old(signer).secret(),
                old(signer).pool().last(),
                old(signer).message(),
            )
            &&& final(signer).pool().len() == old(signer).pool().len()
            &&& final(signer).pool().drop_last() == old(signer).pool().drop_last()
            &&& signed.1 == nonce_public(final(signer).pool().last())
        },
        final(signer).same_signer(old(signer)),
{
    if signer.ready_for(&nonce_set) {
        Some(signer.sign(nonce_rng, nonce_set))
    } else {
        None
    }
}

} // verus!
