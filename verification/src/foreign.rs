//! The values of `schnorr_fun` and `secp256kfun` that the library carries.
//!
//! Nonces, scalars, messages and signatures are opaque here: the library stores
//! them, hands them on and compares nonces, and never looks inside one.
use vstd::prelude::*;
use rand::RngCore;
use schnorr_fun::binonce::{Nonce, NonceKeyPair};
use schnorr_fun::frost::SignSession;
use schnorr_fun::{Message, Signature};
use secp256kfun::marker::{NonZero, Public, Secret, Zero};
use secp256kfun::Scalar;

verus! {

/// `schnorr_fun::binonce::Nonce`: the public half of a signer's nonce.
#[verifier::external_type_specification]
#[verifier::external_body]
#[verifier::reject_recursive_types(Z)]
pub struct ExNonce<Z>(Nonce<Z>);

/// `schnorr_fun::binonce::NonceKeyPair`: a nonce with its secret half.
#[verifier::external_type_specification]
#[verifier::external_body]
pub struct ExNonceKeyPair(NonceKeyPair);

/// `schnorr_fun::Message`: the message that is signed.
#[verifier::external_type_specification]
#[verifier::external_body]
#[verifier::reject_recursive_types(S)]
pub struct ExMessage<'a, S>(Message<'a, S>);

/// `secp256kfun::Scalar`: secret shares and signature shares.
#[verifier::external_type_specification]
#[verifier::external_body]
#[verifier::reject_recursive_types(S)]
#[verifier::reject_recursive_types(Z)]
pub struct ExScalar<S, Z>(Scalar<S, Z>);

/// `schnorr_fun::Signature`: the aggregate signature.
#[verifier::external_type_specification]
#[verifier::external_body]
#[verifier::reject_recursive_types(S)]
pub struct ExSignature<S>(Signature<S>);

/// `schnorr_fun::frost::SignSession`: what FROST derives from a nonce set and a message.
#[verifier::external_type_specification]
#[verifier::external_body]
pub struct ExSignSession(SignSession);

/// `secp256kfun::marker::Public`.
#[verifier::external_type_specification]
#[verifier::external_body]
pub struct ExPublic(Public);

/// `secp256kfun::marker::Secret`.
#[verifier::external_type_specification]
#[verifier::external_body]
pub struct ExSecret(Secret);

/// `secp256kfun::marker::Zero`.
#[verifier::external_type_specification]
#[verifier::external_body]
pub struct ExZero(Zero);

/// `secp256kfun::marker::NonZero`.
#[verifier::external_type_specification]
#[verifier::external_body]
pub struct ExNonZero(NonZero);

/// The public half of a nonce key pair, as `NonceKeyPair::public` returns it.
pub uninterp spec fn nonce_public(pair: NonceKeyPair) -> Nonce;

/// `NonceKeyPair::public`: reads the public half, which depends on the pair alone.
#[verifier::external_body]
pub(crate) fn public_nonce(pair: &NonceKeyPair) -> (nonce: Nonce)
    ensures
        nonce == nonce_public(*pair),
{
    pair.public()
}

/// `NonceKeyPair::random`: draws two secret scalars from `rng` and derives the
/// public half. Nothing is claimed of the outcome. It panics only where `rng`
/// does, or on a scalar that is zero, which no generator is expected to hit.
#[verifier::external_body]
pub(crate) fn random_nonce_pair<R: RngCore>(rng: &mut R) -> (pair: NonceKeyPair) {
    NonceKeyPair::random(rng)
}

/// `==` on `Nonce`, which compares the two points of each nonce: true exactly
/// for equal nonces.
#[verifier::external_body]
pub(crate) fn same_nonce(a: &Nonce, b: &Nonce) -> (same: bool)
    ensures
        same == (*a == *b),
{
    a == b
}

/// The derived `Clone` of `NonceKeyPair` copies both halves.
pub assume_specification[ <NonceKeyPair as Clone>::clone ](pair: &NonceKeyPair) -> (copy:
    NonceKeyPair)
    ensures
        copy == *pair,
;

} // verus!
