//! What holds of the coordinator after every submission, stated over the
//! state machine of [`crate::model`].
//!
//! In each law `st` is a state that satisfies the invariant, which the state
//! before any submission does, and `index` is a signer.
use vstd::prelude::*;
use schnorr_fun::binonce::Nonce;
use secp256kfun::marker::{Public, Zero};
use secp256kfun::Scalar;
use crate::model::{
    action, course, floor_breached, initial, inv, joined, session_inv, session_of, share_due,
    step, terminal, Course, StateModel,
};
use crate::safety::{
    lemma_complete_session, lemma_floor, lemma_joined_structure, lemma_opened_inv,
    lemma_session_count, lemma_step_inv,
};

verus! {

/// The invariant holds before any submission.
pub proof fn law_initial(threshold: usize, n_signers: usize)
    requires
        1 <= threshold <= n_signers,
    ensures
        inv(initial(), threshold, n_signers),
        !floor_breached(initial(), threshold, n_signers),
{
}

/// No signer is responsive and malicious.
pub proof fn law_responsive_not_malicious(
    st: StateModel,
    threshold: usize,
    n_signers: usize,
    index: usize,
    signature_share: Option<Scalar<Public, Zero>>,
    nonce: Nonce,
    share_valid: bool,
)
    requires
        inv(st, threshold, n_signers),
        index < n_signers,
    ensures
        ({
            let after = step(st, threshold, n_signers, index, signature_share, nonce, share_valid);
            after.responsive.disjoint(after.malicious)
        }),
{
    lemma_step_inv(st, threshold, n_signers, index, signature_share, nonce, share_valid);
}

/// A signer that is bound to a session is one of its signers. If no signer
/// was bound to a complete session before the submission, then a session that
/// a signer is bound to after it is incomplete, or was completed by this very
/// submission.
pub proof fn law_bound_to_own_session(
    st: StateModel,
    threshold: usize,
    n_signers: usize,
    index: usize,
    signature_share: Option<Scalar<Public, Zero>>,
    nonce: Nonce,
    share_valid: bool,
)
    requires
        inv(st, threshold, n_signers),
        index < n_signers,
    ensures
        ({
            let after = step(st, threshold, n_signers, index, signature_share, nonce, share_valid);
            &&& forall|i: usize| #[trigger]
                after.bindings.contains_key(i) ==> after.sessions.contains_key(after.bindings[i])
                    && session_of(after, i).signers.contains(i)
            &&& (forall|i: usize| #[trigger]
                st.bindings.contains_key(i) ==> !terminal(session_of(st, i), threshold))
                ==> forall|i: usize| #[trigger]
                after.bindings.contains_key(i) && terminal(session_of(after, i), threshold) ==> {
                    &&& i == index
                    &&& st.sessions.contains_key(after.bindings[i])
                    &&& !terminal(st.sessions[after.bindings[i]], threshold)
                }
        }),
{
    let after = step(st, threshold, n_signers, index, signature_share, nonce, share_valid);
    lemma_step_inv(st, threshold, n_signers, index, signature_share, nonce, share_valid);
    if forall|i: usize| #[trigger]
        st.bindings.contains_key(i) ==> !terminal(session_of(st, i), threshold) {
        assert forall|i: usize| #[trigger]
            after.bindings.contains_key(i) && terminal(
                session_of(after, i),
                threshold,
            ) implies i == index && st.sessions.contains_key(after.bindings[i]) && !terminal(
            st.sessions[after.bindings[i]],
            threshold,
        ) by {
            match course(st, threshold, n_signers, index, signature_share, share_valid) {
                Course::Halted | Course::Ignored => {
                    assert(st.bindings.contains_key(i));
                },
                Course::Unsolicited | Course::MissingShare | Course::InvalidShare => {
                    assert(st.bindings.contains_key(i));
                },
                Course::Completes => {
                    assert(st.bindings.contains_key(i));
                    assert(st.bindings.contains_key(index));
                    let sid = st.bindings[index];
                    assert(st.sessions.contains_key(sid));
                    assert(session_inv(st.sessions[sid], threshold, n_signers));
                    if i != index && st.bindings[i] == sid {
                        let session = session_of(after, i);
                        assert(after.sessions.contains_key(sid));
                        assert(session_inv(session, threshold, n_signers));
                        lemma_complete_session(session, threshold, n_signers);
                        assert(session.contributors.contains(i));
                        let k = choose|k: int|
                            0 <= k < session.contributors.len() && session.contributors[k] == i;
                        assert(st.sessions[sid].contributors[k] == i);
                        assert(st.sessions[sid].contributors.contains(i));
                    }
                },
                Course::Joins => {
                    let taken = joined(st, threshold, index, signature_share, nonce);
                    lemma_joined_structure(
                        st,
                        threshold,
                        n_signers,
                        index,
                        signature_share,
                        nonce,
                        share_valid,
                    );
                    if taken.responsive.len() >= threshold {
                        lemma_session_count(taken, threshold, n_signers);
                    }
                    if st.bindings.contains_key(index) {
                        assert(st.sessions.contains_key(st.bindings[index]));
                        assert(session_inv(
                            st.sessions[st.bindings[index]],
                            threshold,
                            n_signers,
                        ));
                    }
                    if taken.bindings.contains_key(i) {
                        assert(st.bindings.contains_key(i));
                    }
                },
            }
        }
    }
}

/// Unless the coordinator gives up, no more than `n_signers - threshold`
/// signers are banned; and it gives up in no other case.
pub proof fn law_honesty_floor(
    st: StateModel,
    threshold: usize,
    n_signers: usize,
    index: usize,
    signature_share: Option<Scalar<Public, Zero>>,
    nonce: Nonce,
    share_valid: bool,
)
    requires
        inv(st, threshold, n_signers),
        index < n_signers,
    ensures
        action(st, threshold, n_signers, index, signature_share, nonce, share_valid)
            is TooFewHonest <==> step(
            st,
            threshold,
            n_signers,
            index,
            signature_share,
            nonce,
            share_valid,
        ).malicious.len() > n_signers - threshold,
{
    lemma_floor(st, threshold, n_signers, index, signature_share, nonce, share_valid);
}

/// The sessions have the ids from 1 on, in the order of their opening: a
/// session keeps its id, its signers and its nonces, and one that is opened
/// gets the id after the latest.
pub proof fn law_session_ids(
    st: StateModel,
    threshold: usize,
    n_signers: usize,
    index: usize,
    signature_share: Option<Scalar<Public, Zero>>,
    nonce: Nonce,
    share_valid: bool,
)
    requires
        inv(st, threshold, n_signers),
        index < n_signers,
    ensures
        ({
            let after = step(st, threshold, n_signers, index, signature_share, nonce, share_valid);
            &&& forall|sid: usize| after.sessions.contains_key(sid) <==> 1 <= sid <= after.counter
            &&& forall|sid: usize| #[trigger]
                st.sessions.contains_key(sid) ==> {
                    &&& after.sessions.contains_key(sid)
                    &&& after.sessions[sid].signers == st.sessions[sid].signers
                    &&& after.sessions[sid].nonces == st.sessions[sid].nonces
                }
            &&& after.counter == st.counter || {
                &&& after.counter == st.counter + 1
                &&& forall|sid: usize| #[trigger]
                    st.sessions.contains_key(sid) ==> sid < after.counter
            }
        }),
{
    let after = step(st, threshold, n_signers, index, signature_share, nonce, share_valid);
    lemma_step_inv(st, threshold, n_signers, index, signature_share, nonce, share_valid);
    match course(st, threshold, n_signers, index, signature_share, share_valid) {
        Course::Completes => {
            assert(st.bindings.contains_key(index));
        },
        Course::Joins => {
            let taken = joined(st, threshold, index, signature_share, nonce);
            lemma_joined_structure(
                st,
                threshold,
                n_signers,
                index,
                signature_share,
                nonce,
                share_valid,
            );
            if taken.responsive.len() >= threshold {
                lemma_opened_inv(taken, threshold, n_signers);
            }
            if st.bindings.contains_key(index) {
                assert(st.sessions.contains_key(st.bindings[index]));
            }
        },
        _ => {},
    }
}

/// The nonce set of every session holds `threshold` nonces, of signers
/// below `n_signers`.
pub proof fn law_nonce_sets(
    st: StateModel,
    threshold: usize,
    n_signers: usize,
    index: usize,
    signature_share: Option<Scalar<Public, Zero>>,
    nonce: Nonce,
    share_valid: bool,
)
    requires
        inv(st, threshold, n_signers),
        index < n_signers,
    ensures
        ({
            let after = step(st, threshold, n_signers, index, signature_share, nonce, share_valid);
            forall|sid: usize| #[trigger]
                after.sessions.contains_key(sid) ==> {
                    &&& after.sessions[sid].nonces.len() == threshold
                    &&& forall|k: int|
                        0 <= k < threshold ==> (#[trigger] after.sessions[sid].nonces[k]).0
                            < n_signers
                }
        }),
{
    let after = step(st, threshold, n_signers, index, signature_share, nonce, share_valid);
    lemma_step_inv(st, threshold, n_signers, index, signature_share, nonce, share_valid);
    assert forall|sid: usize| #[trigger] after.sessions.contains_key(sid) implies {
        &&& after.sessions[sid].nonces.len() == threshold
        &&& forall|k: int|
            0 <= k < threshold ==> (#[trigger] after.sessions[sid].nonces[k]).0 < n_signers
    } by {
        assert(session_inv(after.sessions[sid], threshold, n_signers));
    }
}

/// A share that a session holds after a submission was held by it before, in
/// the same place, or is the share that was submitted: then it was due, it
/// was found valid, and it is the last of the session that the signer was
/// bound to. The nonces of a session never change.
pub proof fn law_stored_shares(
    st: StateModel,
    threshold: usize,
    n_signers: usize,
    index: usize,
    signature_share: Option<Scalar<Public, Zero>>,
    nonce: Nonce,
    share_valid: bool,
    sid: usize,
    k: int,
)
    requires
        inv(st, threshold, n_signers),
        index < n_signers,
        ({
            let after = step(st, threshold, n_signers, index, signature_share, nonce, share_valid);
            after.sessions.contains_key(sid) && 0 <= k < after.sessions[sid].shares.len()
        }),
    ensures
        ({
            let session = step(
                st,
                threshold,
                n_signers,
                index,
                signature_share,
                nonce,
                share_valid,
            ).sessions[sid];
            &&& st.sessions.contains_key(sid)
            &&& st.sessions[sid].nonces == session.nonces
            &&& k < session.contributors.len()
            &&& if k < st.sessions[sid].shares.len() {
                &&& session.shares[k] == st.sessions[sid].shares[k]
                &&& session.contributors[k] == st.sessions[sid].contributors[k]
            } else {
                &&& share_due(st, index)
                &&& sid == st.bindings[index]
                &&& share_valid
                &&& signature_share == Some(session.shares[k])
                &&& session.contributors[k] == index
            }
        }),
{
    let after = step(st, threshold, n_signers, index, signature_share, nonce, share_valid);
    match course(st, threshold, n_signers, index, signature_share, share_valid) {
        Course::Halted | Course::Ignored => {
            assert(session_inv(st.sessions[sid], threshold, n_signers));
        },
        Course::Unsolicited | Course::MissingShare | Course::InvalidShare => {
            assert(session_inv(st.sessions[sid], threshold, n_signers));
        },
        Course::Completes => {
            assert(st.sessions.contains_key(st.bindings[index]));
            assert(session_inv(st.sessions[sid], threshold, n_signers));
        },
        Course::Joins => {
            let taken = joined(st, threshold, index, signature_share, nonce);
            lemma_joined_structure(
                st,
                threshold,
                n_signers,
                index,
                signature_share,
                nonce,
                share_valid,
            );
            if taken.responsive.len() >= threshold {
                lemma_session_count(taken, threshold, n_signers);
                assert(sid != (taken.counter + 1) as usize);
            }
            assert(taken.sessions.contains_key(sid));
            if st.bindings.contains_key(index) {
                assert(st.sessions.contains_key(st.bindings[index]));
            }
            assert(st.sessions.contains_key(sid));
            assert(session_inv(st.sessions[sid], threshold, n_signers));
        },
    }
}

/// A signer that submits while its nonce is waiting is banned, that and no
/// more: one more signer is malicious, and the sessions are as they were. What
/// it submits after that changes neither.
pub proof fn law_unsolicited_once(
    st: StateModel,
    threshold: usize,
    n_signers: usize,
    index: usize,
    first: Nonce,
    second: Nonce,
)
    requires
        inv(st, threshold, n_signers),
        index < n_signers,
        !floor_breached(st, threshold, n_signers),
        !st.malicious.contains(index),
        st.responsive.contains(index),
    ensures
        ({
            let once = step(st, threshold, n_signers, index, None, first, false);
            let twice = step(once, threshold, n_signers, index, None, second, false);
            &&& once.malicious == st.malicious.insert(index)
            &&& once.malicious.len() == st.malicious.len() + 1
            &&& once.sessions == st.sessions
            &&& twice.malicious == once.malicious
            &&& twice.sessions == once.sessions
        }),
{
}

/// No more than `n_signers - threshold + 1` sessions are opened: every
/// session keeps one of its signers for itself, and a new session needs
/// `threshold` signers that no session keeps.
pub proof fn law_session_bound(
    st: StateModel,
    threshold: usize,
    n_signers: usize,
    index: usize,
    signature_share: Option<Scalar<Public, Zero>>,
    nonce: Nonce,
    share_valid: bool,
)
    requires
        inv(st, threshold, n_signers),
        index < n_signers,
    ensures
        step(st, threshold, n_signers, index, signature_share, nonce, share_valid).counter
            <= n_signers - threshold + 1,
{
    lemma_step_inv(st, threshold, n_signers, index, signature_share, nonce, share_valid);
}

} // verus!
