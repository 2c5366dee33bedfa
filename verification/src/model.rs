//! The coordinator as a mathematical state machine.
//!
//! A state holds the responsive and the malicious signers, each signer's latest
//! nonce, the sessions by id and the session that each signer is bound to. One
//! submission of a signer takes a state to the next one ([`step`]) and asks for
//! one thing to be done ([`action`]). Whether the submitted share is valid is an
//! input of both: the threshold scheme decides it, not the state machine.
use vstd::prelude::*;
use schnorr_fun::binonce::Nonce;
use schnorr_fun::Signature;
use secp256kfun::marker::{Public, Zero};
use secp256kfun::Scalar;
use crate::threshold_scheme::{ascending, holds_index, is_nonce_set};

verus! {

/// One signing session.
pub struct SessionModel {
    /// The signers that the session was opened with.
    pub signers: Set<usize>,
    /// Their nonces, frozen when the session was opened.
    pub nonces: Seq<(usize, Nonce)>,
    /// The valid shares received so far, in the order of their arrival.
    pub shares: Seq<Scalar<Public, Zero>>,
    /// The signer that sent each of the shares.
    pub contributors: Seq<usize>,
}

/// The coordinator's state.
pub struct StateModel {
    /// The signers whose nonce waits for the next session.
    pub responsive: Set<usize>,
    /// The signers that were banned.
    pub malicious: Set<usize>,
    /// The number of sessions opened so far, which is the id of the latest.
    pub counter: usize,
    /// The latest nonce of each signer that submitted one.
    pub latest_nonces: Map<usize, Nonce>,
    /// The sessions by id.
    pub sessions: Map<usize, SessionModel>,
    /// The session that a signer owes a share to.
    pub bindings: Map<usize, usize>,
}

/// What the coordinator answers.
pub struct ResponseModel {
    /// The signers that the answer goes to.
    pub recipients: Seq<usize>,
    /// The signature, once a session is complete.
    pub combined_signature: Option<Signature>,
    /// The nonce set of a session that was opened.
    pub nonce_set: Option<Seq<(usize, Nonce)>>,
}

/// What one submission asks the coordinator to do.
pub enum ActionModel {
    /// Answer with these recipients and, where a session was opened, its nonce set.
    Reply(ResponseModel),
    /// Combine the shares of a session that is complete, and tell every signer.
    Combine { nonces: Seq<(usize, Nonce)>, signature_shares: Seq<Scalar<Public, Zero>> },
    /// Give up: too many signers are banned.
    TooFewHonest,
}

/// The way that one submission takes through the coordinator.
pub enum Course {
    /// Too many signers are banned: the coordinator has given up.
    Halted,
    /// The signer is banned: nothing happens.
    Ignored,
    /// The signer has a nonce waiting already: it is banned.
    Unsolicited,
    /// The signer owes a share and sent none: it is banned.
    MissingShare,
    /// The signer's share is not valid: it is banned.
    InvalidShare,
    /// The signer's share is valid and its session holds all its shares with it.
    Completes,
    /// The signer's nonce is taken, after its valid share where it owed one.
    Joins,
}

/// The state before any submission.
pub open spec fn initial() -> StateModel {
    StateModel {
        responsive: Set::empty(),
        malicious: Set::empty(),
        counter: 0,
        latest_nonces: Map::empty(),
        sessions: Map::empty(),
        bindings: Map::empty(),
    }
}

/// The session that `index` owes a share to.
pub open spec fn session_of(st: StateModel, index: usize) -> SessionModel {
    st.sessions[st.bindings[index]]
}

/// A share of `index` is due: the signer is neither banned nor responsive,
/// and bound to a session.
pub open spec fn share_due(st: StateModel, index: usize) -> bool {
    &&& !st.malicious.contains(index)
    &&& !st.responsive.contains(index)
    &&& st.bindings.contains_key(index)
}

/// More signers are banned than the threshold leaves room for.
pub open spec fn floor_breached(st: StateModel, threshold: usize, n_signers: usize) -> bool {
    st.malicious.len() > n_signers - threshold
}

/// The way of a submission of `index`. `share_valid` counts only where a share
/// is due and one was sent.
pub open spec fn course(
    st: StateModel,
    threshold: usize,
    n_signers: usize,
    index: usize,
    signature_share: Option<Scalar<Public, Zero>>,
    share_valid: bool,
) -> Course {
    if floor_breached(st, threshold, n_signers) {
        Course::Halted
    } else if st.malicious.contains(index) {
        Course::Ignored
    } else if st.responsive.contains(index) {
        Course::Unsolicited
    } else if st.bindings.contains_key(index) {
        if signature_share is None {
            Course::MissingShare
        } else if !share_valid {
            Course::InvalidShare
        } else if session_of(st, index).shares.len() + 1 >= threshold {
            Course::Completes
        } else {
            Course::Joins
        }
    } else {
        Course::Joins
    }
}

/// The state with `index` banned: the signer is malicious, and responsive no
/// more.
pub open spec fn ban(st: StateModel, index: usize) -> StateModel {
    StateModel {
        malicious: st.malicious.insert(index),
        responsive: st.responsive.remove(index),
        ..st
    }
}

/// The session with one more share, unless it holds `threshold` shares already.
pub open spec fn with_share(
    session: SessionModel,
    threshold: usize,
    index: usize,
    signature_share: Scalar<Public, Zero>,
) -> SessionModel {
    if session.shares.len() < threshold {
        SessionModel {
            shares: session.shares.push(signature_share),
            contributors: session.contributors.push(index),
            ..session
        }
    } else {
        session
    }
}

/// The state with the share of `index` stored in the session it is bound to.
pub open spec fn store(
    st: StateModel,
    threshold: usize,
    index: usize,
    signature_share: Scalar<Public, Zero>,
) -> StateModel {
    StateModel {
        sessions: st.sessions.insert(
            st.bindings[index],
            with_share(session_of(st, index), threshold, index, signature_share),
        ),
        ..st
    }
}

/// The state with the nonce of `index` taken: the signer is responsive and
/// bound to no session.
pub open spec fn record(st: StateModel, index: usize, nonce: Nonce) -> StateModel {
    StateModel {
        latest_nonces: st.latest_nonces.insert(index, nonce),
        responsive: st.responsive.insert(index),
        bindings: st.bindings.remove(index),
        ..st
    }
}

/// The latest nonces of the responsive signers below `bound`, by ascending index.
pub open spec fn nonce_list(
    responsive: Set<usize>,
    latest_nonces: Map<usize, Nonce>,
    bound: nat,
) -> Seq<(usize, Nonce)>
    decreases bound,
{
    if bound == 0 {
        Seq::empty()
    } else {
        let index = (bound - 1) as usize;
        let rest = nonce_list(responsive, latest_nonces, (bound - 1) as nat);
        if responsive.contains(index) {
            rest.push((index, latest_nonces[index]))
        } else {
            rest
        }
    }
}

/// The signer indices of a nonce set, in its order.
pub open spec fn indices(nonces: Seq<(usize, Nonce)>) -> Seq<usize> {
    Seq::new(nonces.len(), |i: int| nonces[i].0)
}

/// The session that the responsive signers of `st` open.
pub open spec fn fresh_session(st: StateModel, n_signers: usize) -> SessionModel {
    SessionModel {
        signers: st.responsive,
        nonces: nonce_list(st.responsive, st.latest_nonces, n_signers as nat),
        shares: Seq::empty(),
        contributors: Seq::empty(),
    }
}

/// The state with a session opened for the responsive signers: it gets the
/// next id, each of them is bound to it, and none is responsive any more. The
/// latest nonces stay.
pub open spec fn opened(st: StateModel, n_signers: usize) -> StateModel {
    let sid = (st.counter + 1) as usize;
    StateModel {
        responsive: Set::empty(),
        malicious: st.malicious,
        counter: sid,
        latest_nonces: st.latest_nonces,
        sessions: st.sessions.insert(sid, fresh_session(st, n_signers)),
        bindings: Map::new(
            |i: usize| st.responsive.contains(i) || st.bindings.contains_key(i),
            |i: usize|
                if st.responsive.contains(i) {
                    sid
                } else {
                    st.bindings[i]
                },
        ),
    }
}

/// The state in which the nonce of `index` was taken, before a session is
/// opened: its share is stored first where it owed one.
pub open spec fn joined(
    st: StateModel,
    threshold: usize,
    index: usize,
    signature_share: Option<Scalar<Public, Zero>>,
    nonce: Nonce,
) -> StateModel {
    if st.bindings.contains_key(index) && signature_share is Some {
        record(store(st, threshold, index, signature_share->0), index, nonce)
    } else {
        record(st, index, nonce)
    }
}

/// The state after a submission of `index`.
pub open spec fn step(
    st: StateModel,
    threshold: usize,
    n_signers: usize,
    index: usize,
    signature_share: Option<Scalar<Public, Zero>>,
    nonce: Nonce,
    share_valid: bool,
) -> StateModel {
    match course(st, threshold, n_signers, index, signature_share, share_valid) {
        Course::Halted | Course::Ignored => st,
        Course::Unsolicited | Course::MissingShare | Course::InvalidShare => ban(st, index),
        Course::Completes => store(st, threshold, index, signature_share->0),
        Course::Joins => {
            let taken = joined(st, threshold, index, signature_share, nonce);
            if taken.responsive.len() >= threshold {
                opened(taken, n_signers)
            } else {
                taken
            }
        },
    }
}

/// The answer that goes to the submitting signer alone.
pub open spec fn neutral(index: usize) -> ResponseModel {
    ResponseModel { recipients: seq![index], combined_signature: None, nonce_set: None }
}

/// The answer that opens a session: its nonce set, to its signers.
pub open spec fn invitation(session: SessionModel) -> ResponseModel {
    ResponseModel {
        recipients: indices(session.nonces),
        combined_signature: None,
        nonce_set: Some(session.nonces),
    }
}

/// What a submission of `index` asks the coordinator to do.
pub open spec fn action(
    st: StateModel,
    threshold: usize,
    n_signers: usize,
    index: usize,
    signature_share: Option<Scalar<Public, Zero>>,
    nonce: Nonce,
    share_valid: bool,
) -> ActionModel {
    match course(st, threshold, n_signers, index, signature_share, share_valid) {
        Course::Halted => ActionModel::TooFewHonest,
        Course::Ignored => ActionModel::Reply(neutral(index)),
        Course::Unsolicited | Course::MissingShare | Course::InvalidShare => {
            if floor_breached(ban(st, index), threshold, n_signers) {
                ActionModel::TooFewHonest
            } else {
                ActionModel::Reply(neutral(index))
            }
        },
        Course::Completes => {
            let session = with_share(
                session_of(st, index),
                threshold,
                index,
                signature_share->0,
            );
            ActionModel::Combine { nonces: session.nonces, signature_shares: session.shares }
        },
        Course::Joins => {
            let taken = joined(st, threshold, index, signature_share, nonce);
            if taken.responsive.len() >= threshold {
                ActionModel::Reply(invitation(fresh_session(taken, n_signers)))
            } else {
                ActionModel::Reply(neutral(index))
            }
        },
    }
}

/// The signers `0 .. n_signers`, the recipients of the signature.
pub open spec fn everyone(n_signers: usize) -> Seq<usize> {
    Seq::new(n_signers as nat, |i: int| i as usize)
}

/// The answer that carries the signature: to every signer.
pub open spec fn announcement(n_signers: usize, signature: Signature) -> ResponseModel {
    ResponseModel {
        recipients: everyone(n_signers),
        combined_signature: Some(signature),
        nonce_set: None,
    }
}

/// A session holds all the shares it needs.
pub open spec fn terminal(session: SessionModel, threshold: usize) -> bool {
    session.shares.len() >= threshold
}

/// What holds of every session: its nonce set is one of `threshold` signers
/// below `n_signers`, by ascending index; these are its signers; and its shares
/// came from distinct signers among them, at most `threshold` in all.
pub open spec fn session_inv(session: SessionModel, threshold: usize, n_signers: usize) -> bool {
    &&& is_nonce_set(session.nonces, threshold, n_signers)
    &&& forall|i: usize| session.signers.contains(i) <==> holds_index(session.nonces, i)
    &&& session.shares.len() == session.contributors.len()
    &&& session.shares.len() <= threshold
    &&& forall|k: int|
        0 <= k < session.contributors.len() ==> session.signers.contains(
            #[trigger] session.contributors[k],
        )
    &&& forall|k: int, l: int|
        0 <= k < l < session.contributors.len() ==> session.contributors[k]
            != session.contributors[l]
}

/// The responsive and the malicious signers are signers, no signer is both,
/// and every responsive signer has a latest nonce.
pub open spec fn signers_inv(st: StateModel, n_signers: usize) -> bool {
    &&& st.responsive.finite()
    &&& st.malicious.finite()
    &&& forall|i: usize| st.responsive.contains(i) ==> i < n_signers
    &&& forall|i: usize| st.malicious.contains(i) ==> i < n_signers
    &&& st.responsive.disjoint(st.malicious)
    &&& forall|i: usize| st.responsive.contains(i) ==> st.latest_nonces.contains_key(i)
}

/// The sessions are those with the ids `1 ..= counter`, and each is as
/// [`session_inv`] says.
pub open spec fn sessions_inv(st: StateModel, threshold: usize, n_signers: usize) -> bool {
    &&& forall|sid: usize| st.sessions.contains_key(sid) <==> 1 <= sid <= st.counter
    &&& forall|sid: usize|
        st.sessions.contains_key(sid) ==> session_inv(
            #[trigger] st.sessions[sid],
            threshold,
            n_signers,
        )
}

/// A signer is bound to a session that it is a signer of, and is not
/// responsive. It stays bound until its share is in, and beyond that only
/// where its share completed the session: the signer whose share came last in
/// a complete session is bound to it for good.
pub open spec fn bindings_inv(st: StateModel, threshold: usize, n_signers: usize) -> bool {
    &&& forall|i: usize| #[trigger]
        st.bindings.contains_key(i) ==> {
            &&& i < n_signers
            &&& !st.responsive.contains(i)
            &&& st.sessions.contains_key(st.bindings[i])
            &&& session_of(st, i).signers.contains(i)
            &&& session_of(st, i).contributors.contains(i) ==> terminal(
                session_of(st, i),
                threshold,
            )
        }
    &&& forall|sid: usize, i: usize|
        st.sessions.contains_key(sid) && (#[trigger] st.sessions[sid].signers.contains(i))
            && !st.sessions[sid].contributors.contains(i) ==> st.bindings.contains_key(i)
            && st.bindings[i] == sid
    &&& forall|sid: usize|
        st.sessions.contains_key(sid) && terminal(#[trigger] st.sessions[sid], threshold)
            ==> st.bindings.contains_key(st.sessions[sid].contributors.last())
            && st.bindings[st.sessions[sid].contributors.last()] == sid
}

/// What holds of the state at every moment, also between the taking of a
/// nonce and the opening of a session.
pub open spec fn structure(st: StateModel, threshold: usize, n_signers: usize) -> bool {
    &&& 1 <= threshold <= n_signers
    &&& signers_inv(st, n_signers)
    &&& sessions_inv(st, threshold, n_signers)
    &&& bindings_inv(st, threshold, n_signers)
}

/// The invariant of the coordinator's state for `threshold` of `n_signers`
/// signers, which holds before and after every submission: the state is as
/// [`structure`] says, fewer than `threshold` signers are responsive, and no
/// more than `n_signers - threshold + 1` sessions were opened.
pub open spec fn inv(st: StateModel, threshold: usize, n_signers: usize) -> bool {
    &&& structure(st, threshold, n_signers)
    &&& st.responsive.len() < threshold
    &&& st.counter <= n_signers - threshold + 1
}

} // verus!
