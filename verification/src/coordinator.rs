//! The ROAST coordinator.
//!
//! A coordinator wants one message signed. Each signer first sends it a nonce.
//! Once as many signers as the threshold asks for have a nonce waiting, the
//! coordinator opens a session for them and sends them the nonces. Each answers
//! with its signature share and a nonce for the next session. A signer whose
//! share does not verify, or who speaks out of turn, is banned. The shares of
//! the first session that gets them all are combined into the signature.
//!
//! [`RoastState`] is the state machine, which takes the verdict on a share as
//! an input. [`Coordinator`] asks the threshold scheme for that verdict and for
//! the combined signature.
use std::collections::{HashMap, HashSet};
use vstd::prelude::*;
use vstd::std_specs::hash::group_hash_axioms;
use schnorr_fun::binonce::Nonce;
use schnorr_fun::{Message, Signature};
use secp256kfun::marker::{Public, Zero};
use secp256kfun::Scalar;
use crate::model::{
    action, announcement, ban, everyone, floor_breached, fresh_session, indices, initial,
    inv, invitation, joined, neutral, nonce_list, opened, record, session_of, share_due, step,
    store, structure, with_share, ActionModel, ResponseModel, SessionModel, StateModel,
};
use crate::laws::law_stored_shares;
use crate::safety::{
    lemma_ban_inv, lemma_complete_inv, lemma_floor, lemma_joined_structure, lemma_nonce_list,
    lemma_opened_inv, lemma_session_count,
};
use crate::threshold_scheme::{holds_index, is_nonce_set, key_fits, ThresholdScheme};

verus! {

broadcast use group_hash_axioms;

/// Why the coordinator gives up.
#[derive(Debug, Clone, Copy, PartialEq, Eq, Structural)]
pub enum RoastError {
    /// More signers are banned than the threshold leaves room for.
    TooFewHonest,
}

impl RoastError {
    /// The error in words.
    pub fn to_string(&self) -> (text: String)
        ensures
            text@ == "Too few honest signers"@,
    {
        match self {
            RoastError::TooFewHonest => "Too few honest signers".to_owned(),
        }
    }
}

/// What the coordinator answers to a submission.
#[derive(Debug)]
pub struct RoastResponse {
    /// The signers that the answer is to be sent to.
    pub recipients: Vec<usize>,
    /// The signature, once a session is complete.
    pub combined_signature: Option<Signature>,
    /// The nonce set of the session that was opened, for its signers to sign.
    pub nonce_set: Option<Vec<(usize, Nonce)>>,
}

impl View for RoastResponse {
    type V = ResponseModel;

    open spec fn view(&self) -> ResponseModel {
        ResponseModel {
            recipients: self.recipients@,
            combined_signature: self.combined_signature,
            nonce_set: match self.nonce_set {
                Some(nonces) => Some(nonces@),
                None => None,
            },
        }
    }
}

/// One signing session: the signers it was opened with, their frozen nonces
/// and the valid shares that have arrived.
pub struct RoastSignSession {
    pub signers: HashSet<usize>,
    nonces: Vec<(usize, Nonce)>,
    sig_shares: Vec<Scalar<Public, Zero>>,
    contributors: Ghost<Seq<usize>>,
}

impl View for RoastSignSession {
    type V = SessionModel;

    closed spec fn view(&self) -> SessionModel {
        SessionModel {
            signers: self.signers@,
            nonces: self.nonces@,
            shares: self.sig_shares@,
            contributors: self.contributors@,
        }
    }
}

/// What a submission asks of the coordinator.
#[derive(Debug)]
pub enum Action {
    /// Send this answer.
    Reply(RoastResponse),
    /// Combine these shares of the session with these nonces, and send the
    /// signature to every signer.
    Combine { nonces: Vec<(usize, Nonce)>, signature_shares: Vec<Scalar<Public, Zero>> },
    /// Give up: too few honest signers are left.
    TooFewHonest,
}

impl View for Action {
    type V = ActionModel;

    open spec fn view(&self) -> ActionModel {
        match self {
            Action::Reply(response) => ActionModel::Reply(response@),
            Action::Combine { nonces, signature_shares } => ActionModel::Combine {
                nonces: nonces@,
                signature_shares: signature_shares@,
            },
            Action::TooFewHonest => ActionModel::TooFewHonest,
        }
    }
}

/// The state of a coordinator.
pub struct RoastState<'a> {
    message: Message<'a, Public>,
    responsive_signers: HashSet<usize>,
    malicious_signers: HashSet<usize>,
    session_counter: usize,
    latest_nonces: HashMap<usize, Nonce>,
    sessions: HashMap<usize, RoastSignSession>,
    signer_session_map: HashMap<usize, usize>,
}

impl<'a> View for RoastState<'a> {
    type V = StateModel;

    closed spec fn view(&self) -> StateModel {
        StateModel {
            responsive: self.responsive_signers@,
            malicious: self.malicious_signers@,
            counter: self.session_counter,
            latest_nonces: self.latest_nonces@,
            sessions: Map::new(
                |sid: usize| self.sessions@.contains_key(sid),
                |sid: usize| self.sessions@[sid]@,
            ),
            bindings: self.signer_session_map@,
        }
    }
}

/// `j` is among the first `count` of `list`.
spec fn among(list: Seq<usize>, count: int, j: usize) -> bool {
    exists|l: int| 0 <= l < count && list[l] == j
}

/// The bindings with the first `count` of `list` bound to `sid`.
spec fn bound_first(bindings: Map<usize, usize>, list: Seq<usize>, count: int, sid: usize) -> Map<
    usize,
    usize,
> {
    Map::new(
        |j: usize| bindings.contains_key(j) || among(list, count, j),
        |j: usize|
            if among(list, count, j) {
                sid
            } else {
                bindings[j]
            },
    )
}

/// A copy of a nonce set.
fn copy_nonces(nonces: &Vec<(usize, Nonce)>) -> (copy: Vec<(usize, Nonce)>)
    ensures
        copy@ == nonces@,
{
    let mut copy: Vec<(usize, Nonce)> = Vec::new();
    let mut i: usize = 0;
    while i < nonces.len()
        invariant
            i <= nonces.len(),
            copy@ == nonces@.subrange(0, i as int),
        decreases nonces.len() - i,
    {
        copy.push(nonces[i]);
        i += 1;
    }
    copy
}

/// A copy of a list of shares.
fn copy_shares(shares: &Vec<Scalar<Public, Zero>>) -> (copy: Vec<Scalar<Public, Zero>>)
    ensures
        copy@ == shares@,
{
    let mut copy: Vec<Scalar<Public, Zero>> = Vec::new();
    let mut i: usize = 0;
    while i < shares.len()
        invariant
            i <= shares.len(),
            copy@ == shares@.subrange(0, i as int),
        decreases shares.len() - i,
    {
        copy.push(shares[i]);
        i += 1;
    }
    copy
}

/// The answer that goes to the submitting signer alone.
fn neutral_reply(index: usize) -> (response: RoastResponse)
    ensures
        response@ == neutral(index),
{
    let mut recipients: Vec<usize> = Vec::new();
    recipients.push(index);
    assert(recipients@ =~= seq![index]);
    RoastResponse { recipients, combined_signature: None, nonce_set: None }
}

impl<'a> RoastState<'a> {
    /// The invariant of the state for `threshold` of `n_signers` signers.
    pub open spec fn wf(&self, threshold: usize, n_signers: usize) -> bool {
        inv(self@, threshold, n_signers)
    }

    /// The message that is signed.
    pub closed spec fn spec_message(&self) -> Message<'a, Public> {
        self.message
    }

    /// The state of a coordinator that has heard of no signer yet.
    pub fn new(message: Message<'a, Public>) -> (state: Self)
        ensures
            state@ == initial(),
            state.spec_message() == message,
    {
        let state = RoastState {
            message,
            responsive_signers: HashSet::new(),
            malicious_signers: HashSet::new(),
            session_counter: 0,
            latest_nonces: HashMap::new(),
            sessions: HashMap::new(),
            signer_session_map: HashMap::new(),
        };
        assert(state@.sessions =~= Map::empty());
        state
    }

    /// The message that is signed.
    #[verifier::when_used_as_spec(spec_message)]
    pub fn message(&self) -> (message: Message<'a, Public>)
        ensures
            message == self.spec_message(),
    {
        self.message
    }

    /// Whether `index` is banned.
    pub fn is_malicious(&self, index: usize) -> (banned: bool)
        ensures
            banned == self@.malicious.contains(index),
    {
        self.malicious_signers.contains(&index)
    }

    /// Whether a nonce of `index` waits for the next session.
    pub fn is_responsive(&self, index: usize) -> (waiting: bool)
        ensures
            waiting == self@.responsive.contains(index),
    {
        self.responsive_signers.contains(&index)
    }

    /// The number of banned signers.
    pub fn n_malicious(&self) -> (count: usize)
        ensures
            count == self@.malicious.len(),
    {
        self.malicious_signers.len()
    }

    /// The number of sessions that were opened, which is the id of the latest.
    pub fn n_sessions(&self) -> (count: usize)
        ensures
            count == self@.counter,
    {
        self.session_counter
    }

    /// The id of the session that `index` is bound to, if it is bound.
    pub fn bound_session(&self, index: usize) -> (sid: Option<usize>)
        ensures
            sid is Some <==> self@.bindings.contains_key(index),
            sid matches Some(sid) ==> sid == self@.bindings[index],
    {
        match self.signer_session_map.get(&index) {
            Some(sid) => Some(*sid),
            None => None,
        }
    }

    /// The number of shares that session `sid` holds, if there is such a session.
    pub fn n_shares(&self, sid: usize) -> (count: Option<usize>)
        ensures
            count is Some <==> self@.sessions.contains_key(sid),
            count matches Some(count) ==> count == self@.sessions[sid].shares.len(),
    {
        match self.sessions.get(&sid) {
            Some(session) => Some(session.sig_shares.len()),
            None => None,
        }
    }

    /// The nonce set that a share of `index` is to be verified against, where
    /// one is due.
    pub fn pending_nonces(&self, threshold: usize, n_signers: usize, index: usize) -> (nonces:
        Option<Vec<(usize, Nonce)>>)
        requires
            self.wf(threshold, n_signers),
        ensures
            nonces is Some <==> share_due(self@, index),
            nonces matches Some(nonces) ==> nonces@ == session_of(self@, index).nonces,
    {
        if self.malicious_signers.contains(&index) || self.responsive_signers.contains(&index) {
            return None;
        }
        match self.signer_session_map.get(&index) {
            Some(sid) => {
                assert(self@.bindings.contains_key(index));
                assert(self@.sessions.contains_key(*sid));
                let session = self.sessions.get(sid).unwrap();
                Some(copy_nonces(&session.nonces))
            },
            None => None,
        }
    }

    /// Bans `index`, and tells whether too many signers are banned with it.
    fn mark_malicious(&mut self, threshold: usize, n_signers: usize, index: usize) -> (action:
        Action)
        requires
            old(self).wf(threshold, n_signers),
            index < n_signers,
        ensures
            final(self)@ == ban(old(self)@, index),
            final(self).spec_message() == old(self).spec_message(),
            action@ == if floor_breached(ban(old(self)@, index), threshold, n_signers) {
                ActionModel::TooFewHonest
            } else {
                ActionModel::Reply(neutral(index))
            },
            final(self).wf(threshold, n_signers),
    {
        self.malicious_signers.insert(index);
        self.responsive_signers.remove(&index);
        assert(self@.sessions =~= old(self)@.sessions);
        assert(self@ == ban(old(self)@, index));
        proof {
            lemma_ban_inv(old(self)@, threshold, n_signers, index);
        }
        if self.malicious_signers.len() > n_signers - threshold {
            Action::TooFewHonest
        } else {
            Action::Reply(neutral_reply(index))
        }
    }

    /// Stores the share of `index` in the session that the signer is bound to,
    /// unless the session is complete, and tells whether it is complete then.
    fn store_share(
        &mut self,
        threshold: usize,
        n_signers: usize,
        index: usize,
        signature_share: Scalar<Public, Zero>,
    ) -> (complete: bool)
        requires
            old(self).wf(threshold, n_signers),
            old(self)@.bindings.contains_key(index),
        ensures
            final(self)@ == store(old(self)@, threshold, index, signature_share),
            final(self).spec_message() == old(self).spec_message(),
            complete == (session_of(old(self)@, index).shares.len() + 1 >= threshold),
    {
        let sid = *self.signer_session_map.get(&index).unwrap();
        assert(old(self)@.sessions.contains_key(sid));
        let mut session = self.sessions.remove(&sid).unwrap();
        assert(session@ == old(self)@.sessions[sid]);
        if session.sig_shares.len() < threshold {
            session.sig_shares.push(signature_share);
            session.contributors = Ghost(session.contributors@.push(index));
        }
        let complete = session.sig_shares.len() >= threshold;
        self.sessions.insert(sid, session);
        assert(self@.sessions =~= store(old(self)@, threshold, index, signature_share).sessions);
        complete
    }

    /// Takes the nonce of `index`: the signer is responsive, and bound to no
    /// session any more.
    fn record_nonce(&mut self, index: usize, new_nonce: Nonce)
        ensures
            final(self)@ == record(old(self)@, index, new_nonce),
            final(self).spec_message() == old(self).spec_message(),
    {
        self.latest_nonces.insert(index, new_nonce);
        self.responsive_signers.insert(index);
        self.signer_session_map.remove(&index);
        assert(self@.sessions =~= old(self)@.sessions);
    }

    /// Opens a session for the responsive signers, and answers with its nonce
    /// set for them.
    fn open_session(&mut self, threshold: usize, n_signers: usize) -> (response: RoastResponse)
        requires
            structure(old(self)@, threshold, n_signers),
            old(self)@.responsive.len() == threshold,
        ensures
            final(self)@ == opened(old(self)@, n_signers),
            final(self).spec_message() == old(self).spec_message(),
            response@ == invitation(fresh_session(old(self)@, n_signers)),
    {
        let ghost before = self@;
        let mut nonces: Vec<(usize, Nonce)> = Vec::new();
        let mut recipients: Vec<usize> = Vec::new();
        let mut i: usize = 0;
        while i < n_signers
            invariant
                i <= n_signers,
                self@ == before,
                structure(before, threshold, n_signers),
                nonces@ == nonce_list(before.responsive, before.latest_nonces, i as nat),
                recipients@ == indices(nonces@),
            decreases n_signers - i,
        {
            if self.responsive_signers.contains(&i) {
                assert(before.latest_nonces.contains_key(i));
                let nonce = *self.latest_nonces.get(&i).unwrap();
                nonces.push((i, nonce));
                recipients.push(i);
            }
            i += 1;
            assert(recipients@ =~= indices(nonces@));
        }
        proof {
            lemma_session_count(before, threshold, n_signers);
        }
        let sid = self.session_counter + 1;
        self.session_counter = sid;
        let mut signers: HashSet<usize> = HashSet::new();
        core::mem::swap(&mut self.responsive_signers, &mut signers);
        let mut k: usize = 0;
        while k < recipients.len()
            invariant
                k <= recipients.len(),
                recipients@ == indices(nonces@),
                self.signer_session_map@ == bound_first(
                    before.bindings,
                    recipients@,
                    k as int,
                    sid,
                ),
                self.sessions@ == old(self).sessions@,
                self.latest_nonces@ == before.latest_nonces,
                self.malicious_signers@ == before.malicious,
                self.responsive_signers@ == Set::<usize>::empty(),
                self.session_counter == sid,
                self.message == old(self).message,
            decreases recipients.len() - k,
        {
            self.signer_session_map.insert(recipients[k], sid);
            k += 1;
            assert(self.signer_session_map@ =~= bound_first(
                before.bindings,
                recipients@,
                k as int,
                sid,
            )) by {
                assert forall|j: usize| among(recipients@, k as int, j) <==> (j == recipients@[k
                    - 1] || among(recipients@, k - 1, j)) by {
                    if among(recipients@, k as int, j) {
                        let l = choose|l: int| 0 <= l < k && recipients@[l] == j;
                        if l < k - 1 {
                            assert(0 <= l < k - 1 && recipients@[l] == j);
                        }
                    }
                    if j == recipients@[k - 1] {
                        assert(0 <= k - 1 < k && recipients@[k - 1] == j);
                    }
                }
            }
        }
        let session = RoastSignSession {
            signers,
            nonces: copy_nonces(&nonces),
            sig_shares: Vec::new(),
            contributors: Ghost(Seq::empty()),
        };
        assert(session@ == fresh_session(before, n_signers));
        self.sessions.insert(sid, session);
        proof {
            lemma_nonce_list(
                before.responsive,
                before.latest_nonces,
                n_signers as nat,
            );
            let after = opened(before, n_signers);
            assert(self@.sessions =~= after.sessions);
            assert(self@.bindings =~= after.bindings) by {
                assert forall|j: usize|
                    among(recipients@, recipients@.len() as int, j) <==> before.responsive.contains(
                        j,
                    ) by {
                    if among(recipients@, recipients@.len() as int, j) {
                        let l = choose|l: int| 0 <= l < recipients@.len() && recipients@[l] == j;
                        assert(nonces@[l].0 == j);
                    }
                    if before.responsive.contains(j) {
                        assert(holds_index(nonces@, j));
                        let l = choose|l: int| 0 <= l < nonces@.len() && nonces@[l].0 == j;
                        assert(recipients@[l] == j);
                    }
                }
            }
        }
        RoastResponse { recipients, combined_signature: None, nonce_set: Some(nonces) }
    }

    /// Takes one submission of signer `index`: a signature share where the
    /// signer was asked for one, and its nonce for the next session.
    /// `share_valid` is the verdict of the threshold scheme on the share, which
    /// counts where a share is due and one was sent. The state moves on as
    /// [`step`] says, and the result is what is to be done, as [`action`] says.
    pub fn advance(
        &mut self,
        threshold: usize,
        n_signers: usize,
        index: usize,
        signature_share: Option<Scalar<Public, Zero>>,
        new_nonce: Nonce,
        share_valid: bool,
    ) -> (wanted: Action)
        requires
            old(self).wf(threshold, n_signers),
            index < n_signers,
        ensures
            final(self)@ == step(
                old(self)@,
                threshold,
                n_signers,
                index,
                signature_share,
                new_nonce,
                share_valid,
            ),
            wanted@ == action(
                old(self)@,
                threshold,
                n_signers,
                index,
                signature_share,
                new_nonce,
                share_valid,
            ),
            final(self).spec_message() == old(self).spec_message(),
            final(self).wf(threshold, n_signers),
    {
        let ghost before = self@;
        if self.malicious_signers.len() > n_signers - threshold {
            return Action::TooFewHonest;
        }
        if self.malicious_signers.contains(&index) {
            return Action::Reply(neutral_reply(index));
        }
        if self.responsive_signers.contains(&index) {
            return self.mark_malicious(threshold, n_signers, index);
        }
        if self.signer_session_map.contains_key(&index) {
            match signature_share {
                None => {
                    return self.mark_malicious(threshold, n_signers, index);
                },
                Some(share) => {
                    if !share_valid {
                        return self.mark_malicious(threshold, n_signers, index);
                    }
                    let complete = self.store_share(threshold, n_signers, index, share);
                    if complete {
                        proof {
                            lemma_complete_inv(before, threshold, n_signers, index, share);
                        }
                        return self.completed(threshold, n_signers, index);
                    }
                },
            }
        }
        self.record_nonce(index, new_nonce);
        proof {
            lemma_joined_structure(
                before,
                threshold,
                n_signers,
                index,
                signature_share,
                new_nonce,
                share_valid,
            );
        }
        assert(self@ == joined(before, threshold, index, signature_share, new_nonce));
        if self.responsive_signers.len() >= threshold {
            proof {
                lemma_opened_inv(self@, threshold, n_signers);
            }
            return Action::Reply(self.open_session(threshold, n_signers));
        }
        Action::Reply(neutral_reply(index))
    }

    /// The nonces and the shares of the session that `index` is bound to, to
    /// be combined.
    fn completed(&self, threshold: usize, n_signers: usize, index: usize) -> (wanted: Action)
        requires
            self.wf(threshold, n_signers),
            self@.bindings.contains_key(index),
        ensures
            wanted@ == (ActionModel::Combine {
                nonces: session_of(self@, index).nonces,
                signature_shares: session_of(self@, index).shares,
            }),
    {
        let sid = *self.signer_session_map.get(&index).unwrap();
        assert(self@.sessions.contains_key(sid));
        let session = self.sessions.get(&sid).unwrap();
        Action::Combine {
            nonces: copy_nonces(&session.nonces),
            signature_shares: copy_shares(&session.sig_shares),
        }
    }
}

/// The signers `0 .. n_signers`.
fn all_signers(n_signers: usize) -> (signers: Vec<usize>)
    ensures
        signers@ == everyone(n_signers),
{
    let mut signers: Vec<usize> = Vec::new();
    let mut i: usize = 0;
    while i < n_signers
        invariant
            i <= n_signers,
            signers@.len() == i,
            forall|k: int| 0 <= k < i ==> signers@[k] == k,
        decreases n_signers - i,
    {
        signers.push(i);
        i += 1;
    }
    assert(signers@ =~= everyone(n_signers));
    signers
}

/// What came of a submission, as a value of the model.
pub open spec fn outcome(result: Result<RoastResponse, RoastError>) -> Result<
    ResponseModel,
    RoastError,
> {
    match result {
        Ok(response) => Ok(response@),
        Err(error) => Err(error),
    }
}

/// A ROAST coordinator for one message, over a threshold scheme and a joint key.
pub struct Coordinator<'a, S, K> {
    pub threshold_scheme: S,
    pub joint_key: K,
    n_signers: usize,
    threshold: usize,
    state: RoastState<'a>,
}

impl<'a, S: ThresholdScheme<K>, K> View for Coordinator<'a, S, K> {
    type V = StateModel;

    closed spec fn view(&self) -> StateModel {
        self.state@
    }
}

impl<'a, S: ThresholdScheme<K>, K> Coordinator<'a, S, K> {
    /// The threshold scheme.
    pub closed spec fn scheme(&self) -> &S {
        &self.threshold_scheme
    }

    /// The joint key.
    pub closed spec fn key(&self) -> &K {
        &self.joint_key
    }

    /// The number of shares that a signature takes.
    pub closed spec fn spec_threshold(&self) -> usize {
        self.threshold
    }

    /// The number of signers.
    pub closed spec fn spec_n_signers(&self) -> usize {
        self.n_signers
    }

    /// The message that is signed.
    pub closed spec fn spec_message(&self) -> Message<'a, Public> {
        self.state.spec_message()
    }

    /// Every share that a session holds is one that the scheme finds valid
    /// for the signer who sent it, against the nonce set of that session.
    pub open spec fn shares_verified(&self) -> bool {
        forall|sid: usize, k: int|
            self@.sessions.contains_key(sid) && 0 <= k < self@.sessions[sid].shares.len()
                ==> self.scheme().share_valid(
                self.key(),
                self@.sessions[sid].nonces,
                self@.sessions[sid].contributors[k],
                #[trigger] self@.sessions[sid].shares[k],
                self.spec_message(),
            )
    }

    /// The invariant of a coordinator: that of its state, a key that serves
    /// its sessions, and shares that have all been verified.
    pub open spec fn wf(&self) -> bool {
        &&& inv(self@, self.spec_threshold(), self.spec_n_signers())
        &&& key_fits(
            self.scheme(),
            self.key(),
            self.spec_threshold(),
            self.spec_n_signers(),
        )
        &&& self.shares_verified()
    }

    /// What the scheme says of the share that `index` submits: it counts
    /// where a share is due and one was sent.
    pub open spec fn verdict(
        &self,
        index: usize,
        signature_share: Option<Scalar<Public, Zero>>,
    ) -> bool {
        &&& share_due(self@, index)
        &&& signature_share is Some
        &&& self.scheme().share_valid(
            self.key(),
            session_of(self@, index).nonces,
            index,
            signature_share->0,
            self.spec_message(),
        )
    }

    /// The answer that carries out `wanted`: the signature in it is the one
    /// that the scheme combines.
    pub open spec fn answer(&self, wanted: ActionModel) -> Result<ResponseModel, RoastError> {
        match wanted {
            ActionModel::Reply(response) => Ok(response),
            ActionModel::Combine { nonces, signature_shares } => Ok(
                announcement(
                    self.spec_n_signers(),
                    self.scheme().combined(
                        self.key(),
                        nonces,
                        signature_shares,
                        self.spec_message(),
                    ),
                ),
            ),
            ActionModel::TooFewHonest => Err(RoastError::TooFewHonest),
        }
    }

    /// Create a new ROAST coordinator to receive signature shares and nonces
    /// from `n_signers` signers, `threshold` of which make a signature.
    pub fn new(
        threshold_scheme: S,
        joint_key: K,
        message: Message<'a, Public>,
        threshold: usize,
        n_signers: usize,
    ) -> (coordinator: Self)
        requires
            1 <= threshold <= n_signers,
            key_fits(&threshold_scheme, &joint_key, threshold, n_signers),
        ensures
            coordinator.wf(),
            coordinator@ == initial(),
            *coordinator.scheme() == threshold_scheme,
            *coordinator.key() == joint_key,
            coordinator.spec_message() == message,
            coordinator.spec_threshold() == threshold,
            coordinator.spec_n_signers() == n_signers,
    {
        Coordinator {
            threshold_scheme,
            joint_key,
            n_signers,
            threshold,
            state: RoastState::new(message),
        }
    }

    /// The state of the coordinator.
    pub fn state(&self) -> (state: &RoastState<'a>)
        ensures
            state@ == self@,
            state.spec_message() == self.spec_message(),
    {
        &self.state
    }

    /// The number of shares that a signature takes.
    #[verifier::when_used_as_spec(spec_threshold)]
    pub fn threshold(&self) -> (threshold: usize)
        ensures
            threshold == self.spec_threshold(),
    {
        self.threshold
    }

    /// The number of signers.
    #[verifier::when_used_as_spec(spec_n_signers)]
    pub fn n_signers(&self) -> (n_signers: usize)
        ensures
            n_signers == self.spec_n_signers(),
    {
        self.n_signers
    }

    /// Receive a signature share and a new nonce from a signer. A signer's
    /// first submission is a nonce alone.
    ///
    /// The state moves on as [`step`] says, on the scheme's verdict on the
    /// share. The answer names its recipients, and carries the nonce set of a
    /// session that this submission opened, or the signature of a session that
    /// it completed. The error is returned when more signers are banned than
    /// the threshold leaves room for, and from then on.
    pub fn receive(
        &mut self,
        index: usize,
        signature_share: Option<Scalar<Public, Zero>>,
        new_nonce: Nonce,
    ) -> (result: Result<RoastResponse, RoastError>)
        requires
            old(self).wf(),
            index < old(self).spec_n_signers(),
        ensures
            final(self)@ == step(
                old(self)@,
                old(self).spec_threshold(),
                old(self).spec_n_signers(),
                index,
                signature_share,
                new_nonce,
                old(self).verdict(index, signature_share),
            ),
            outcome(result) == old(self).answer(
                action(
                    old(self)@,
                    old(self).spec_threshold(),
                    old(self).spec_n_signers(),
                    index,
                    signature_share,
                    new_nonce,
                    old(self).verdict(index, signature_share),
                ),
            ),
            result is Err <==> floor_breached(
                final(self)@,
                old(self).spec_threshold(),
                old(self).spec_n_signers(),
            ),
            final(self).wf(),
            final(self).scheme() == old(self).scheme(),
            final(self).key() == old(self).key(),
            final(self).spec_message() == old(self).spec_message(),
            final(self).spec_threshold() == old(self).spec_threshold(),
            final(self).spec_n_signers() == old(self).spec_n_signers(),
    {
        let ghost before = self@;
        let message = self.state.message();
        let share_valid = match self.state.pending_nonces(self.threshold, self.n_signers, index) {
            Some(nonces) => match signature_share {
                Some(share) => {
                    proof {
                        let sid = before.bindings[index];
                        assert(before.sessions.contains_key(sid));
                        assert(is_nonce_set(nonces@, self.threshold, self.n_signers));
                        assert(before.sessions[sid].signers.contains(index));
                    }
                    self.threshold_scheme.verify_signature_share(
                        &self.joint_key,
                        nonces,
                        index,
                        share,
                        message,
                    )
                },
                None => false,
            },
            None => false,
        };
        assert(share_valid == old(self).verdict(index, signature_share));
        let wanted = self.state.advance(
            self.threshold,
            self.n_signers,
            index,
            signature_share,
            new_nonce,
            share_valid,
        );
        proof {
            assert forall|sid: usize, k: int|
                self@.sessions.contains_key(sid) && 0 <= k < self@.sessions[sid].shares.len()
                implies self.threshold_scheme.share_valid(
                &self.joint_key,
                self@.sessions[sid].nonces,
                self@.sessions[sid].contributors[k],
                #[trigger] self@.sessions[sid].shares[k],
                self.spec_message(),
            ) by {
                law_stored_shares(
                    before,
                    self.threshold,
                    self.n_signers,
                    index,
                    signature_share,
                    new_nonce,
                    share_valid,
                    sid,
                    k,
                );
                if k < before.sessions[sid].shares.len() {
                    assert(before.sessions[sid].shares[k] == self@.sessions[sid].shares[k]);
                }
            }
            lemma_floor(
                before,
                self.threshold,
                self.n_signers,
                index,
                signature_share,
                new_nonce,
                share_valid,
            );
        }
        match wanted {
            Action::Reply(response) => Ok(response),
            Action::TooFewHonest => Err(RoastError::TooFewHonest),
            Action::Combine { nonces, signature_shares } => {
                proof {
                    let sid = before.bindings[index];
                    assert(before.sessions.contains_key(sid));
                    assert(is_nonce_set(nonces@, self.threshold, self.n_signers));
                }
                let signature = self.threshold_scheme.combine_signature_shares(
                    &self.joint_key,
                    nonces,
                    signature_shares,
                    message,
                );
                Ok(
                    RoastResponse {
                        recipients: all_signers(self.n_signers),
                        combined_signature: Some(signature),
                        nonce_set: None,
                    },
                )
            },
        }
    }
}

/// Hands the submission of signer `index` to the coordinator, if `index` is
/// one of its signers. Otherwise nothing happens and there is no answer.
pub fn send_signature<'a, S: ThresholdScheme<K>, K>(
    coordinator: &mut Coordinator<'a, S, K>,
    index: usize,
    signature_share: Option<Scalar<Public, Zero>>,
    new_nonce: Nonce,
) -> (result: Option<Result<RoastResponse, RoastError>>)
    requires
        old(coordinator).wf(),
    ensures
        result is Some <==> index < old(coordinator).spec_n_signers(),
        result is None ==> *final(coordinator) == *old(coordinator),
        result matches Some(result) ==> {
            &&& final(coordinator)@ == step(
                old(coordinator)@,
                old(coordinator).spec_threshold(),
                old(coordinator).spec_n_signers(),
                index,
                signature_share,
                new_nonce,
                old(coordinator).verdict(index, signature_share),
            )
            &&& outcome(result) == old(coordinator).answer(
                action(
                    old(coordinator)@,
                    old(coordinator).spec_threshold(),
                    old(coordinator).spec_n_signers(),
                    index,
                    signature_share,
                    new_nonce,
                    old(coordinator).verdict(index, signature_share),
                ),
            )
        },
        final(coordinator).wf(),
        final(coordinator).scheme() == old(coordinator).scheme(),
        final(coordinator).key() == old(coordinator).key(),
        final(coordinator).spec_message() == old(coordinator).spec_message(),
        final(coordinator).spec_threshold() == old(coordinator).spec_threshold(),
        final(coordinator).spec_n_signers() == old(coordinator).spec_n_signers(),
{
    if index < coordinator.n_signers() {
        Some(coordinator.receive(index, signature_share, new_nonce))
    } else {
        None
    }
}

} // verus!
