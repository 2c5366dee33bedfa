//! Why the coordinator's invariant holds: one lemma for each change of the
//! state, and the counting argument that bounds the number of sessions.
use vstd::prelude::*;
use vstd::relations::injective_on;
use vstd::set_lib::{lemma_len_subset, lemma_map_size, lemma_set_disjoint_lens, FiniteRange};
use schnorr_fun::binonce::Nonce;
use secp256kfun::marker::{Public, Zero};
use secp256kfun::Scalar;
use crate::model::{
    action, ban, bindings_inv, course, floor_breached, fresh_session, indices, inv, joined,
    nonce_list, opened, session_inv, session_of, sessions_inv, step, store, structure,
    terminal, with_share, Course, SessionModel, StateModel,
};
use crate::threshold_scheme::{ascending, holds_index};

verus! {

/// The members of `set` below `bound`.
pub open spec fn below(set: Set<usize>, bound: nat) -> Set<usize> {
    Set::new(|i: usize| set.contains(i) && i < bound)
}

/// The nonce list holds, by ascending index, exactly the responsive signers
/// below the bound, each with its latest nonce.
pub proof fn lemma_nonce_list(responsive: Set<usize>, latest_nonces: Map<usize, Nonce>, bound: nat)
    requires
        responsive.finite(),
        bound <= usize::MAX,
    ensures
        ascending(nonce_list(responsive, latest_nonces, bound)),
        forall|k: int|
            0 <= k < nonce_list(responsive, latest_nonces, bound).len() ==> {
                let entry = #[trigger] nonce_list(responsive, latest_nonces, bound)[k];
                &&& entry.0 < bound
                &&& responsive.contains(entry.0)
                &&& entry.1 == latest_nonces[entry.0]
            },
        forall|i: usize|
            i < bound && responsive.contains(i) ==> holds_index(
                nonce_list(responsive, latest_nonces, bound),
                i,
            ),
        below(responsive, bound).finite(),
        nonce_list(responsive, latest_nonces, bound).len() == below(responsive, bound).len(),
    decreases bound,
{
    let list = nonce_list(responsive, latest_nonces, bound);
    lemma_len_subset(below(responsive, bound), responsive);
    if bound == 0 {
        assert(below(responsive, bound) =~= Set::empty());
    } else {
        let last = (bound - 1) as usize;
        let rest = nonce_list(responsive, latest_nonces, (bound - 1) as nat);
        lemma_nonce_list(responsive, latest_nonces, (bound - 1) as nat);
        if responsive.contains(last) {
            assert(list == rest.push((last, latest_nonces[last])));
            assert(below(responsive, bound) =~= below(responsive, (bound - 1) as nat).insert(last));
            assert(list[rest.len() as int].0 == last);
            assert forall|i: usize| i < bound && responsive.contains(i) implies holds_index(
                list,
                i,
            ) by {
                if i == last {
                    assert(list[rest.len() as int].0 == i);
                } else {
                    let k = choose|k: int| 0 <= k < rest.len() && rest[k].0 == i;
                    assert(list[k].0 == i);
                }
            }
        } else {
            assert(list == rest);
            assert(below(responsive, bound) =~= below(responsive, (bound - 1) as nat));
        }
    }
}

/// A session has `threshold` signers, and those that have sent a share are
/// as many as the shares.
pub proof fn lemma_session_signers(session: SessionModel, threshold: usize, n_signers: usize)
    requires
        session_inv(session, threshold, n_signers),
    ensures
        session.signers.finite(),
        session.signers.len() == threshold,
        session.contributors.to_set().finite(),
        session.contributors.to_set().len() == session.contributors.len(),
        session.contributors.to_set().subset_of(session.signers),
{
    let members = indices(session.nonces);
    assert(members.no_duplicates());
    members.unique_seq_to_set();
    assert(session.signers =~= members.to_set()) by {
        assert forall|i: usize| session.signers.contains(i) <==> members.to_set().contains(
            i,
        ) by {
            if session.signers.contains(i) {
                let k = choose|k: int| 0 <= k < session.nonces.len() && session.nonces[k].0 == i;
                assert(members[k] == i);
            }
            if members.to_set().contains(i) {
                let k = choose|k: int| 0 <= k < members.len() && members[k] == i;
                assert(session.nonces[k].0 == i);
            }
        }
    }
    broadcast use vstd::seq_lib::seq_to_set_is_finite;

    assert(session.contributors.no_duplicates());
    session.contributors.unique_seq_to_set();
}

/// In a complete session every signer has sent its share.
pub proof fn lemma_complete_session(session: SessionModel, threshold: usize, n_signers: usize)
    requires
        session_inv(session, threshold, n_signers),
        terminal(session, threshold),
    ensures
        forall|i: usize| session.signers.contains(i) ==> session.contributors.contains(i),
{
    lemma_session_signers(session, threshold, n_signers);
    vstd::set_lib::lemma_subset_equality(session.contributors.to_set(), session.signers);
}

/// A session that lacks a share has a signer that has sent none.
pub proof fn lemma_silent_signer(session: SessionModel, threshold: usize, n_signers: usize) -> (i:
    usize)
    requires
        session_inv(session, threshold, n_signers),
        session.contributors.len() < threshold,
    ensures
        session.signers.contains(i),
        !session.contributors.contains(i),
{
    lemma_session_signers(session, threshold, n_signers);
    let given = session.contributors.to_set();
    if session.signers.subset_of(given) {
        lemma_len_subset(session.signers, given);
        assert(false);
    }
    let i = choose|i: usize| session.signers.contains(i) && !given.contains(i);
    i
}

/// Every session has a signer that is bound to it.
pub proof fn lemma_bound_signer(
    st: StateModel,
    threshold: usize,
    n_signers: usize,
    sid: usize,
) -> (i: usize)
    requires
        structure(st, threshold, n_signers),
        st.sessions.contains_key(sid),
    ensures
        st.bindings.contains_key(i),
        st.bindings[i] == sid,
{
    let session = st.sessions[sid];
    if terminal(session, threshold) {
        session.contributors.last()
    } else {
        let i = lemma_silent_signer(session, threshold, n_signers);
        assert(st.sessions[sid].signers.contains(i));
        i
    }
}

/// The ids `1 ..= count`.
pub open spec fn ids(count: usize) -> Set<usize> {
    Set::new(|sid: usize| 1 <= sid <= count)
}

/// There are `count` ids up to `count`.
pub proof fn lemma_ids(count: usize)
    ensures
        ids(count).finite(),
        ids(count).len() == count,
{
    if count == 0 {
        assert(ids(count) =~= Set::empty());
    } else {
        usize::range_properties(1, count);
        assert(ids(count) =~= usize::range_set(1, count).insert(count));
    }
}

/// The sessions and the responsive signers together are no more than the
/// signers: each session keeps a signer bound that no other session has, and
/// no bound signer is responsive.
pub proof fn lemma_session_count(st: StateModel, threshold: usize, n_signers: usize)
    requires
        structure(st, threshold, n_signers),
    ensures
        st.counter + st.responsive.len() <= n_signers,
{
    let all = usize::range_set(0, n_signers);
    usize::range_properties(0, n_signers);
    let bound = st.bindings.dom();
    assert(bound.subset_of(all)) by {
        assert forall|i: usize| bound.contains(i) implies all.contains(i) by {
            assert(st.bindings.contains_key(i));
        }
    }
    lemma_len_subset(bound, all);
    let anchor = |sid: usize| choose|i: usize| st.bindings.contains_key(i) && st.bindings[i] == sid;
    let sessions = ids(st.counter);
    lemma_ids(st.counter);
    assert forall|sid: usize| sessions.contains(sid) implies st.bindings.contains_key(anchor(sid))
        && st.bindings[anchor(sid)] == sid by {
        assert(st.sessions.contains_key(sid));
        let i = lemma_bound_signer(st, threshold, n_signers, sid);
    }
    assert(injective_on(anchor, sessions));
    let anchors = sessions.map(anchor);
    lemma_map_size(sessions, anchors, anchor);
    assert(anchors.subset_of(bound)) by {
        assert forall|i: usize| anchors.contains(i) implies bound.contains(i) by {
            let sid = choose|sid: usize| sessions.contains(sid) && anchor(sid) == i;
            assert(st.bindings.contains_key(anchor(sid)));
        }
    }
    lemma_len_subset(anchors, bound);
    assert(st.responsive.disjoint(bound)) by {
        assert forall|i: usize| !(st.responsive.contains(i) && bound.contains(i)) by {
            if bound.contains(i) {
                assert(st.bindings.contains_key(i));
            }
        }
    }
    lemma_set_disjoint_lens(st.responsive, bound);
    assert(st.responsive.union(bound).subset_of(all)) by {
        assert forall|i: usize| st.responsive.union(bound).contains(i) implies all.contains(i) by {
            if bound.contains(i) {
                assert(st.bindings.contains_key(i));
            }
        }
    }
    lemma_len_subset(st.responsive.union(bound), all);
}

/// Banning a signer keeps the invariant.
pub proof fn lemma_ban_inv(st: StateModel, threshold: usize, n_signers: usize, index: usize)
    requires
        inv(st, threshold, n_signers),
        index < n_signers,
    ensures
        inv(ban(st, index), threshold, n_signers),
{
    let after = ban(st, index);
    lemma_len_subset(after.responsive, st.responsive);
    assert(bindings_inv(after, threshold, n_signers)) by {
        assert forall|i: usize| #[trigger] after.bindings.contains_key(i) implies {
            &&& i < n_signers
            &&& !after.responsive.contains(i)
            &&& after.sessions.contains_key(after.bindings[i])
            &&& session_of(after, i).signers.contains(i)
            &&& session_of(after, i).contributors.contains(i) ==> terminal(
                session_of(after, i),
                threshold,
            )
        } by {
            assert(st.bindings.contains_key(i));
        }
    }
}

/// A session that takes the share of a signer that has sent none is as every
/// session must be; the signer is its latest contributor, and the only new one.
pub proof fn lemma_with_share(
    before: SessionModel,
    threshold: usize,
    n_signers: usize,
    index: usize,
    signature_share: Scalar<Public, Zero>,
)
    requires
        session_inv(before, threshold, n_signers),
        before.shares.len() < threshold,
        before.signers.contains(index),
        !before.contributors.contains(index),
    ensures
        session_inv(with_share(before, threshold, index, signature_share), threshold, n_signers),
        with_share(before, threshold, index, signature_share).contributors.last() == index,
        forall|i: usize|
            with_share(before, threshold, index, signature_share).contributors.contains(i) <==> i
                == index || before.contributors.contains(i),
{
    let session = with_share(before, threshold, index, signature_share);
    let given = before.contributors.len() as int;
    assert(session.contributors[given] == index);
    assert forall|k: int| 0 <= k < session.contributors.len() implies session.signers.contains(
        #[trigger] session.contributors[k],
    ) by {
        if k < given {
            assert(session.contributors[k] == before.contributors[k]);
        }
    }
    assert forall|k: int, l: int|
        0 <= k < l < session.contributors.len() implies session.contributors[k]
        != session.contributors[l] by {
        if l == given {
            assert(before.contributors.contains(before.contributors[k]));
        }
    }
    assert forall|i: usize| session.contributors.contains(i) <==> i == index
        || before.contributors.contains(i) by {
        if session.contributors.contains(i) {
            let k = choose|k: int|
                0 <= k < session.contributors.len() && session.contributors[k] == i;
            if k < given {
                assert(before.contributors[k] == i);
            }
        }
        if before.contributors.contains(i) {
            let k = choose|k: int| 0 <= k < given && before.contributors[k] == i;
            assert(session.contributors[k] == i);
        }
    }
}

/// A valid share that completes its session, or comes to a complete one,
/// keeps the invariant.
pub proof fn lemma_complete_inv(
    st: StateModel,
    threshold: usize,
    n_signers: usize,
    index: usize,
    signature_share: Scalar<Public, Zero>,
)
    requires
        inv(st, threshold, n_signers),
        st.bindings.contains_key(index),
        session_of(st, index).shares.len() + 1 >= threshold,
    ensures
        inv(store(st, threshold, index, signature_share), threshold, n_signers),
        terminal(
            with_share(session_of(st, index), threshold, index, signature_share),
            threshold,
        ),
{
    let after = store(st, threshold, index, signature_share);
    let sid = st.bindings[index];
    let before = st.sessions[sid];
    assert(session_inv(before, threshold, n_signers));
    if before.shares.len() < threshold {
        lemma_with_share(before, threshold, n_signers, index, signature_share);
    } else {
        assert(after.sessions =~= st.sessions);
    }
    assert(sessions_inv(after, threshold, n_signers)) by {
        assert forall|s: usize| after.sessions.contains_key(s) implies session_inv(
            #[trigger] after.sessions[s],
            threshold,
            n_signers,
        ) by {
            if s != sid {
                assert(st.sessions.contains_key(s));
            }
        }
    }
    assert(bindings_inv(after, threshold, n_signers)) by {
        assert forall|i: usize| #[trigger] after.bindings.contains_key(i) implies {
            &&& i < n_signers
            &&& !after.responsive.contains(i)
            &&& after.sessions.contains_key(after.bindings[i])
            &&& session_of(after, i).signers.contains(i)
            &&& session_of(after, i).contributors.contains(i) ==> terminal(
                session_of(after, i),
                threshold,
            )
        } by {
            assert(st.bindings.contains_key(i));
        }
        assert forall|s: usize, i: usize|
            after.sessions.contains_key(s) && (#[trigger] after.sessions[s].signers.contains(i))
                && !after.sessions[s].contributors.contains(i) implies after.bindings.contains_key(
            i,
        ) && after.bindings[i] == s by {
            assert(st.sessions.contains_key(s));
            assert(st.sessions[s].signers.contains(i));
        }
        assert forall|s: usize|
            after.sessions.contains_key(s) && terminal(
                #[trigger] after.sessions[s],
                threshold,
            ) implies after.bindings.contains_key(after.sessions[s].contributors.last())
            && after.bindings[after.sessions[s].contributors.last()] == s by {
            if s != sid || before.shares.len() >= threshold {
                assert(st.sessions.contains_key(s));
                assert(terminal(st.sessions[s], threshold));
            }
        }
    }
}

/// Taking a signer's nonce, after its valid share where it owed one, keeps
/// the structure of the state, and makes one more signer responsive.
pub proof fn lemma_joined_structure(
    st: StateModel,
    threshold: usize,
    n_signers: usize,
    index: usize,
    signature_share: Option<Scalar<Public, Zero>>,
    nonce: Nonce,
    share_valid: bool,
)
    requires
        inv(st, threshold, n_signers),
        index < n_signers,
        course(st, threshold, n_signers, index, signature_share, share_valid) == Course::Joins,
    ensures
        structure(joined(st, threshold, index, signature_share, nonce), threshold, n_signers),
        joined(st, threshold, index, signature_share, nonce).responsive.len()
            == st.responsive.len() + 1,
        joined(st, threshold, index, signature_share, nonce).counter == st.counter,
        joined(st, threshold, index, signature_share, nonce).malicious == st.malicious,
{
    let after = joined(st, threshold, index, signature_share, nonce);
    if st.bindings.contains_key(index) {
        let sid = st.bindings[index];
        let before = st.sessions[sid];
        assert(session_inv(before, threshold, n_signers));
        lemma_with_share(before, threshold, n_signers, index, signature_share->0);
        assert(sessions_inv(after, threshold, n_signers)) by {
            assert forall|s: usize| after.sessions.contains_key(s) implies session_inv(
                #[trigger] after.sessions[s],
                threshold,
                n_signers,
            ) by {
                if s != sid {
                    assert(st.sessions.contains_key(s));
                }
            }
        }
        assert(bindings_inv(after, threshold, n_signers)) by {
            assert forall|i: usize| #[trigger] after.bindings.contains_key(i) implies {
                &&& i < n_signers
                &&& !after.responsive.contains(i)
                &&& after.sessions.contains_key(after.bindings[i])
                &&& session_of(after, i).signers.contains(i)
                &&& session_of(after, i).contributors.contains(i) ==> terminal(
                    session_of(after, i),
                    threshold,
                )
            } by {
                assert(st.bindings.contains_key(i));
            }
            assert forall|s: usize, i: usize|
                after.sessions.contains_key(s) && (#[trigger] after.sessions[s].signers.contains(
                    i,
                )) && !after.sessions[s].contributors.contains(i)
                implies after.bindings.contains_key(i) && after.bindings[i] == s by {
                assert(st.sessions.contains_key(s));
                assert(st.sessions[s].signers.contains(i));
            }
            assert forall|s: usize|
                after.sessions.contains_key(s) && terminal(
                    #[trigger] after.sessions[s],
                    threshold,
                ) implies after.bindings.contains_key(after.sessions[s].contributors.last())
                && after.bindings[after.sessions[s].contributors.last()] == s by {
                assert(st.sessions.contains_key(s));
                assert(terminal(st.sessions[s], threshold));
            }
        }
    } else {
        assert(after.bindings =~= st.bindings);
        assert(bindings_inv(after, threshold, n_signers)) by {
            assert forall|i: usize| #[trigger] after.bindings.contains_key(i) implies {
                &&& i < n_signers
                &&& !after.responsive.contains(i)
                &&& after.sessions.contains_key(after.bindings[i])
                &&& session_of(after, i).signers.contains(i)
                &&& session_of(after, i).contributors.contains(i) ==> terminal(
                    session_of(after, i),
                    threshold,
                )
            } by {
                assert(st.bindings.contains_key(i));
            }
        }
    }
}

/// The session that `threshold` responsive signers open is as every session
/// must be.
pub proof fn lemma_fresh_session(st: StateModel, threshold: usize, n_signers: usize)
    requires
        structure(st, threshold, n_signers),
        st.responsive.len() == threshold,
    ensures
        session_inv(fresh_session(st, n_signers), threshold, n_signers),
{
    let session = fresh_session(st, n_signers);
    lemma_nonce_list(st.responsive, st.latest_nonces, n_signers as nat);
    assert(below(st.responsive, n_signers as nat) =~= st.responsive);
    assert forall|i: usize| session.signers.contains(i) <==> holds_index(session.nonces, i) by {
        if holds_index(session.nonces, i) {
            let k = choose|k: int| 0 <= k < session.nonces.len() && session.nonces[k].0 == i;
            assert(st.responsive.contains(session.nonces[k].0));
        }
    }
}

/// Opening a session for `threshold` responsive signers restores the
/// invariant. The session gets an id that no session had.
pub proof fn lemma_opened_inv(st: StateModel, threshold: usize, n_signers: usize)
    requires
        structure(st, threshold, n_signers),
        st.responsive.len() == threshold,
    ensures
        inv(opened(st, n_signers), threshold, n_signers),
        opened(st, n_signers).counter == st.counter + 1,
        !st.sessions.contains_key(opened(st, n_signers).counter),
{
    let after = opened(st, n_signers);
    lemma_session_count(st, threshold, n_signers);
    lemma_fresh_session(st, threshold, n_signers);
    let sid = (st.counter + 1) as usize;
    assert(sessions_inv(after, threshold, n_signers)) by {
        assert forall|s: usize| after.sessions.contains_key(s) implies session_inv(
            #[trigger] after.sessions[s],
            threshold,
            n_signers,
        ) by {
            if s != sid {
                assert(st.sessions.contains_key(s));
            }
        }
    }
    assert(bindings_inv(after, threshold, n_signers)) by {
        assert forall|i: usize| #[trigger] after.bindings.contains_key(i) implies {
            &&& i < n_signers
            &&& !after.responsive.contains(i)
            &&& after.sessions.contains_key(after.bindings[i])
            &&& session_of(after, i).signers.contains(i)
            &&& session_of(after, i).contributors.contains(i) ==> terminal(
                session_of(after, i),
                threshold,
            )
        } by {
            if !st.responsive.contains(i) {
                assert(st.bindings.contains_key(i));
                assert(st.sessions.contains_key(st.bindings[i]));
            }
        }
        assert forall|s: usize, i: usize|
            after.sessions.contains_key(s) && (#[trigger] after.sessions[s].signers.contains(i))
                && !after.sessions[s].contributors.contains(i) implies after.bindings.contains_key(
            i,
        ) && after.bindings[i] == s by {
            if s != sid {
                assert(st.sessions.contains_key(s));
                assert(st.sessions[s].signers.contains(i));
                assert(st.bindings.contains_key(i));
            }
        }
        assert forall|s: usize|
            after.sessions.contains_key(s) && terminal(
                #[trigger] after.sessions[s],
                threshold,
            ) implies after.bindings.contains_key(after.sessions[s].contributors.last())
            && after.bindings[after.sessions[s].contributors.last()] == s by {
            assert(s != sid);
            assert(st.sessions.contains_key(s));
            assert(terminal(st.sessions[s], threshold));
            assert(st.bindings.contains_key(st.sessions[s].contributors.last()));
        }
    }
}

/// One submission keeps the invariant.
pub proof fn lemma_step_inv(
    st: StateModel,
    threshold: usize,
    n_signers: usize,
    index: usize,
    signature_share: Option<Scalar<Public, Zero>>,
    nonce: Nonce,
    share_valid: bool,
)
    requires
        inv(st, threshold, n_signers),
        index < n_signers,
    ensures
        inv(
            step(st, threshold, n_signers, index, signature_share, nonce, share_valid),
            threshold,
            n_signers,
        ),
{
    match course(st, threshold, n_signers, index, signature_share, share_valid) {
        Course::Halted | Course::Ignored => {},
        Course::Unsolicited | Course::MissingShare | Course::InvalidShare => {
            lemma_ban_inv(st, threshold, n_signers, index);
        },
        Course::Completes => {
            lemma_complete_inv(st, threshold, n_signers, index, signature_share->0);
        },
        Course::Joins => {
            lemma_joined_structure(
                st,
                threshold,
                n_signers,
                index,
                signature_share,
                nonce,
                share_valid,
            );
            let taken = joined(st, threshold, index, signature_share, nonce);
            if taken.responsive.len() >= threshold {
                lemma_opened_inv(taken, threshold, n_signers);
            }
        },
    }
}

/// The coordinator gives up exactly when too many signers are banned after
/// the submission.
pub proof fn lemma_floor(
    st: StateModel,
    threshold: usize,
    n_signers: usize,
    index: usize,
    signature_share: Option<Scalar<Public, Zero>>,
    nonce: Nonce,
    share_valid: bool,
)
    requires
        inv(st, threshold, n_signers),
        index < n_signers,
    ensures
        action(st, threshold, n_signers, index, signature_share, nonce, share_valid)
            is TooFewHonest <==> floor_breached(
            step(st, threshold, n_signers, index, signature_share, nonce, share_valid),
            threshold,
            n_signers,
        ),
{
    if course(st, threshold, n_signers, index, signature_share, share_valid) == Course::Joins {
        lemma_joined_structure(
            st,
            threshold,
            n_signers,
            index,
            signature_share,
            nonce,
            share_valid,
        );
    }
}

} // verus!
