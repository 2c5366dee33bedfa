//! Why the coordinator gets to a signature.
//!
//! Every submission that the coordinator does not ignore either completes a
//! session or raises a weight of the state that cannot pass a limit. So in
//! every run only so many submissions count before a session is complete.
//! Honest signers are never banned, and each of their submissions counts; and
//! as long as `threshold` signers are honest and no session is complete, one of
//! them has a submission to make.
use vstd::prelude::*;
use vstd::set_lib::{lemma_len_subset, lemma_set_disjoint_lens, FiniteRange};
use schnorr_fun::binonce::Nonce;
use secp256kfun::marker::{Public, Zero};
use secp256kfun::Scalar;
use crate::model::{
    action, course, floor_breached, inv, joined, step, Course, StateModel,
};
use crate::safety::{lemma_joined_structure, lemma_opened_inv, lemma_step_inv};

verus! {

/// One submission of a signer, with the verdict of the scheme on its share.
pub struct Submission {
    pub index: usize,
    pub signature_share: Option<Scalar<Public, Zero>>,
    pub nonce: Nonce,
    pub share_valid: bool,
}

/// The way of a submission.
pub open spec fn course_of(
    st: StateModel,
    threshold: usize,
    n_signers: usize,
    sub: Submission,
) -> Course {
    course(st, threshold, n_signers, sub.index, sub.signature_share, sub.share_valid)
}

/// The state after a submission.
pub open spec fn after(
    st: StateModel,
    threshold: usize,
    n_signers: usize,
    sub: Submission,
) -> StateModel {
    step(st, threshold, n_signers, sub.index, sub.signature_share, sub.nonce, sub.share_valid)
}

/// The state after the submissions of `subs`, one after another.
pub open spec fn run(
    st: StateModel,
    threshold: usize,
    n_signers: usize,
    subs: Seq<Submission>,
) -> StateModel
    decreases subs.len(),
{
    if subs.len() == 0 {
        st
    } else {
        after(run(st, threshold, n_signers, subs.drop_last()), threshold, n_signers, subs.last())
    }
}

/// Every submission of `subs` comes from a signer.
pub open spec fn from_signers(subs: Seq<Submission>, n_signers: usize) -> bool {
    forall|k: int| 0 <= k < subs.len() ==> (#[trigger] subs[k]).index < n_signers
}

/// A submission counts: the coordinator neither ignores it nor has given up.
pub open spec fn counts(
    st: StateModel,
    threshold: usize,
    n_signers: usize,
    sub: Submission,
) -> bool {
    course_of(st, threshold, n_signers, sub) != Course::Halted && course_of(
        st,
        threshold,
        n_signers,
        sub,
    ) != Course::Ignored
}

/// The number of submissions of `subs` that count.
pub open spec fn counted(
    st: StateModel,
    threshold: usize,
    n_signers: usize,
    subs: Seq<Submission>,
) -> nat
    decreases subs.len(),
{
    if subs.len() == 0 {
        0
    } else {
        let before = run(st, threshold, n_signers, subs.drop_last());
        counted(st, threshold, n_signers, subs.drop_last()) + if counts(
            before,
            threshold,
            n_signers,
            subs.last(),
        ) {
            1nat
        } else {
            0nat
        }
    }
}

/// One of the submissions of `subs` completes a session, so that the
/// coordinator announces the signature.
pub open spec fn signed(
    st: StateModel,
    threshold: usize,
    n_signers: usize,
    subs: Seq<Submission>,
) -> bool
    decreases subs.len(),
{
    subs.len() > 0 && (signed(st, threshold, n_signers, subs.drop_last()) || course_of(
        run(st, threshold, n_signers, subs.drop_last()),
        threshold,
        n_signers,
        subs.last(),
    ) == Course::Completes)
}

/// The weight of a state: it grows with every ban, every session and every
/// responsive signer.
pub open spec fn weight(st: StateModel, threshold: usize) -> nat {
    (2 * st.malicious.len() + threshold * st.counter + st.responsive.len()) as nat
}

/// The weight that no state passes.
pub open spec fn weight_limit(threshold: usize, n_signers: usize) -> nat {
    (2 * n_signers + threshold * (n_signers - threshold + 1) + threshold) as nat
}

/// A submission that completes a session has the coordinator combine the
/// shares; one that the coordinator ignores changes nothing; every other raises
/// the weight of the state.
pub proof fn law_progress(st: StateModel, threshold: usize, n_signers: usize, sub: Submission)
    requires
        inv(st, threshold, n_signers),
        sub.index < n_signers,
    ensures
        course_of(st, threshold, n_signers, sub) == Course::Completes ==> action(
            st,
            threshold,
            n_signers,
            sub.index,
            sub.signature_share,
            sub.nonce,
            sub.share_valid,
        ) is Combine,
        !counts(st, threshold, n_signers, sub) ==> after(st, threshold, n_signers, sub) == st,
        counts(st, threshold, n_signers, sub) && course_of(st, threshold, n_signers, sub)
            != Course::Completes ==> weight(after(st, threshold, n_signers, sub), threshold)
            > weight(st, threshold),
{
    let next = after(st, threshold, n_signers, sub);
    match course_of(st, threshold, n_signers, sub) {
        Course::Unsolicited | Course::MissingShare | Course::InvalidShare => {
            if !st.responsive.contains(sub.index) {
                assert(st.responsive.remove(sub.index) =~= st.responsive);
            }
        },
        Course::Joins => {
            let taken = joined(st, threshold, sub.index, sub.signature_share, sub.nonce);
            lemma_joined_structure(
                st,
                threshold,
                n_signers,
                sub.index,
                sub.signature_share,
                sub.nonce,
                sub.share_valid,
            );
            if taken.responsive.len() >= threshold {
                lemma_opened_inv(taken, threshold, n_signers);
                assert(threshold * (st.counter + 1) == threshold * st.counter + threshold)
                    by (nonlinear_arith);
            }
        },
        _ => {},
    }
}

/// No state weighs more than the limit.
pub proof fn law_weight_limit(st: StateModel, threshold: usize, n_signers: usize)
    requires
        inv(st, threshold, n_signers),
    ensures
        weight(st, threshold) < weight_limit(threshold, n_signers),
{
    let all = usize::range_set(0, n_signers);
    usize::range_properties(0, n_signers);
    lemma_len_subset(st.malicious, all);
    assert(threshold * st.counter <= threshold * (n_signers - threshold + 1)) by (nonlinear_arith)
        requires
            st.counter <= n_signers - threshold + 1,
            threshold >= 0,
    ;
}

/// A run keeps the invariant.
pub proof fn lemma_run_inv(
    st: StateModel,
    threshold: usize,
    n_signers: usize,
    subs: Seq<Submission>,
)
    requires
        inv(st, threshold, n_signers),
        from_signers(subs, n_signers),
    ensures
        inv(run(st, threshold, n_signers, subs), threshold, n_signers),
    decreases subs.len(),
{
    if subs.len() > 0 {
        lemma_run_inv(st, threshold, n_signers, subs.drop_last());
        let before = run(st, threshold, n_signers, subs.drop_last());
        let sub = subs.last();
        lemma_step_inv(
            before,
            threshold,
            n_signers,
            sub.index,
            sub.signature_share,
            sub.nonce,
            sub.share_valid,
        );
    }
}

/// In a run in which no session is completed, the weight grows by at least
/// the number of submissions that count. So fewer than
/// `weight_limit(threshold, n_signers)` submissions count before a session is
/// complete.
pub proof fn law_bounded_progress(
    st: StateModel,
    threshold: usize,
    n_signers: usize,
    subs: Seq<Submission>,
)
    requires
        inv(st, threshold, n_signers),
        from_signers(subs, n_signers),
        !signed(st, threshold, n_signers, subs),
    ensures
        weight(st, threshold) + counted(st, threshold, n_signers, subs) <= weight(
            run(st, threshold, n_signers, subs),
            threshold,
        ),
        counted(st, threshold, n_signers, subs) < weight_limit(threshold, n_signers),
    decreases subs.len(),
{
    lemma_run_inv(st, threshold, n_signers, subs);
    law_weight_limit(run(st, threshold, n_signers, subs), threshold, n_signers);
    if subs.len() > 0 {
        let rest = subs.drop_last();
        law_bounded_progress(st, threshold, n_signers, rest);
        lemma_run_inv(st, threshold, n_signers, rest);
        law_progress(run(st, threshold, n_signers, rest), threshold, n_signers, subs.last());
    }
}

/// What an honest signer submits: nothing while its nonce is waiting, and a
/// valid share where it owes one.
pub open spec fn in_turn(st: StateModel, sub: Submission) -> bool {
    &&& !st.responsive.contains(sub.index)
    &&& st.bindings.contains_key(sub.index) ==> sub.signature_share is Some && sub.share_valid
}

/// Every submission of `subs` that comes from a signer of `honest` is in turn.
pub open spec fn honest_in_turn(
    st: StateModel,
    threshold: usize,
    n_signers: usize,
    subs: Seq<Submission>,
    honest: Set<usize>,
) -> bool
    decreases subs.len(),
{
    subs.len() == 0 || (honest_in_turn(st, threshold, n_signers, subs.drop_last(), honest) && (
    honest.contains(subs.last().index) ==> in_turn(
        run(st, threshold, n_signers, subs.drop_last()),
        subs.last(),
    )))
}

/// The number of submissions of `subs` that come from a signer of `honest`.
pub open spec fn from_honest(subs: Seq<Submission>, honest: Set<usize>) -> nat
    decreases subs.len(),
{
    if subs.len() == 0 {
        0
    } else {
        from_honest(subs.drop_last(), honest) + if honest.contains(subs.last().index) {
            1nat
        } else {
            0nat
        }
    }
}

/// `honest` are at least `threshold` signers, none of them banned.
pub open spec fn honest_core(
    st: StateModel,
    threshold: usize,
    n_signers: usize,
    honest: Set<usize>,
) -> bool {
    &&& honest.finite()
    &&& honest.len() >= threshold
    &&& forall|i: usize| honest.contains(i) ==> i < n_signers
    &&& honest.disjoint(st.malicious)
}

/// While `threshold` honest signers are not banned, the coordinator has not
/// given up.
pub proof fn lemma_honest_floor(
    st: StateModel,
    threshold: usize,
    n_signers: usize,
    honest: Set<usize>,
)
    requires
        inv(st, threshold, n_signers),
        honest_core(st, threshold, n_signers, honest),
    ensures
        !floor_breached(st, threshold, n_signers),
{
    let all = usize::range_set(0, n_signers);
    usize::range_properties(0, n_signers);
    lemma_set_disjoint_lens(honest, st.malicious);
    lemma_len_subset(honest.union(st.malicious), all);
}

/// A submission in turn of an honest signer counts, and no submission has
/// another signer banned than the one it comes from. So honest signers are
/// never banned.
pub proof fn law_honest_never_banned(
    st: StateModel,
    threshold: usize,
    n_signers: usize,
    sub: Submission,
    honest: Set<usize>,
)
    requires
        inv(st, threshold, n_signers),
        sub.index < n_signers,
        honest_core(st, threshold, n_signers, honest),
        honest.contains(sub.index) ==> in_turn(st, sub),
    ensures
        honest_core(after(st, threshold, n_signers, sub), threshold, n_signers, honest),
        honest.contains(sub.index) ==> counts(st, threshold, n_signers, sub),
{
    lemma_honest_floor(st, threshold, n_signers, honest);
    if course_of(st, threshold, n_signers, sub) == Course::Joins {
        lemma_joined_structure(
            st,
            threshold,
            n_signers,
            sub.index,
            sub.signature_share,
            sub.nonce,
            sub.share_valid,
        );
    }
}

/// As long as `threshold` signers are honest, one of them has no nonce
/// waiting: it has a submission to make.
pub proof fn law_honest_can_submit(
    st: StateModel,
    threshold: usize,
    n_signers: usize,
    honest: Set<usize>,
) -> (i: usize)
    requires
        inv(st, threshold, n_signers),
        honest_core(st, threshold, n_signers, honest),
    ensures
        honest.contains(i),
        !st.malicious.contains(i),
        !st.responsive.contains(i),
{
    if honest.subset_of(st.responsive) {
        lemma_len_subset(honest, st.responsive);
        assert(false);
    }
    choose|i: usize| honest.contains(i) && !st.responsive.contains(i)
}

/// In a run in which every submission of an honest signer is in turn, with
/// at least `threshold` honest signers, no honest signer is banned and the
/// coordinator does not give up; and if no session is completed in it, the
/// honest signers have made fewer than `weight_limit(threshold, n_signers)`
/// submissions, whatever the other signers did in between.
pub proof fn law_honest_progress(
    st: StateModel,
    threshold: usize,
    n_signers: usize,
    subs: Seq<Submission>,
    honest: Set<usize>,
)
    requires
        inv(st, threshold, n_signers),
        from_signers(subs, n_signers),
        honest_core(st, threshold, n_signers, honest),
        honest_in_turn(st, threshold, n_signers, subs, honest),
    ensures
        honest_core(run(st, threshold, n_signers, subs), threshold, n_signers, honest),
        !floor_breached(run(st, threshold, n_signers, subs), threshold, n_signers),
        from_honest(subs, honest) <= counted(st, threshold, n_signers, subs),
        !signed(st, threshold, n_signers, subs) ==> from_honest(subs, honest) < weight_limit(
            threshold,
            n_signers,
        ),
    decreases subs.len(),
{
    if subs.len() > 0 {
        let rest = subs.drop_last();
        law_honest_progress(st, threshold, n_signers, rest, honest);
        lemma_run_inv(st, threshold, n_signers, rest);
        law_honest_never_banned(
            run(st, threshold, n_signers, rest),
            threshold,
            n_signers,
            subs.last(),
            honest,
        );
    }
    lemma_run_inv(st, threshold, n_signers, subs);
    lemma_honest_floor(run(st, threshold, n_signers, subs), threshold, n_signers, honest);
    if !signed(st, threshold, n_signers, subs) {
        law_bounded_progress(st, threshold, n_signers, subs);
    }
}

} // verus!
