use core::num::NonZeroU32;

use proptest::test_runner::{RngAlgorithm, TestRng};
use rand::seq::SliceRandom;
use rand::RngCore;
use roast::coordinator::{send_signature, Coordinator, RoastError};
use roast::frost::{frost_coordinator, FrostScheme, XOnlyFrostKey};
use roast::signer::{sign, RoastSigner};
use schnorr_fun::binonce::{Nonce, NonceKeyPair};
use schnorr_fun::frost::{Frost, FrostKey};
use schnorr_fun::nonce::Deterministic;
use schnorr_fun::{Message, Signature};
use secp256kfun::marker::{EvenY, Public, Zero};
use secp256kfun::Scalar;
use sha2::Sha256;

type Sha256Frost = Frost<Sha256, Deterministic<Sha256>>;
type Signer<'a> = RoastSigner<'a, FrostScheme, XOnlyFrostKey>;

fn scheme() -> FrostScheme {
    FrostScheme { frost: Sha256Frost::default() }
}

fn joint(key: &FrostKey<EvenY>) -> XOnlyFrostKey {
    XOnlyFrostKey { key: key.clone() }
}

fn keygen(
    threshold: usize,
    n_parties: usize,
    rng: &mut impl RngCore,
) -> (FrostKey<EvenY>, Vec<Scalar>) {
    let frost = Sha256Frost::default();
    let (frost_key, shares) = frost.simulate_keygen(threshold, n_parties, rng);
    let secret_shares = (0..n_parties)
        .map(|i| {
            let party = Scalar::from_non_zero_u32(NonZeroU32::new(i as u32 + 1).unwrap());
            shares.get(&party.public()).expect("a share for every party").clone()
        })
        .collect();
    (frost_key.into_xonly_key(), secret_shares)
}

fn verifies(key: &FrostKey<EvenY>, message: Message<'_, Public>, signature: &Signature) -> bool {
    Sha256Frost::default().schnorr.verify(&key.public_key(), message, signature)
}

fn bogus_share(rng: &mut impl RngCore) -> Scalar<Public, Zero> {
    Scalar::random(rng).mark_zero().public()
}

/// A coordinator for `threshold` of `n_parties`, and the signers with their
/// first nonces.
fn setup<'a>(
    threshold: usize,
    n_parties: usize,
    message: Message<'a, Public>,
) -> (
    FrostKey<EvenY>,
    Coordinator<'a, FrostScheme, XOnlyFrostKey>,
    Vec<Signer<'a>>,
    Vec<Nonce>,
) {
    let mut rng = rand::thread_rng();
    let (key, secret_shares) = keygen(threshold, n_parties, &mut rng);
    let roast = Coordinator::new(scheme(), joint(&key), message, threshold, n_parties);
    let (signers, nonces) = secret_shares
        .into_iter()
        .enumerate()
        .map(|(i, share)| RoastSigner::new(&mut rng, scheme(), joint(&key), i, share, message))
        .unzip();
    (key, roast, signers, nonces)
}

#[test]
fn happy_path_2_of_3() {
    let mut rng = rand::thread_rng();
    let message = Message::plain("test", b"test");
    let (key, mut roast, mut signers, nonces) = setup(2, 3, message);

    let reply = roast.receive(0, None, nonces[0]).unwrap();
    assert_eq!(reply.recipients, vec![0]);
    assert!(reply.nonce_set.is_none());
    assert!(reply.combined_signature.is_none());
    assert!(roast.state().is_responsive(0));

    let reply = roast.receive(1, None, nonces[1]).unwrap();
    assert_eq!(reply.recipients, vec![0, 1]);
    assert_eq!(reply.nonce_set, Some(vec![(0, nonces[0]), (1, nonces[1])]));
    assert!(reply.combined_signature.is_none());
    assert_eq!(roast.state().n_sessions(), 1);
    assert_eq!(roast.state().bound_session(0), Some(1));
    assert_eq!(roast.state().bound_session(1), Some(1));
    assert_eq!(roast.state().bound_session(2), None);
    assert!(!roast.state().is_responsive(0));
    assert!(!roast.state().is_responsive(1));
    let nonce_set = reply.nonce_set.unwrap();

    let (share1, next1) = signers[1].sign(&mut rng, nonce_set.clone());
    let reply = roast.receive(1, Some(share1), next1).unwrap();
    assert_eq!(reply.recipients, vec![1]);
    assert!(reply.combined_signature.is_none());
    assert!(reply.nonce_set.is_none());
    assert_eq!(roast.state().n_shares(1), Some(1));
    assert_eq!(roast.state().bound_session(1), None);
    assert!(roast.state().is_responsive(1));

    let (share0, next0) = signers[0].sign(&mut rng, nonce_set);
    let reply = roast.receive(0, Some(share0), next0).unwrap();
    assert_eq!(reply.recipients, vec![0, 1, 2]);
    assert!(reply.nonce_set.is_none());
    assert_eq!(roast.state().n_shares(1), Some(2));
    // the signer whose share completed the session stays bound to it
    assert_eq!(roast.state().bound_session(0), Some(1));
    assert!(!roast.state().is_responsive(0));
    let signature = reply.combined_signature.expect("the session is complete");
    assert!(verifies(&key, message, &signature));
    assert_eq!(roast.state().n_malicious(), 0);
}

#[test]
fn signature_is_for_the_message() {
    let mut rng = rand::thread_rng();
    let message = Message::plain("test", b"test");
    let (key, mut roast, mut signers, nonces) = setup(2, 2, message);
    roast.receive(0, None, nonces[0]).unwrap();
    let nonce_set = roast.receive(1, None, nonces[1]).unwrap().nonce_set.unwrap();
    let (share0, next0) = signers[0].sign(&mut rng, nonce_set.clone());
    roast.receive(0, Some(share0), next0).unwrap();
    let (share1, next1) = signers[1].sign(&mut rng, nonce_set);
    let signature = roast.receive(1, Some(share1), next1).unwrap().combined_signature.unwrap();
    assert!(verifies(&key, message, &signature));
    assert!(!verifies(&key, Message::plain("test", b"other"), &signature));
}

#[test]
fn unsolicited_reply_banned() {
    let mut rng = rand::thread_rng();
    let message = Message::plain("test", b"test");
    let (_key, mut roast, mut signers, nonces) = setup(2, 3, message);

    roast.receive(0, None, nonces[0]).unwrap();
    assert_eq!(roast.state().n_malicious(), 0);
    let again = signers[0].new_nonce(&mut rng).public();
    let reply = roast.receive(0, None, again).unwrap();
    assert_eq!(reply.recipients, vec![0]);
    assert!(reply.nonce_set.is_none());
    assert!(reply.combined_signature.is_none());
    assert!(roast.state().is_malicious(0));
    assert!(!roast.state().is_responsive(0));
    assert_eq!(roast.state().n_malicious(), 1);
    assert_eq!(roast.state().n_sessions(), 0);

    // what the banned signer sends from now on changes nothing
    let more = signers[0].new_nonce(&mut rng).public();
    let reply = roast.receive(0, None, more).unwrap();
    assert_eq!(reply.recipients, vec![0]);
    assert_eq!(roast.state().n_malicious(), 1);
    assert_eq!(roast.state().n_sessions(), 0);
    assert!(!roast.state().is_responsive(0));

    let reply = roast.receive(1, None, nonces[1]).unwrap();
    assert!(reply.nonce_set.is_none());
    let reply = roast.receive(2, None, nonces[2]).unwrap();
    assert_eq!(reply.recipients, vec![1, 2]);
    assert_eq!(reply.nonce_set, Some(vec![(1, nonces[1]), (2, nonces[2])]));
    assert_eq!(roast.state().bound_session(0), None);
    assert_eq!(roast.state().bound_session(1), Some(1));
    assert_eq!(roast.state().bound_session(2), Some(1));
}

#[test]
fn invalid_share_banned() {
    let mut rng = rand::thread_rng();
    let message = Message::plain("test", b"test");
    let (key, mut roast, mut signers, nonces) = setup(2, 3, message);

    roast.receive(0, None, nonces[0]).unwrap();
    let first_set = roast.receive(1, None, nonces[1]).unwrap().nonce_set.unwrap();
    assert_eq!(first_set, vec![(0, nonces[0]), (1, nonces[1])]);

    let (_share0, next0) = signers[0].sign(&mut rng, first_set.clone());
    let reply = roast.receive(0, Some(bogus_share(&mut rng)), next0).unwrap();
    assert_eq!(reply.recipients, vec![0]);
    assert!(reply.nonce_set.is_none());
    assert!(reply.combined_signature.is_none());
    assert!(roast.state().is_malicious(0));
    assert_eq!(roast.state().n_shares(1), Some(0));

    let reply = roast.receive(2, None, nonces[2]).unwrap();
    assert!(reply.nonce_set.is_none());

    // signer 1 answers the first session, and is taken into the second
    let (share1, next1) = signers[1].sign(&mut rng, first_set);
    let reply = roast.receive(1, Some(share1), next1).unwrap();
    assert_eq!(roast.state().n_shares(1), Some(1));
    assert_eq!(reply.recipients, vec![1, 2]);
    let second_set = reply.nonce_set.expect("a second session");
    assert_eq!(second_set, vec![(1, next1), (2, nonces[2])]);
    assert_eq!(roast.state().n_sessions(), 2);

    let (share1, next1) = signers[1].sign(&mut rng, second_set.clone());
    let reply = roast.receive(1, Some(share1), next1).unwrap();
    assert!(reply.combined_signature.is_none());
    let (share2, next2) = signers[2].sign(&mut rng, second_set);
    let reply = roast.receive(2, Some(share2), next2).unwrap();
    assert_eq!(reply.recipients, vec![0, 1, 2]);
    assert!(verifies(&key, message, &reply.combined_signature.unwrap()));
    assert_eq!(roast.state().n_malicious(), 1);
}

#[test]
fn share_of_another_signer_banned() {
    let mut rng = rand::thread_rng();
    let message = Message::plain("test", b"test");
    let (_key, mut roast, mut signers, nonces) = setup(2, 3, message);
    roast.receive(0, None, nonces[0]).unwrap();
    let nonce_set = roast.receive(1, None, nonces[1]).unwrap().nonce_set.unwrap();
    // a share that is valid for signer 1 is not valid for signer 0
    let (share1, _next1) = signers[1].sign(&mut rng, nonce_set.clone());
    let (_share0, next0) = signers[0].sign(&mut rng, nonce_set);
    roast.receive(0, Some(share1), next0).unwrap();
    assert!(roast.state().is_malicious(0));
    assert_eq!(roast.state().n_shares(1), Some(0));
}

#[test]
fn missing_share_banned() {
    let mut rng = rand::thread_rng();
    let message = Message::plain("test", b"test");
    let (_key, mut roast, mut signers, nonces) = setup(2, 3, message);
    roast.receive(0, None, nonces[0]).unwrap();
    roast.receive(1, None, nonces[1]).unwrap();
    let fresh = signers[1].new_nonce(&mut rng).public();
    let reply = roast.receive(1, None, fresh).unwrap();
    assert_eq!(reply.recipients, vec![1]);
    assert!(reply.nonce_set.is_none());
    assert!(roast.state().is_malicious(1));
    assert!(!roast.state().is_responsive(1));
    assert_eq!(roast.state().n_shares(1), Some(0));
    // the banned signer stays bound to the session that it will never serve
    assert_eq!(roast.state().bound_session(1), Some(1));
}

#[test]
fn honesty_floor_breach() {
    let mut rng = rand::thread_rng();
    let message = Message::plain("test", b"test");
    let (_key, mut roast, mut signers, nonces) = setup(2, 3, message);

    roast.receive(0, None, nonces[0]).unwrap();
    let again = signers[0].new_nonce(&mut rng).public();
    assert!(roast.receive(0, None, again).is_ok());
    assert_eq!(roast.state().n_malicious(), 1);

    roast.receive(1, None, nonces[1]).unwrap();
    let again = signers[1].new_nonce(&mut rng).public();
    let failed = roast.receive(1, None, again);
    assert!(matches!(failed, Err(RoastError::TooFewHonest)));
    assert_eq!(roast.state().n_malicious(), 2);
    assert!(roast.state().is_malicious(1));

    // the coordinator has given up: whatever comes, it answers the same
    let failed = roast.receive(2, None, nonces[2]);
    assert!(matches!(failed, Err(RoastError::TooFewHonest)));
    assert!(!roast.state().is_responsive(2));
    assert_eq!(roast.state().n_malicious(), 2);
    assert_eq!(roast.state().n_sessions(), 0);
}

#[test]
fn error_in_words() {
    assert_eq!(RoastError::TooFewHonest.to_string(), "Too few honest signers");
    assert_eq!(RoastError::TooFewHonest, RoastError::TooFewHonest.clone());
}

#[test]
fn share_to_a_complete_session_is_not_stored() {
    let mut rng = rand::thread_rng();
    let message = Message::plain("test", b"test");
    let (key, mut roast, mut signers, nonces) = setup(2, 3, message);
    roast.receive(0, None, nonces[0]).unwrap();
    let nonce_set = roast.receive(1, None, nonces[1]).unwrap().nonce_set.unwrap();
    let (share0, next0) = signers[0].sign(&mut rng, nonce_set.clone());
    roast.receive(0, Some(share0), next0).unwrap();
    let (share1, next1) = signers[1].sign(&mut rng, nonce_set);
    let first = roast.receive(1, Some(share1), next1).unwrap().combined_signature.unwrap();
    assert_eq!(roast.state().n_shares(1), Some(2));

    // the same share again: the session keeps its two shares, and the
    // signature is announced once more
    let reply = roast.receive(1, Some(share1), next1).unwrap();
    assert_eq!(reply.recipients, vec![0, 1, 2]);
    assert_eq!(roast.state().n_shares(1), Some(2));
    let second = reply.combined_signature.unwrap();
    assert!(first == second);
    assert!(verifies(&key, message, &second));
    assert_eq!(roast.state().n_malicious(), 0);
}

#[test]
fn share_of_an_unbound_signer_is_ignored() {
    let mut rng = rand::thread_rng();
    let message = Message::plain("test", b"test");
    let (_key, mut roast, _signers, nonces) = setup(2, 3, message);
    let reply = roast.receive(2, Some(bogus_share(&mut rng)), nonces[2]).unwrap();
    assert_eq!(reply.recipients, vec![2]);
    assert!(roast.state().is_responsive(2));
    assert_eq!(roast.state().n_malicious(), 0);
}

#[test]
fn one_of_one() {
    let mut rng = rand::thread_rng();
    let message = Message::plain("test", b"test");
    let (key, mut roast, mut signers, nonces) = setup(1, 1, message);
    let reply = roast.receive(0, None, nonces[0]).unwrap();
    assert_eq!(reply.recipients, vec![0]);
    assert_eq!(reply.nonce_set, Some(vec![(0, nonces[0])]));
    let (share, next) = signers[0].sign(&mut rng, reply.nonce_set.unwrap());
    let reply = roast.receive(0, Some(share), next).unwrap();
    assert_eq!(reply.recipients, vec![0]);
    assert!(verifies(&key, message, &reply.combined_signature.unwrap()));
}

#[test]
fn nonce_set_takes_the_latest_nonces_by_ascending_index() {
    let message = Message::plain("test", b"test");
    let (_key, mut roast, _signers, nonces) = setup(3, 5, message);
    roast.receive(4, None, nonces[4]).unwrap();
    roast.receive(1, None, nonces[1]).unwrap();
    let reply = roast.receive(3, None, nonces[3]).unwrap();
    assert_eq!(reply.recipients, vec![1, 3, 4]);
    assert_eq!(
        reply.nonce_set,
        Some(vec![(1, nonces[1]), (3, nonces[3]), (4, nonces[4])])
    );
    assert_eq!(roast.state().n_sessions(), 1);
    assert!(!roast.state().is_responsive(4));
}

#[test]
fn send_signature_knows_the_signers() {
    let message = Message::plain("test", b"test");
    let (_key, mut roast, _signers, nonces) = setup(2, 3, message);
    assert!(send_signature(&mut roast, 3, None, nonces[0]).is_none());
    assert!(send_signature(&mut roast, usize::MAX, None, nonces[0]).is_none());
    assert!(!roast.state().is_responsive(0));
    let reply = send_signature(&mut roast, 2, None, nonces[2]).expect("a signer").unwrap();
    assert_eq!(reply.recipients, vec![2]);
    assert!(roast.state().is_responsive(2));
    assert_eq!(roast.threshold(), 2);
    assert_eq!(roast.n_signers(), 3);
}

#[test]
fn frost_coordinator_checks_the_key() {
    let message = Message::plain("test", b"test");
    let (key, _) = keygen(2, 3, &mut rand::thread_rng());
    assert!(frost_coordinator(scheme(), joint(&key), message, 2, 3).is_some());
    assert!(frost_coordinator(scheme(), joint(&key), message, 3, 3).is_some());
    // one share does not make a signature under a key that asks for two
    assert!(frost_coordinator(scheme(), joint(&key), message, 1, 3).is_none());
    assert!(frost_coordinator(scheme(), joint(&key), message, 0, 3).is_none());
    assert!(frost_coordinator(scheme(), joint(&key), message, 4, 3).is_none());
    let roast = frost_coordinator(scheme(), joint(&key), message, 2, 3).unwrap();
    assert_eq!(roast.threshold(), 2);
    assert_eq!(roast.n_signers(), 3);
    assert_eq!(roast.state().n_sessions(), 0);
}

#[test]
fn signer_signs_only_with_its_own_latest_nonce() {
    let mut rng = rand::thread_rng();
    let message = Message::plain("test", b"test");
    let (key, mut roast, mut signers, nonces) = setup(2, 3, message);
    roast.receive(0, None, nonces[0]).unwrap();
    let nonce_set = roast.receive(1, None, nonces[1]).unwrap().nonce_set.unwrap();

    assert!(signers[0].ready_for(&nonce_set));
    // signer 2 has no nonce in the set
    assert!(!signers[2].ready_for(&nonce_set));
    assert!(sign(&mut signers[2], &mut rng, nonce_set.clone()).is_none());
    // one nonce is too few for a key that asks for two
    assert!(!signers[0].ready_for(&vec![(0, nonces[0])]));
    // no signer twice
    assert!(!signers[0].ready_for(&vec![(0, nonces[0]), (0, nonces[0])]));
    // the nonce of another signer under this signer's index
    assert!(!signers[0].ready_for(&vec![(0, nonces[1]), (1, nonces[1])]));

    let (share0, next0) = sign(&mut signers[0], &mut rng, nonce_set.clone()).expect("ready");
    // the nonce that the signer signed with is gone
    assert!(!signers[0].ready_for(&nonce_set));
    assert!(sign(&mut signers[0], &mut rng, nonce_set.clone()).is_none());
    // and the one it returned is in its place
    assert!(signers[0].ready_for(&vec![(0, next0), (1, nonces[1])]));
    roast.receive(0, Some(share0), next0).unwrap();

    // a nonce made in between takes the place of the one in the set
    let stray = Scalar::random(&mut rng);
    let mut other: Signer =
        RoastSigner::new(&mut rng, scheme(), joint(&key), 1, stray, message).0;
    let made: NonceKeyPair = other.new_nonce(&mut rng);
    assert!(other.ready_for(&vec![(0, nonces[0]), (1, made.public())]));
    assert!(!other.ready_for(&nonce_set));

    let (share1, next1) = sign(&mut signers[1], &mut rng, nonce_set).expect("ready");
    let reply = roast.receive(1, Some(share1), next1).unwrap();
    assert!(verifies(&key, message, &reply.combined_signature.unwrap()));
}

#[test]
fn signer_starts_with_the_nonce_it_returns() {
    let mut rng = rand::thread_rng();
    let message = Message::plain("test", b"test");
    let (key, secret_shares) = keygen(2, 2, &mut rng);
    let (first, nonce0): (Signer, Nonce) =
        RoastSigner::new(&mut rng, scheme(), joint(&key), 0, secret_shares[0].clone(), message);
    let (_, nonce1): (Signer, Nonce) =
        RoastSigner::new(&mut rng, scheme(), joint(&key), 1, secret_shares[1].clone(), message);
    assert!(nonce0 != nonce1);
    assert!(first.ready_for(&vec![(0, nonce0), (1, nonce1)]));
    assert!(!first.ready_for(&vec![(0, nonce1), (1, nonce0)]));
}

// The signers take turns, one after another, until the signature is there.
fn t_of_n_sequential(threshold: usize, n_parties: usize, n_malicious: usize, rng: &mut TestRng) {
    let (xonly_frost_key, secret_shares) = keygen(threshold, n_parties, &mut rand::thread_rng());
    let message = Message::plain("test", b"test");
    let mut roast =
        Coordinator::new(scheme(), joint(&xonly_frost_key), message, threshold, n_parties);

    let mut malicious_mask = vec![true; n_malicious];
    malicious_mask.append(&mut vec![false; n_parties - n_malicious]);
    malicious_mask.shuffle(rng);

    let (mut signers, _nonces): (Vec<Signer>, Vec<Nonce>) = secret_shares
        .into_iter()
        .enumerate()
        .map(|(i, secret_share)| {
            RoastSigner::new(rng, scheme(), joint(&xonly_frost_key), i, secret_share, message)
        })
        .unzip();

    let mut nonce_set: Vec<Option<Vec<(usize, Nonce)>>> = vec![None; n_parties + 1];
    let mut finished_signature = None;
    let mut n_rounds = 0;

    while finished_signature.is_none() {
        n_rounds += 1;
        assert!(n_rounds <= 4 * n_parties + 4);
        for signer_index in 0..n_parties {
            let (sig, new_nonce) = match nonce_set[signer_index].clone() {
                Some(signing_nonces) => {
                    let (mut sig, nonce) = signers[signer_index].sign(rng, signing_nonces);
                    if malicious_mask[signer_index] {
                        sig = bogus_share(rng);
                    }
                    (Some(sig), nonce)
                }
                None => (None, signers[signer_index].new_nonce(rng).public()),
            };
            let response = roast.receive(signer_index, sig, new_nonce).unwrap();
            assert!(roast.state().n_malicious() <= n_parties - threshold);
            assert!(roast.state().n_sessions() <= n_parties - threshold + 1);

            if response.combined_signature.is_some() {
                assert_eq!(response.recipients, (0..n_parties).collect::<Vec<_>>());
                finished_signature = response.combined_signature;
                break;
            }
            if let Some(nonces) = &response.nonce_set {
                assert_eq!(nonces.len(), threshold);
                assert!(nonces.iter().all(|(index, _)| *index < n_parties));
                assert!(nonces.windows(2).all(|pair| pair[0].0 < pair[1].0));
                let members: Vec<usize> = nonces.iter().map(|(index, _)| *index).collect();
                assert_eq!(members, response.recipients);
            }
            for index in response.recipients {
                nonce_set[index] = response.nonce_set.clone();
            }
        }
    }
    assert!(verifies(&xonly_frost_key, message, &finished_signature.unwrap()));
}

#[test]
fn t_of_n_no_malicious() {
    for n_parties in 2..=5 {
        for threshold in 2..=n_parties {
            let mut rng = TestRng::deterministic_rng(RngAlgorithm::ChaCha);
            t_of_n_sequential(threshold, n_parties, 0, &mut rng);
        }
    }
}

#[test]
fn t_of_n_with_malicious() {
    for n_parties in 2..=5 {
        for threshold in 2..=n_parties {
            for n_malicious in 0..=(n_parties - threshold) {
                let mut rng = TestRng::deterministic_rng(RngAlgorithm::ChaCha);
                t_of_n_sequential(threshold, n_parties, n_malicious, &mut rng);
            }
        }
    }
}
