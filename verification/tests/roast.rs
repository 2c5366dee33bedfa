use core::num::NonZeroU32;

use proptest::test_runner::{RngAlgorithm, TestRng};
use rand::seq::SliceRandom;
use rand::RngCore;
use roast::coordinator::Coordinator;
use roast::frost::{FrostScheme, XOnlyFrostKey};
use roast::signer::RoastSigner;
use schnorr_fun::binonce::Nonce;
use schnorr_fun::frost::{Frost, FrostKey};
use schnorr_fun::nonce::Deterministic;
use schnorr_fun::{Message, Signature};
use secp256kfun::marker::{EvenY, Public};
use secp256kfun::Scalar;
use sha2::Sha256;

type Sha256Frost = Frost<Sha256, Deterministic<Sha256>>;

fn scheme() -> FrostScheme {
    FrostScheme { frost: Sha256Frost::default() }
}

fn joint(key: &FrostKey<EvenY>) -> XOnlyFrostKey {
    XOnlyFrostKey { key: key.clone() }
}

/// A simulated key generation: the joint key, and the secret share of each
/// signer by its index.
fn keygen(
    threshold: usize,
    n_parties: usize,
    rng: &mut impl RngCore,
) -> (FrostKey<EvenY>, Vec<Scalar>) {
    let frost = Sha256Frost::default();
    let (frost_key, shares) = frost.simulate_keygen(threshold, n_parties, rng);
    let secret_shares = (0..n_parties)
        .map(|i| {
            let party = Scalar::from_non_zero_u32(NonZeroU32::new(i as u32 + 1).unwrap());
            shares.get(&party.public()).expect("a share for every party").clone()
        })
        .collect();
    (frost_key.into_xonly_key(), secret_shares)
}

fn verifies(key: &FrostKey<EvenY>, message: Message<'_, Public>, signature: &Signature) -> bool {
    Sha256Frost::default().schnorr.verify(&key.public_key(), message, signature)
}

#[test]
fn test_2_of_3_basic() {
    let mut rng = rand::thread_rng();

    let (xonly_frost_key, secret_shares) = keygen(2, 3, &mut rng);

    let message = Message::plain("test", b"test");
    let mut roast = Coordinator::new(scheme(), joint(&xonly_frost_key), message, 2, 3);

    // Create each signer session and create an initial nonce
    let (mut signer1, nonce1) = RoastSigner::new(
        &mut rng,
        scheme(),
        joint(&xonly_frost_key),
        0,
        secret_shares[0].clone(),
        message,
    );
    let (mut signer2, nonce2) = RoastSigner::new(
        &mut rng,
        scheme(),
        joint(&xonly_frost_key),
        1,
        secret_shares[1].clone(),
        message,
    );

    // Begin with each signer sending a nonce to ROAST, marking these signers as responsive.
    let response = roast.receive(0, None, nonce1).unwrap();
    assert!(response.nonce_set.is_none());
    assert!(response.combined_signature.is_none());

    let response2 = roast.receive(1, None, nonce2).unwrap();
    assert!(response2.nonce_set.is_some());

    // Once ROAST receives the threshold number of nonces, it responds to the group of
    // responsive signers with a nonce set to the group of responsive signers.
    assert!(response2.recipients.contains(&0) && response2.recipients.contains(&1));
    let sign_session_nonces = response2.nonce_set.expect("roast responded with nonces");

    // The signer signs using this the nonces for this sign session,
    // and responds to ROAST with a signature share.
    let (sig_share2, nonce2) = signer2.sign(&mut rng, sign_session_nonces.clone());
    let response = roast.receive(1, Some(sig_share2), nonce2).unwrap();
    assert!(response.combined_signature.is_none());

    // ROAST also sends the nonce set to the other signer, who also signs
    let (sig_share1, nonce1) = signer1.sign(&mut rng, sign_session_nonces);

    let response = roast.receive(0, Some(sig_share1), nonce1).unwrap();
    assert!(response.combined_signature.is_some());

    // Once the threshold number of signature shares have been received,
    // ROAST combines the signature shares into the aggregate signature
    let signature = response.combined_signature.unwrap();
    assert!(verifies(&xonly_frost_key, message, &signature));
}

#[test]
fn main_test_2_of_3_sequential() {
    let (xonly_frost_key, secret_shares) = keygen(2, 3, &mut rand::thread_rng());

    let message = Message::plain("test", b"test");
    let mut roast = Coordinator::new(scheme(), joint(&xonly_frost_key), message, 2, 3);
    let mut rng1 = rand::thread_rng();
    let mut rng2 = rand::thread_rng();

    // Create each signer session and create an initial nonce
    let (mut signer1, nonce1) = RoastSigner::new(
        &mut rng1,
        scheme(),
        joint(&xonly_frost_key),
        0,
        secret_shares[0].clone(),
        message,
    );
    let (mut signer2, nonce2) = RoastSigner::new(
        &mut rng2,
        scheme(),
        joint(&xonly_frost_key),
        1,
        secret_shares[1].clone(),
        message,
    );

    // Begin with each signer sending a nonce to ROAST, marking these signers as responsive.
    let response = roast.receive(0, None, nonce1).unwrap();
    assert!(response.nonce_set.is_none());
    assert!(response.combined_signature.is_none());

    let response2 = roast.receive(1, None, nonce2).unwrap();
    assert!(response2.nonce_set.is_some());

    // Once ROAST receives the threshold number of nonces, it responds to the group of
    // responsive signers with a nonce set to the group of responsive signers.
    assert!(response2.recipients.contains(&0) && response2.recipients.contains(&1));
    let sign_session_nonces = response2.nonce_set.expect("roast responded with nonces");

    // The signer signs using this the nonces for this sign session,
    // and responds to ROAST with a signature share.
    let (sig_share2, nonce2) = signer2.sign(&mut rng2, sign_session_nonces.clone());
    let response = roast.receive(1, Some(sig_share2), nonce2).unwrap();
    assert!(response.combined_signature.is_none());

    // ROAST also sends the nonce set to the other signer, who also signs
    let (sig_share1, nonce1) = signer1.sign(&mut rng1, sign_session_nonces);

    let response = roast.receive(0, Some(sig_share1), nonce1).unwrap();
    assert!(response.combined_signature.is_some());
}

// This works, but slowly since it goes through a few sets of responsive signers
// before producing a complete signature: the signers take turns, one after another.
fn t_of_n_sequential(threshold: usize, n_parties: usize, n_malicious: usize, rng: &mut TestRng) {
    println!("Testing {}-of-{} with {} malicious:", threshold, n_parties, n_malicious);
    let (xonly_frost_key, secret_shares) = keygen(threshold, n_parties, &mut rand::thread_rng());

    let message = Message::plain("test", b"test");
    let mut roast =
        Coordinator::new(scheme(), joint(&xonly_frost_key), message, threshold, n_parties);

    // use a boolean mask for which participants are malicious
    let mut malicious_mask = vec![true; n_malicious];
    malicious_mask.append(&mut vec![false; n_parties - n_malicious]);
    // shuffle the mask for random signers
    malicious_mask.shuffle(rng);

    let malicious_indexes: Vec<_> = malicious_mask
        .iter()
        .enumerate()
        .filter(|(_, is_signer)| **is_signer)
        .map(|(i, _)| i)
        .collect();

    // Create each signer session and create an initial nonce
    let (mut signers, mut nonces): (Vec<_>, Vec<_>) = secret_shares
        .into_iter()
        .enumerate()
        .map(|(i, secret_share)| {
            RoastSigner::new(rng, scheme(), joint(&xonly_frost_key), i, secret_share, message)
        })
        .unzip();

    let mut sig_shares = vec![];
    let mut nonce_set: Vec<Option<Vec<(usize, Nonce)>>> = vec![None; n_parties + 1];
    let mut finished_signature = None;
    let mut n_rounds = 0;

    while finished_signature.is_none() {
        n_rounds += 1;
        for signer_index in 0..n_parties {
            // Check to see if this signer has recieved any nonces
            let (sig, new_nonce) = match nonce_set[signer_index].clone() {
                // If the signer has a nonce shared, sign and send sig as well as a new nonce
                Some(signing_nonces) => {
                    let (mut sig, nonce) = signers[signer_index].sign(rng, signing_nonces);
                    // If we are malcious, send a bogus signature to disrupt signing process
                    if malicious_indexes.contains(&signer_index) {
                        sig = Scalar::random(rng).mark_zero().public();
                    }
                    (Some(sig), nonce)
                }
                // Otherwise, just create a new nonce
                None => (None, signers[signer_index].new_nonce(rng).public()),
            };
            // Send signature and our next nonce to ROAST
            let response = roast.receive(signer_index, sig, new_nonce).unwrap();
            nonces[signer_index] = new_nonce;

            if response.combined_signature.is_some() {
                finished_signature = response.combined_signature;
                break;
            }

            for index in response.recipients {
                nonce_set[index] = response.nonce_set.clone();
            }

            if sig.is_some() {
                sig_shares.push(sig);
            }
        }
    }
    println!("finished in {} rounds", n_rounds);
    assert!(finished_signature.is_some());
    assert!(verifies(&xonly_frost_key, message, &finished_signature.unwrap()));
}

#[test]
fn roast_5_of_10_5_malicious() {
    let mut rng = TestRng::deterministic_rng(RngAlgorithm::ChaCha);
    t_of_n_sequential(5, 10, 5, &mut rng);
}
