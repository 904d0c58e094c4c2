use std::cmp::Ordering;

use sha2::{Digest, Sha256};

use rps_commit::hand::Hand;
use rps_commit::hex::bytes_to_hex;
use rps_commit::registry::{Registry, SubmitError};
use rps_commit::round::verify_commitment;

fn hand_that_beats(computer: Hand) -> Hand {
    match computer {
        Hand::Rock => Hand::Paper,
        Hand::Paper => Hand::Scissors,
        Hand::Scissors => Hand::Rock,
    }
}

#[test]
fn login_creates_a_fresh_session() {
    let mut registry = Registry::new();
    let user_id = registry.login("alice".to_string());
    assert_eq!(user_id.len(), 32);
    let session = registry.get(&user_id).expect("session must exist");
    assert_eq!(session.user_name, "alice");
    assert_eq!(
        (session.win_count, session.tie_count, session.loss_count),
        (0, 0, 0)
    );
    assert!(session.last_round.is_none());
}

#[test]
fn authenticate_checks_id_and_name() {
    let mut registry = Registry::new();
    let user_id = registry.login("alice".to_string());
    assert!(registry.authenticate(&user_id, &"alice".to_string()));
    assert!(!registry.authenticate(&user_id, &"bob".to_string()));
    assert!(!registry.authenticate(&"0000".to_string(), &"alice".to_string()));
}

#[test]
fn logout_removes_the_session() {
    let mut registry = Registry::new();
    let user_id = registry.login("alice".to_string());
    registry.logout(&user_id);
    assert!(registry.get(&user_id).is_none());
    // Logging out an unknown identifier is harmless.
    registry.logout(&user_id);
}

#[test]
fn sessions_are_independent_per_user() {
    let mut registry = Registry::new();
    let alice = registry.login("alice".to_string());
    let bob = registry.login("bob".to_string());
    assert_ne!(alice, bob);
    registry.issue_challenge(&alice).expect("alice must get a challenge");
    let computer = registry
        .get(&alice)
        .unwrap()
        .last_round
        .as_ref()
        .unwrap()
        .computer;
    registry
        .submit_answer(&alice, hand_that_beats(computer))
        .expect("alice's answer must be scored");
    let alice_session = registry.get(&alice).unwrap();
    assert_eq!(alice_session.win_count, 1);
    let bob_session = registry.get(&bob).unwrap();
    assert_eq!(
        (bob_session.win_count, bob_session.tie_count, bob_session.loss_count),
        (0, 0, 0)
    );
    assert!(bob_session.last_round.is_none());
}

#[test]
fn unknown_user_is_an_error_and_mutates_nothing() {
    let mut registry = Registry::new();
    let alice = registry.login("alice".to_string());
    let ghost_id = "f".repeat(32);
    assert!(registry.issue_challenge(&ghost_id).is_none());
    assert!(matches!(
        registry.submit_answer(&ghost_id, Hand::Rock),
        Err(SubmitError::UnknownUser)
    ));
    let session = registry.get(&alice).unwrap();
    assert_eq!(
        (session.win_count, session.tie_count, session.loss_count),
        (0, 0, 0)
    );
}

#[test]
fn submit_with_no_pending_round_is_an_error() {
    let mut registry = Registry::new();
    let alice = registry.login("alice".to_string());
    assert!(matches!(
        registry.submit_answer(&alice, Hand::Rock),
        Err(SubmitError::NoPendingRound)
    ));
    let session = registry.get(&alice).unwrap();
    assert_eq!(
        (session.win_count, session.tie_count, session.loss_count),
        (0, 0, 0)
    );
}

#[test]
fn end_to_end_round_with_verified_reveal() {
    let mut registry = Registry::new();
    let alice = registry.login("alice".to_string());
    let session = registry.get(&alice).unwrap();
    assert_eq!(session.user_name, "alice");
    assert_eq!(
        (session.win_count, session.tie_count, session.loss_count),
        (0, 0, 0)
    );

    let commitment = registry
        .issue_challenge(&alice)
        .expect("a known user must get a challenge");
    assert_eq!(commitment.len(), 64);
    assert!(commitment.chars().all(|c| c.is_ascii_hexdigit()));

    let computer = registry
        .get(&alice)
        .unwrap()
        .last_round
        .as_ref()
        .unwrap()
        .computer;
    let answer = hand_that_beats(computer);
    let report = registry
        .submit_answer(&alice, answer)
        .expect("the answer must be scored");

    assert_eq!(report.outcome, Ordering::Greater);
    assert_eq!(report.outcome_label(), "You won");
    assert_eq!((report.win_count, report.tie_count, report.loss_count), (1, 0, 0));
    let session = registry.get(&alice).unwrap();
    assert_eq!(
        (session.win_count, session.tie_count, session.loss_count),
        (1, 0, 0)
    );

    // The revealed nonce and hand reproduce the commitment shown earlier.
    assert_eq!(report.commitment, commitment);
    let mut message = report.nonce_hex.clone();
    message.push_str(report.computer.as_str());
    let recomputed = bytes_to_hex(&Sha256::digest(message.as_bytes()).to_vec());
    assert_eq!(recomputed, commitment);
    assert!(verify_commitment(
        &report.nonce_hex,
        report.computer,
        &report.commitment
    ));
}
