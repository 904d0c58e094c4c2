use std::cmp::Ordering;

use rps_commit::hand::Hand;
use rps_commit::round::verify_commitment;
use rps_commit::session::Session;

fn hand_that_loses_to(computer: Hand) -> Hand {
    match computer {
        Hand::Rock => Hand::Scissors,
        Hand::Paper => Hand::Rock,
        Hand::Scissors => Hand::Paper,
    }
}

fn hand_that_beats(computer: Hand) -> Hand {
    match computer {
        Hand::Rock => Hand::Paper,
        Hand::Paper => Hand::Scissors,
        Hand::Scissors => Hand::Rock,
    }
}

#[test]
fn new_session_is_zeroed_with_no_pending_round() {
    let s = Session::new("alice".to_string());
    assert_eq!(s.user_name, "alice");
    assert_eq!(
        (s.win_count, s.tie_count, s.loss_count),
        (0, 0, 0)
    );
    assert!(s.last_round.is_none());
}

#[test]
fn issue_challenge_publishes_only_the_commitment() {
    let mut s = Session::new("alice".to_string());
    let commitment = s.issue_challenge();
    assert_eq!(commitment.len(), 64);
    let pending = s.last_round.as_ref().expect("a round must be pending");
    assert_eq!(pending.digest, commitment);
    assert_eq!((s.win_count, s.tie_count, s.loss_count), (0, 0, 0));
}

#[test]
fn losing_answer_increments_only_loss_count() {
    let mut s = Session::new("alice".to_string());
    s.issue_challenge();
    let computer = s.last_round.as_ref().unwrap().computer;
    let report = s.submit_answer(hand_that_loses_to(computer)).unwrap();
    assert_eq!(report.outcome, Ordering::Less);
    assert_eq!(report.outcome_label(), "Computer won");
    assert_eq!(
        (s.win_count, s.tie_count, s.loss_count),
        (0, 0, 1)
    );
}

#[test]
fn winning_answer_increments_only_win_count() {
    let mut s = Session::new("alice".to_string());
    s.issue_challenge();
    let computer = s.last_round.as_ref().unwrap().computer;
    let report = s.submit_answer(hand_that_beats(computer)).unwrap();
    assert_eq!(report.outcome, Ordering::Greater);
    assert_eq!(report.outcome_label(), "You won");
    assert_eq!(
        (s.win_count, s.tie_count, s.loss_count),
        (1, 0, 0)
    );
}

#[test]
fn tied_answer_increments_only_tie_count() {
    let mut s = Session::new("alice".to_string());
    s.issue_challenge();
    let computer = s.last_round.as_ref().unwrap().computer;
    let report = s.submit_answer(computer).unwrap();
    assert_eq!(report.outcome, Ordering::Equal);
    assert_eq!(report.outcome_label(), "Tie");
    assert_eq!(
        (s.win_count, s.tie_count, s.loss_count),
        (0, 1, 0)
    );
}

#[test]
fn submitting_with_no_pending_round_changes_nothing() {
    let mut s = Session::new("alice".to_string());
    assert!(s.submit_answer(Hand::Rock).is_err());
    assert_eq!(
        (s.win_count, s.tie_count, s.loss_count),
        (0, 0, 0)
    );
    assert!(s.last_round.is_none());
}

#[test]
fn report_reveals_the_committed_secrets() {
    let mut s = Session::new("alice".to_string());
    let shown = s.issue_challenge();
    let report = s.submit_answer(Hand::Rock).unwrap();
    assert_eq!(report.commitment, shown);
    assert!(verify_commitment(
        &report.nonce_hex,
        report.computer,
        &report.commitment
    ));
    assert_eq!(report.human, Hand::Rock);
    let next = s.last_round.as_ref().expect("a fresh round must be pending");
    assert_eq!(report.new_commitment, next.digest);
    assert_ne!(report.new_commitment, report.commitment);
}

#[test]
fn each_pending_round_is_scored_at_most_once() {
    let mut s = Session::new("alice".to_string());
    let first_commitment = s.issue_challenge();
    let first = s.submit_answer(Hand::Rock).unwrap();
    let second = s.submit_answer(Hand::Rock).unwrap();
    // The second answer scores against the fresh round issued by the first
    // reveal, never against the already-consumed one.
    assert_eq!(first.commitment, first_commitment);
    assert_eq!(second.commitment, first.new_commitment);
    assert_ne!(second.commitment, first.commitment);
    let total = s.win_count + s.tie_count + s.loss_count;
    assert_eq!(total, 2);
}

#[test]
fn reissuing_discards_the_pending_round() {
    let mut s = Session::new("alice".to_string());
    let first = s.issue_challenge();
    let second = s.issue_challenge();
    assert_ne!(first, second);
    assert_eq!(s.last_round.as_ref().unwrap().digest, second);
    assert_eq!((s.win_count, s.tie_count, s.loss_count), (0, 0, 0));
}
