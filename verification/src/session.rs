//! Per-user game state: running score and the pending commit-reveal round.
//!
//! A session is a two-state machine. With no pending round, counters are fixed
//! and an answer is an error; with a round pending, a submitted hand reveals
//! the round, bumps exactly one counter, and immediately commits to the next
//! round, so an active session always has a challenge on the table.

use vstd::prelude::*;

verus! {

use core::cmp::Ordering;
use crate::hand::Hand;
use crate::hand::beats;
use crate::hand::vs_spec;
use crate::round::Round;

/// An answer arrived while no round was pending.
#[derive(Copy, Clone, Debug, Eq, PartialEq, Structural)]
pub struct NoPendingRoundError;

/// Everything a resolved round reveals: both hands, the secrets behind the
/// commitment that was just honoured, the updated score, and the commitment
/// of the next round.
pub struct RoundReport {
    /// The player's submitted hand.
    pub human: Hand,
    /// The computer's revealed hand.
    pub computer: Hand,
    /// The revealed nonce, as the hex text the commitment was computed over.
    pub nonce_hex: String,
    /// The commitment that was shown before this reveal.
    pub commitment: String,
    /// The outcome from the player's perspective: `Greater` when the player
    /// won, `Equal` on a tie, `Less` when the computer won.
    pub outcome: Ordering,
    /// The player's wins after scoring this round.
    pub win_count: usize,
    /// The ties after scoring this round.
    pub tie_count: usize,
    /// The player's losses after scoring this round.
    pub loss_count: usize,
    /// The commitment of the next, freshly issued round.
    pub new_commitment: String,
}

impl RoundReport {
    /// The outcome as the label shown to the player.
    pub fn outcome_label(&self) -> (r: &'static str)
        ensures
            self.outcome == Ordering::Greater ==> r@ == "You won"@,
            self.outcome == Ordering::Equal ==> r@ == "Tie"@,
            self.outcome == Ordering::Less ==> r@ == "Computer won"@,
    {
        match self.outcome {
            Ordering::Greater => "You won",
            Ordering::Equal => "Tie",
            Ordering::Less => "Computer won",
        }
    }
}

/// One authenticated user's state: a display name, the running score, and the
/// pending round, if a challenge has been issued.
pub struct Session {
    /// The user's display name.
    pub user_name: String,
    /// Rounds the user won.
    pub win_count: usize,
    /// Rounds that tied.
    pub tie_count: usize,
    /// Rounds the user lost.
    pub loss_count: usize,
    /// The round awaiting the user's answer, if any.
    pub last_round: Option<Round>,
}

impl Session {
    /// Whatever round is pending carries a commitment that really binds its
    /// nonce and hand.
    pub open spec fn well_formed(&self) -> bool {
        self.last_round matches Some(r) ==> r.well_formed()
    }

    /// A fresh session: all counters at zero and no pending round.
    pub fn new(user_name: String) -> (s: Session)
        ensures
            s.user_name == user_name,
            s.win_count == 0,
            s.tie_count == 0,
            s.loss_count == 0,
            s.last_round is None,
            s.well_formed(),
    {
        Session { user_name, win_count: 0, tie_count: 0, loss_count: 0, last_round: None }
    }

    /// Issues a new challenge: commits to a fresh round, stores it as pending,
    /// and returns the commitment for display. A still-unanswered pending
    /// round is silently discarded and replaced.
    pub fn issue_challenge(&mut self) -> (commitment: String)
        ensures
            final(self).user_name == old(self).user_name,
            final(self).win_count == old(self).win_count,
            final(self).tie_count == old(self).tie_count,
            final(self).loss_count == old(self).loss_count,
            final(self).last_round matches Some(r) && r.well_formed() && commitment == r.digest,
            final(self).well_formed(),
    {
        let round = Round::random();
        let commitment = round.digest.clone();
        self.last_round = Some(round);
        commitment
    }

    /// Scores a submitted hand against the pending round and starts the next
    /// one. Exactly one counter is incremented, the resolved round's secrets
    /// are revealed in the report, and a fresh round becomes pending. With no
    /// round pending nothing changes and the submission is an error.
    pub fn submit_answer(&mut self, hand: Hand) -> (r: Result<RoundReport, NoPendingRoundError>)
        requires
            old(self).well_formed(),
            old(self).last_round is Some ==> {
                &&& old(self).win_count < usize::MAX
                &&& old(self).tie_count < usize::MAX
                &&& old(self).loss_count < usize::MAX
            },
        ensures
            final(self).well_formed(),
            final(self).user_name == old(self).user_name,
            old(self).last_round is None ==> r is Err && *final(self) == *old(self),
            old(self).last_round matches Some(prev) ==> r matches Ok(rep) && {
                &&& rep.human == hand
                &&& rep.computer == prev.computer
                &&& rep.nonce_hex == prev.random_bytes
                &&& rep.commitment == prev.digest
                &&& rep.outcome == vs_spec(hand, prev.computer)
                &&& final(self).win_count == old(self).win_count + (
                if beats(hand, prev.computer) {
                    1int
                } else {
                    0int
                })
                &&& final(self).tie_count == old(self).tie_count + (
                if hand == prev.computer {
                    1int
                } else {
                    0int
                })
                &&& final(self).loss_count == old(self).loss_count + (
                if beats(prev.computer, hand) {
                    1int
                } else {
                    0int
                })
                &&& rep.win_count == final(self).win_count
                &&& rep.tie_count == final(self).tie_count
                &&& rep.loss_count == final(self).loss_count
                &&& final(self).last_round matches Some(next) && next.well_formed()
                    && rep.new_commitment == next.digest
            },
    {
        let prev = match self.last_round.take() {
            Some(prev) => prev,
            None => {
                return Err(NoPendingRoundError);
            },
        };
        let outcome = hand.vs(&prev.computer);
        match outcome {
            Ordering::Greater => {
                self.win_count = self.win_count + 1;
            },
            Ordering::Equal => {
                self.tie_count = self.tie_count + 1;
            },
            Ordering::Less => {
                self.loss_count = self.loss_count + 1;
            },
        }
        let new_commitment = self.issue_challenge();
        Ok(
            RoundReport {
                human: hand,
                computer: prev.computer,
                nonce_hex: prev.random_bytes,
                commitment: prev.digest,
                outcome,
                win_count: self.win_count,
                tie_count: self.tie_count,
                loss_count: self.loss_count,
                new_commitment,
            },
        )
    }
}

} // verus!
