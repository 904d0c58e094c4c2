//! A rock-paper-scissors commit-reveal game library.
//!
//! The computer commits to its hand before the player answers: each round
//! publishes a hash digest binding a secret hand together with a fresh random
//! nonce, and reveals both once the player's hand arrives, so the player can
//! check that the computer did not change its choice after the fact.

use vstd::prelude::*;

pub mod hand;
pub mod hex;
pub mod registry;
pub mod round;
pub mod session;

verus! {

pub use crate::hand::Hand;
pub use crate::hand::ParseHandError;
pub use crate::registry::Registry;
pub use crate::round::Round;
pub use crate::session::Session;

} // verus!
