//! One commit-reveal round.
//!
//! A round draws a secret computer hand and a fresh random nonce, and binds
//! them into a public commitment: the SHA-256 digest, in lowercase hex, of the
//! nonce's hex text followed by the hand's canonical token. The hand and the
//! nonce stay server-side until the player answers; the player can then
//! recompute the digest and check it against the commitment shown earlier.

use vstd::prelude::*;

use rand::Rng;
use sha2::Digest;

verus! {

use crate::hand::Hand;
use crate::hand::token_spec;
use crate::hex::bytes_to_hex;
use crate::hex::hex_of_bytes;
use crate::hex::is_hex_text;
use crate::hex::lemma_hex_of_bytes_props;
use vstd::string::StringSliceAdditionalSpecFns;
use vstd::utf8::is_ascii_chars;

/// How many random bytes go into a nonce.
pub const NONCE_LEN: usize = 32;

/// The SHA-256 digest of a byte string.
pub uninterp spec fn sha256_of(input: Seq<u8>) -> Seq<u8>;

/// Relies on sha2's `Sha256::digest`: the 32-byte SHA-256 digest of the input,
/// a function of the input bytes alone.
#[verifier::external_body]
fn sha256(input: &Vec<u8>) -> (r: Vec<u8>)
    ensures
        r@ == sha256_of(input@),
        r@.len() == 32,
{
    sha2::Sha256::digest(input.as_slice()).to_vec()
}

/// Relies on rand: `Rng::fill_bytes` on the thread-local generator, a
/// cryptographically secure source, fills the buffer with random bytes. It
/// panics only if the system random source fails when first seeded.
#[verifier::external_body]
pub(crate) fn gen_random_bytes(n: usize) -> (r: Vec<u8>)
    ensures
        r@.len() == n,
{
    let mut v = vec![0u8; n];
    rand::rng().fill_bytes(&mut v);
    v
}

/// An ASCII character sequence read as bytes.
pub open spec fn ascii_bytes_of(s: Seq<char>) -> Seq<u8> {
    Seq::new(s.len(), |i: int| s[i] as u8)
}

/// The byte string a commitment is computed over: the nonce's hex text
/// followed by the hand's canonical token.
pub open spec fn commit_message(nonce_hex: Seq<char>, hand: Hand) -> Seq<u8> {
    ascii_bytes_of(nonce_hex + token_spec(hand))
}

/// The commitment to a hand under a nonce: the SHA-256 digest of the commit
/// message, as lowercase hex text.
pub open spec fn commitment_spec(nonce_hex: Seq<char>, hand: Hand) -> Seq<char> {
    hex_of_bytes(sha256_of(commit_message(nonce_hex, hand)))
}

/// Computes the commitment to `hand` under the nonce with hex text
/// `nonce_hex`.
pub fn compute_commitment(nonce_hex: &str, hand: Hand) -> (r: String)
    requires
        is_ascii_chars(nonce_hex@),
    ensures
        r@ == commitment_spec(nonce_hex@, hand),
        r@.len() == 64,
        is_hex_text(r@),
        is_ascii_chars(r@),
{
    broadcast use vstd::string::is_ascii_spec_bytes;

    let mut msg = nonce_hex.to_owned();
    msg.append(hand.as_str());
    proof {
        assert(is_ascii_chars(msg@));
    }
    let m = msg.as_str();
    let bytes = m.as_bytes_vec();
    proof {
        assert(m.is_ascii());
        assert(bytes@ == m.spec_bytes());
        assert(bytes@ =~= commit_message(nonce_hex@, hand));
    }
    let digest = sha256(&bytes);
    proof {
        lemma_hex_of_bytes_props(digest@);
    }
    bytes_to_hex(&digest)
}

/// Recomputes the commitment over a revealed `(nonce, hand)` pair and checks
/// it against the commitment shown before the reveal.
pub fn verify_commitment(nonce_hex: &str, hand: Hand, commitment: &String) -> (r: bool)
    requires
        is_ascii_chars(nonce_hex@),
    ensures
        r == (commitment@ == commitment_spec(nonce_hex@, hand)),
{
    let recomputed = compute_commitment(nonce_hex, hand);
    recomputed.eq(commitment)
}

/// One commit-reveal instance: a secret hand, the hex text of a secret fresh
/// nonce, and the public commitment binding the two.
pub struct Round {
    /// The computer's hand, secret until the reveal.
    pub computer: Hand,
    /// The nonce as lowercase hex text, secret until the reveal.
    pub random_bytes: String,
    /// The commitment, public from the start.
    pub digest: String,
}

impl Round {
    /// The commitment really binds this round's nonce and hand, and both are
    /// lowercase hex text of the expected shape.
    pub open spec fn well_formed(&self) -> bool {
        &&& is_hex_text(self.random_bytes@)
        &&& is_ascii_chars(self.random_bytes@)
        &&& self.random_bytes@.len() == 2 * NONCE_LEN
        &&& self.digest@ == commitment_spec(self.random_bytes@, self.computer)
        &&& self.digest@.len() == 64
        &&& is_hex_text(self.digest@)
        &&& is_ascii_chars(self.digest@)
    }

    /// Starts a fresh round: draws a random hand and a random nonce, and
    /// commits to them.
    pub fn random() -> (r: Round)
        ensures
            r.well_formed(),
    {
        let hand = Hand::random();
        let nonce = gen_random_bytes(NONCE_LEN);
        let nonce_hex = bytes_to_hex(&nonce);
        proof {
            lemma_hex_of_bytes_props(nonce@);
        }
        let digest = compute_commitment(nonce_hex.as_str(), hand);
        Round { computer: hand, random_bytes: nonce_hex, digest }
    }
}

/// Commitment reproducibility: for any well-formed round, recomputing the
/// commitment over the revealed nonce and hand yields exactly the digest that
/// was shown before the reveal.
pub proof fn lemma_commitment_reproducible(r: Round)
    requires
        r.well_formed(),
    ensures
        r.digest@ == commitment_spec(r.random_bytes@, r.computer),
{
}

} // verus!
