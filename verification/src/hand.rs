//! The three throwable hands and the cyclic beats-relation.

use vstd::prelude::*;

use rand::RngExt;

verus! {

use core::cmp::Ordering;
use vstd::utf8::is_ascii_chars;

/// A thrown hand in rock-paper-scissors.
#[derive(Copy, Clone, Debug, Eq, PartialEq, Structural)]
pub enum Hand {
    Rock,
    Paper,
    Scissors,
}

/// The parse token does not name any of the three hands.
#[derive(Copy, Clone, Debug, Eq, PartialEq, Structural)]
pub struct ParseHandError;

/// `beats(a, b)` holds exactly on the three winning pairs of the cyclic
/// beats-relation: rock beats scissors, scissors beats paper, paper beats rock.
pub open spec fn beats(a: Hand, b: Hand) -> bool {
    ||| (a == Hand::Rock && b == Hand::Scissors)
    ||| (a == Hand::Scissors && b == Hand::Paper)
    ||| (a == Hand::Paper && b == Hand::Rock)
}

/// The comparison `a` vs `b` from `a`'s perspective: `Greater` when `a` beats
/// `b`, `Equal` on a tie, `Less` when `b` beats `a`.
pub open spec fn vs_spec(a: Hand, b: Hand) -> Ordering {
    if a == b {
        Ordering::Equal
    } else if beats(a, b) {
        Ordering::Greater
    } else {
        Ordering::Less
    }
}

/// The canonical lowercase token of a hand; it is both the display form and
/// the exact character sequence bound into a round's commitment.
pub open spec fn token_spec(h: Hand) -> Seq<char> {
    match h {
        Hand::Rock => "rock"@,
        Hand::Paper => "paper"@,
        Hand::Scissors => "scissors"@,
    }
}

/// The icon shown for a hand.
pub open spec fn icon_spec(h: Hand) -> Seq<char> {
    match h {
        Hand::Rock => "✊🏼"@,
        Hand::Paper => "✋🏼"@,
        Hand::Scissors => "✌🏼"@,
    }
}

/// The Unicode lowercase of a character sequence, as `str::to_lowercase`
/// computes it.
pub uninterp spec fn lower_of(s: Seq<char>) -> Seq<char>;

/// An ASCII uppercase letter folded to its lowercase counterpart; any other
/// character unchanged.
pub open spec fn ascii_lower(c: char) -> char {
    if 'A' <= c && c <= 'Z' {
        ((c as u8) + 32) as char
    } else {
        c
    }
}

/// A character sequence folded to lowercase letter by letter, as Unicode
/// lowercasing acts on ASCII text.
pub open spec fn fold_lower(s: Seq<char>) -> Seq<char> {
    Seq::new(s.len(), |i: int| ascii_lower(s[i]))
}

/// Relies on std's `str::to_lowercase`: the Unicode lowercase of the string,
/// a function of its characters alone; on ASCII text it folds exactly the
/// letters `A`-`Z` to `a`-`z` and leaves every other character unchanged.
#[verifier::external_body]
fn to_lowercase(s: &str) -> (r: String)
    ensures
        r@ == lower_of(s@),
        is_ascii_chars(s@) ==> r@ == fold_lower(s@),
{
    s.to_lowercase()
}

/// What parsing a token yields: the hand whose canonical token equals the
/// token's Unicode lowercase — on ASCII text, its letter-by-letter fold — or
/// nothing when it equals none of the three.
pub open spec fn parse_spec(s: Seq<char>) -> Option<Hand> {
    let lowered = if is_ascii_chars(s) {
        fold_lower(s)
    } else {
        lower_of(s)
    };
    if lowered == token_spec(Hand::Rock) {
        Some(Hand::Rock)
    } else if lowered == token_spec(Hand::Paper) {
        Some(Hand::Paper)
    } else if lowered == token_spec(Hand::Scissors) {
        Some(Hand::Scissors)
    } else {
        None
    }
}

fn str_eq(s: &str, t: &str) -> (r: bool)
    ensures
        r == (s@ == t@),
{
    let n = s.unicode_len();
    if n != t.unicode_len() {
        return false;
    }
    let mut i: usize = 0;
    while i < n
        invariant
            i <= n,
            n == s@.len(),
            n == t@.len(),
            forall|j: int| 0 <= j < i ==> s@[j] == t@[j],
        decreases n - i,
    {
        if s.get_char(i) != t.get_char(i) {
            return false;
        }
        i = i + 1;
    }
    proof {
        assert(s@ =~= t@);
    }
    true
}

/// Relies on rand: `RngExt::random_range` on the thread-local generator
/// returns a value in the given range; it panics only on an empty range, and
/// the range here is not empty, or if the system random source fails when
/// first seeded.
#[verifier::external_body]
fn random_below_three() -> (r: u8)
    ensures
        r < 3,
{
    let mut rng = rand::rng();
    rng.random_range(0..3u8)
}

impl Hand {
    /// Compares `self` against `rhs` under the beats-relation, from `self`'s
    /// perspective.
    pub fn vs(&self, rhs: &Hand) -> (r: Ordering)
        ensures
            r == vs_spec(*self, *rhs),
            r == Ordering::Equal <==> *self == *rhs,
            r == Ordering::Greater <==> beats(*self, *rhs),
            r == Ordering::Less <==> beats(*rhs, *self),
    {
        if *self == *rhs {
            return Ordering::Equal;
        }
        match (*self, *rhs) {
            (Hand::Rock, Hand::Paper) => Ordering::Less,
            (Hand::Paper, Hand::Scissors) => Ordering::Less,
            (Hand::Scissors, Hand::Rock) => Ordering::Less,
            _ => Ordering::Greater,
        }
    }

    /// The icon shown for this hand.
    pub fn as_icon(&self) -> (r: &'static str)
        ensures
            r@ == icon_spec(*self),
    {
        match *self {
            Hand::Rock => "✊🏼",
            Hand::Paper => "✋🏼",
            Hand::Scissors => "✌🏼",
        }
    }

    /// The canonical lowercase token of this hand.
    pub fn as_str(&self) -> (r: &'static str)
        ensures
            r@ == token_spec(*self),
            is_ascii_chars(r@),
    {
        proof {
            reveal_strlit("rock");
            reveal_strlit("paper");
            reveal_strlit("scissors");
        }
        match *self {
            Hand::Rock => "rock",
            Hand::Paper => "paper",
            Hand::Scissors => "scissors",
        }
    }

    /// Parses a hand token: a case-insensitive exact match, by Unicode
    /// lowercasing, against one of the three canonical tokens; anything else
    /// is rejected.
    pub fn from_str(s: &str) -> (r: Result<Hand, ParseHandError>)
        ensures
            r matches Ok(h) ==> parse_spec(s@) == Some(h),
            r is Err <==> parse_spec(s@) is None,
    {
        let lowered = to_lowercase(s);
        let l = lowered.as_str();
        if str_eq(l, "rock") {
            Ok(Hand::Rock)
        } else if str_eq(l, "paper") {
            Ok(Hand::Paper)
        } else if str_eq(l, "scissors") {
            Ok(Hand::Scissors)
        } else {
            Err(ParseHandError)
        }
    }

    /// Draws one of the three hands from the thread-local random generator.
    pub fn random() -> Hand {
        let i = random_below_three();
        if i == 0 {
            Hand::Rock
        } else if i == 1 {
            Hand::Paper
        } else {
            Hand::Scissors
        }
    }
}

/// The comparison of two hands is the inverse of the comparison swapped:
/// a win one way is a loss the other way, and a tie is a tie both ways;
/// in particular a hand always ties against itself.
pub proof fn lemma_vs_inverse(a: Hand, b: Hand)
    ensures
        vs_spec(a, b) == Ordering::Greater <==> vs_spec(b, a) == Ordering::Less,
        vs_spec(a, b) == Ordering::Equal <==> vs_spec(b, a) == Ordering::Equal,
        vs_spec(a, a) == Ordering::Equal,
{
}

/// The beats-relation is a three-cycle, not a total order: every hand beats
/// exactly one other hand, is beaten by exactly one other hand, and those two
/// differ from it and from each other.
pub proof fn lemma_beats_three_cycle(a: Hand)
    ensures
        exists|b: Hand| #[trigger] beats(a, b),
        forall|b1: Hand, b2: Hand| #[trigger] beats(a, b1) && #[trigger] beats(a, b2) ==> b1 == b2,
        exists|b: Hand| #[trigger] beats(b, a),
        forall|b1: Hand, b2: Hand| #[trigger] beats(b1, a) && #[trigger] beats(b2, a) ==> b1 == b2,
        forall|b: Hand| #[trigger] beats(a, b) ==> b != a && !beats(b, a),
{
    match a {
        Hand::Rock => {
            assert(beats(Hand::Rock, Hand::Scissors));
            assert(beats(Hand::Paper, Hand::Rock));
        },
        Hand::Paper => {
            assert(beats(Hand::Paper, Hand::Rock));
            assert(beats(Hand::Scissors, Hand::Paper));
        },
        Hand::Scissors => {
            assert(beats(Hand::Scissors, Hand::Paper));
            assert(beats(Hand::Rock, Hand::Scissors));
        },
    }
}

/// Parsing a hand's own canonical token yields that hand back.
pub proof fn lemma_parse_token_round_trip(h: Hand)
    ensures
        parse_spec(token_spec(h)) == Some(h),
{
    reveal_strlit("rock");
    reveal_strlit("paper");
    reveal_strlit("scissors");
    assert(is_ascii_chars(token_spec(h)));
    assert(fold_lower(token_spec(h)) =~= token_spec(h));
    assert("rock"@.len() == 4);
    assert("paper"@.len() == 5);
    assert("scissors"@.len() == 8);
}

} // verus!
