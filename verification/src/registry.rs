//! The session registry: a process-wide mapping from opaque user identifiers
//! to sessions.
//!
//! The registry exclusively owns the sessions; a user identifier, a random
//! token distinct from the display name, is a weak reference used for lookup.
//! It is modelled as a map from the identifier's characters to the session,
//! and implemented as a vector of entries with pairwise distinct keys. The
//! registry itself carries no lock: a caller serialises access to it, so each
//! operation here is atomic to outside observers.

use vstd::prelude::*;

verus! {

use crate::hand::Hand;
use crate::hand::beats;
use crate::hand::vs_spec;
use crate::hex::bytes_to_hex;
use crate::hex::is_hex_text;
use crate::hex::lemma_hex_of_bytes_props;
use crate::round::NONCE_LEN;
use crate::round::commitment_spec;
use crate::round::gen_random_bytes;
use crate::session::RoundReport;
use crate::session::Session;

/// Why a submitted answer was not scored.
#[derive(Copy, Clone, Debug, Eq, PartialEq, Structural)]
pub enum SubmitError {
    /// The user identifier has no registry entry.
    UnknownUser,
    /// The user's session has no round pending.
    NoPendingRound,
}

/// How many random bytes go into a user identifier.
pub const USER_ID_LEN: usize = 16;

/// The keys of the entries are pairwise distinct.
pub open spec fn keys_unique(s: Seq<(String, Session)>) -> bool {
    forall|i: int, j: int| 0 <= i < j < s.len() ==> s[i].0@ != s[j].0@
}

/// The map an entry sequence stands for; a later entry would shadow an
/// earlier one with the same key.
pub open spec fn map_of(s: Seq<(String, Session)>) -> Map<Seq<char>, Session>
    decreases s.len(),
{
    if s.len() == 0 {
        Map::empty()
    } else {
        map_of(s.drop_last()).insert(s.last().0@, s.last().1)
    }
}

proof fn lemma_map_of_contains(s: Seq<(String, Session)>, k: Seq<char>)
    ensures
        map_of(s).contains_key(k) <==> exists|i: int| 0 <= i < s.len() && #[trigger] s[i].0@ == k,
    decreases s.len(),
{
    if s.len() > 0 {
        let t = s.drop_last();
        lemma_map_of_contains(t, k);
        if map_of(s).contains_key(k) {
            if k == s.last().0@ {
                assert(s[s.len() - 1].0@ == k);
            } else {
                let i = choose|i: int| 0 <= i < t.len() && #[trigger] t[i].0@ == k;
                assert(s[i].0@ == k);
            }
        }
        if exists|i: int| 0 <= i < s.len() && #[trigger] s[i].0@ == k {
            let i = choose|i: int| 0 <= i < s.len() && #[trigger] s[i].0@ == k;
            if i < s.len() - 1 {
                assert(t[i].0@ == k);
            }
        }
    }
}

proof fn lemma_map_of_index(s: Seq<(String, Session)>, i: int)
    requires
        keys_unique(s),
        0 <= i < s.len(),
    ensures
        map_of(s).contains_key(s[i].0@),
        map_of(s)[s[i].0@] == s[i].1,
    decreases s.len(),
{
    if i < s.len() - 1 {
        let t = s.drop_last();
        lemma_map_of_index(t, i);
        assert(s[i].0@ != s[s.len() - 1].0@);
    }
}

proof fn lemma_map_of_update(s: Seq<(String, Session)>, i: int, v: (String, Session))
    requires
        keys_unique(s),
        0 <= i < s.len(),
        v.0@ == s[i].0@,
    ensures
        map_of(s.update(i, v)) == map_of(s).insert(v.0@, v.1),
        keys_unique(s.update(i, v)),
    decreases s.len(),
{
    let u = s.update(i, v);
    assert forall|a: int, b: int| 0 <= a < b < u.len() implies u[a].0@ != u[b].0@ by {
        assert(u[a].0@ == s[a].0@);
        assert(u[b].0@ == s[b].0@);
    }
    if i == s.len() - 1 {
        assert(u.drop_last() =~= s.drop_last());
        assert(map_of(s.drop_last()).insert(v.0@, v.1) =~= map_of(s).insert(v.0@, v.1));
    } else {
        let t = s.drop_last();
        assert(u.drop_last() =~= t.update(i, v));
        assert(keys_unique(t));
        lemma_map_of_update(t, i, v);
        assert(u.last() == s.last());
        assert(s[i].0@ != s[s.len() - 1].0@);
        assert(map_of(t).insert(v.0@, v.1).insert(s.last().0@, s.last().1) =~= map_of(t).insert(
            s.last().0@,
            s.last().1,
        ).insert(v.0@, v.1));
        assert(map_of(u) =~= map_of(s).insert(v.0@, v.1));
    }
}

proof fn lemma_map_of_push(s: Seq<(String, Session)>, v: (String, Session))
    requires
        keys_unique(s),
        forall|i: int| 0 <= i < s.len() ==> s[i].0@ != v.0@,
    ensures
        map_of(s.push(v)) == map_of(s).insert(v.0@, v.1),
        keys_unique(s.push(v)),
{
    let u = s.push(v);
    assert(u.drop_last() =~= s);
    assert(u.last() == v);
    assert forall|a: int, b: int| 0 <= a < b < u.len() implies u[a].0@ != u[b].0@ by {
        if b < u.len() - 1 {
            assert(u[a].0@ == s[a].0@);
            assert(u[b].0@ == s[b].0@);
        } else {
            assert(u[a].0@ == s[a].0@);
            assert(u[b] == v);
        }
    }
}

proof fn lemma_map_of_remove(s: Seq<(String, Session)>, i: int)
    requires
        keys_unique(s),
        0 <= i < s.len(),
    ensures
        map_of(s.remove(i)) == map_of(s).remove(s[i].0@),
        keys_unique(s.remove(i)),
    decreases s.len(),
{
    let u = s.remove(i);
    let k = s[i].0@;
    assert forall|a: int, b: int| 0 <= a < b < u.len() implies u[a].0@ != u[b].0@ by {
        let a0 = if a < i {
            a
        } else {
            a + 1
        };
        let b0 = if b < i {
            b
        } else {
            b + 1
        };
        assert(u[a].0@ == s[a0].0@);
        assert(u[b].0@ == s[b0].0@);
    }
    if i == s.len() - 1 {
        assert(u =~= s.drop_last());
        lemma_map_of_contains(s.drop_last(), k);
        assert(forall|j: int|
            0 <= j < s.len() - 1 ==> #[trigger] s.drop_last()[j].0@ == s[j].0@ && s[j].0@ != k);
        assert(!map_of(s.drop_last()).contains_key(k));
        assert(map_of(s).remove(k) =~= map_of(s.drop_last()));
    } else {
        let t = s.drop_last();
        assert(u.drop_last() =~= t.remove(i));
        assert(u.last() == s.last());
        assert(keys_unique(t));
        lemma_map_of_remove(t, i);
        assert(k != s[s.len() - 1].0@);
        assert(map_of(t).remove(k).insert(s.last().0@, s.last().1) =~= map_of(t).insert(
            s.last().0@,
            s.last().1,
        ).remove(k));
        assert(map_of(u) =~= map_of(s).remove(k));
    }
}

/// The session registry.
pub struct Registry {
    sessions: Vec<(String, Session)>,
}

impl View for Registry {
    type V = Map<Seq<char>, Session>;

    closed spec fn view(&self) -> Map<Seq<char>, Session> {
        map_of(self.sessions@)
    }
}

impl Registry {
    /// Entry keys are pairwise distinct and every stored session is
    /// well-formed.
    pub closed spec fn wf(&self) -> bool {
        &&& keys_unique(self.sessions@)
        &&& forall|i: int|
            0 <= i < self.sessions@.len() ==> (#[trigger] self.sessions@[i].1).well_formed()
    }

    /// An empty registry.
    pub fn new() -> (r: Registry)
        ensures
            r.wf(),
            r@ == Map::<Seq<char>, Session>::empty(),
    {
        Registry { sessions: Vec::new() }
    }

    fn find_index(&self, user_id: &String) -> (r: Option<usize>)
        ensures
            r matches Some(i) ==> i < self.sessions@.len() && self.sessions@[i as int].0@
                == user_id@,
            r is None ==> forall|j: int|
                0 <= j < self.sessions@.len() ==> (#[trigger] self.sessions@[j]).0@ != user_id@,
    {
        let n = self.sessions.len();
        let mut i: usize = 0;
        while i < n
            invariant
                i <= n,
                n == self.sessions@.len(),
                forall|j: int| 0 <= j < i ==> (#[trigger] self.sessions@[j]).0@ != user_id@,
            decreases n - i,
        {
            if self.sessions[i].0.eq(user_id) {
                return Some(i);
            }
            i = i + 1;
        }
        None
    }

    /// Logs a user in: draws a fresh random identifier, registers a fresh
    /// session under it, and returns the identifier. An existing entry under
    /// the same identifier is replaced.
    pub fn login(&mut self, user_name: String) -> (user_id: String)
        requires
            old(self).wf(),
        ensures
            final(self).wf(),
            user_id@.len() == 2 * USER_ID_LEN,
            is_hex_text(user_id@),
            final(self)@ == old(self)@.insert(user_id@, final(self)@[user_id@]),
            final(self)@.contains_key(user_id@),
            final(self)@[user_id@].user_name == user_name,
            final(self)@[user_id@].win_count == 0,
            final(self)@[user_id@].tie_count == 0,
            final(self)@[user_id@].loss_count == 0,
            final(self)@[user_id@].last_round is None,
    {
        let id_bytes = gen_random_bytes(USER_ID_LEN);
        let user_id = bytes_to_hex(&id_bytes);
        proof {
            lemma_hex_of_bytes_props(id_bytes@);
        }
        let session = Session::new(user_name);
        let key = user_id.clone();
        match self.find_index(&user_id) {
            Some(i) => {
                let ghost s0 = self.sessions@;
                let _ = self.sessions.remove(i);
                self.sessions.insert(i, (key, session));
                proof {
                    assert(self.sessions@ =~= s0.update(i as int, (key, session)));
                    lemma_map_of_update(s0, i as int, (key, session));
                }
            },
            None => {
                let ghost s0 = self.sessions@;
                self.sessions.push((key, session));
                proof {
                    lemma_map_of_push(s0, (key, session));
                }
            },
        }
        user_id
    }

    /// Logs a user out: removes the session under the identifier, if any.
    pub fn logout(&mut self, user_id: &String)
        requires
            old(self).wf(),
        ensures
            final(self).wf(),
            final(self)@ == old(self)@.remove(user_id@),
    {
        match self.find_index(user_id) {
            Some(i) => {
                let ghost s0 = self.sessions@;
                let _ = self.sessions.remove(i);
                proof {
                    lemma_map_of_remove(s0, i as int);
                }
            },
            None => {
                proof {
                    lemma_map_of_contains(self.sessions@, user_id@);
                    assert(self@.remove(user_id@) =~= self@);
                }
            },
        }
    }

    /// Whether the identifier names a session whose display name matches.
    pub fn authenticate(&self, user_id: &String, user_name: &String) -> (r: bool)
        requires
            self.wf(),
        ensures
            r == (self@.contains_key(user_id@) && self@[user_id@].user_name@ == user_name@),
    {
        proof {
            lemma_map_of_contains(self.sessions@, user_id@);
        }
        match self.find_index(user_id) {
            Some(i) => {
                proof {
                    lemma_map_of_index(self.sessions@, i as int);
                }
                let entry = &self.sessions[i];
                entry.1.user_name.eq(user_name)
            },
            None => false,
        }
    }

    /// The session registered under the identifier, if any.
    pub fn get(&self, user_id: &String) -> (r: Option<&Session>)
        requires
            self.wf(),
        ensures
            r matches Some(s) ==> self@.contains_key(user_id@) && *s == self@[user_id@],
            r is None ==> !self@.contains_key(user_id@),
    {
        proof {
            lemma_map_of_contains(self.sessions@, user_id@);
        }
        match self.find_index(user_id) {
            Some(i) => {
                proof {
                    lemma_map_of_index(self.sessions@, i as int);
                }
                let entry = &self.sessions[i];
                Some(&entry.1)
            },
            None => None,
        }
    }

    /// Issues a new challenge to the user's session and returns the fresh
    /// commitment, or nothing when the identifier is unknown. A pending round
    /// is silently replaced.
    pub fn issue_challenge(&mut self, user_id: &String) -> (r: Option<String>)
        requires
            old(self).wf(),
        ensures
            final(self).wf(),
            !old(self)@.contains_key(user_id@) ==> r is None && final(self)@ == old(self)@,
            old(self)@.contains_key(user_id@) ==> ({
                let s_old = old(self)@[user_id@];
                let s_new = final(self)@[user_id@];
                r matches Some(c) && {
                    &&& final(self)@ == old(self)@.insert(user_id@, s_new)
                    &&& s_new.user_name == s_old.user_name
                    &&& s_new.win_count == s_old.win_count
                    &&& s_new.tie_count == s_old.tie_count
                    &&& s_new.loss_count == s_old.loss_count
                    &&& s_new.last_round matches Some(rd) && rd.well_formed() && c == rd.digest
                }
            }),
    {
        proof {
            lemma_map_of_contains(self.sessions@, user_id@);
        }
        match self.find_index(user_id) {
            Some(i) => {
                proof {
                    lemma_map_of_index(self.sessions@, i as int);
                }
                let ghost s0 = self.sessions@;
                let pair = self.sessions.remove(i);
                let key = pair.0;
                let mut sess = pair.1;
                let commitment = sess.issue_challenge();
                self.sessions.insert(i, (key, sess));
                proof {
                    assert(self.sessions@ =~= s0.update(i as int, (key, sess)));
                    lemma_map_of_update(s0, i as int, (key, sess));
                }
                Some(commitment)
            },
            None => None,
        }
    }

    /// Scores a submitted hand against the user's pending round: reveals it,
    /// bumps exactly one counter, and leaves a fresh round pending. An
    /// unknown identifier or a session with no round pending is an error and
    /// changes nothing.
    pub fn submit_answer(&mut self, user_id: &String, hand: Hand) -> (r: Result<
        RoundReport,
        SubmitError,
    >)
        requires
            old(self).wf(),
            old(self)@.contains_key(user_id@) && old(self)@[user_id@].last_round is Some ==> {
                &&& old(self)@[user_id@].win_count < usize::MAX
                &&& old(self)@[user_id@].tie_count < usize::MAX
                &&& old(self)@[user_id@].loss_count < usize::MAX
            },
        ensures
            final(self).wf(),
            !old(self)@.contains_key(user_id@) ==> (r matches Err(e) && e
                == SubmitError::UnknownUser && final(self)@ == old(self)@),
            old(self)@.contains_key(user_id@) && old(self)@[user_id@].last_round is None ==> (
            r matches Err(e) && e == SubmitError::NoPendingRound && final(self)@ == old(self)@),
            old(self)@.contains_key(user_id@) ==> ({
                let s_old = old(self)@[user_id@];
                let s_new = final(self)@[user_id@];
                s_old.last_round matches Some(prev) ==> (r matches Ok(rep) && {
                    &&& final(self)@ == old(self)@.insert(user_id@, s_new)
                    &&& s_new.user_name == s_old.user_name
                    &&& rep.human == hand
                    &&& rep.computer == prev.computer
                    &&& rep.nonce_hex == prev.random_bytes
                    &&& rep.commitment == prev.digest
                    &&& rep.outcome == vs_spec(hand, prev.computer)
                    &&& s_new.win_count == s_old.win_count + (
                    if beats(hand, prev.computer) {
                        1int
                    } else {
                        0int
                    })
                    &&& s_new.tie_count == s_old.tie_count + (
                    if hand == prev.computer {
                        1int
                    } else {
                        0int
                    })
                    &&& s_new.loss_count == s_old.loss_count + (
                    if beats(prev.computer, hand) {
                        1int
                    } else {
                        0int
                    })
                    &&& rep.win_count == s_new.win_count
                    &&& rep.tie_count == s_new.tie_count
                    &&& rep.loss_count == s_new.loss_count
                    &&& rep.commitment@ == commitment_spec(rep.nonce_hex@, rep.computer)
                    &&& rep.commitment@.len() == 64
                    &&& is_hex_text(rep.nonce_hex@)
                    &&& rep.nonce_hex@.len() == 2 * NONCE_LEN
                    &&& s_new.last_round matches Some(next) && next.well_formed()
                        && rep.new_commitment == next.digest
                })
            }),
    {
        proof {
            lemma_map_of_contains(self.sessions@, user_id@);
        }
        match self.find_index(user_id) {
            Some(i) => {
                proof {
                    lemma_map_of_index(self.sessions@, i as int);
                }
                let ghost s0 = self.sessions@;
                let pair = self.sessions.remove(i);
                let key = pair.0;
                let mut sess = pair.1;
                let res = sess.submit_answer(hand);
                self.sessions.insert(i, (key, sess));
                proof {
                    assert(self.sessions@ =~= s0.update(i as int, (key, sess)));
                    lemma_map_of_update(s0, i as int, (key, sess));
                }
                match res {
                    Ok(rep) => Ok(rep),
                    Err(_) => {
                        proof {
                            assert(map_of(s0).insert(user_id@, sess) =~= map_of(s0));
                        }
                        Err(SubmitError::NoPendingRound)
                    },
                }
            },
            None => Err(SubmitError::UnknownUser),
        }
    }
}

} // verus!
