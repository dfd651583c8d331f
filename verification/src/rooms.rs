//! Room membership bookkeeping.
//!
//! A fixed pool of rooms is created at startup; each room holds the set
//! of usernames currently assigned to it.  Which room a player joins is
//! an outside collaborator's decision — this core only guarantees the
//! removal side: when a session is torn down, the username leaves
//! whichever room held it.

use vstd::prelude::*;
use crate::text::str_eq;

verus! {

/// One room: the usernames currently assigned to it.
pub struct Room {
    pub players: Vec<String>,
}

impl Room {
    /// The usernames as a sequence of character strings.
    pub open spec fn players_seq(&self) -> Seq<Seq<char>> {
        self.players@.map_values(|p: String| p@)
    }

    /// The usernames as a set.
    pub open spec fn players_set(&self) -> Set<Seq<char>> {
        Set::new(|u: Seq<char>| self.players_seq().contains(u))
    }

    pub open spec fn has(&self, u: Seq<char>) -> bool {
        self.players_seq().contains(u)
    }

    /// No username is listed twice.
    pub open spec fn wf(&self) -> bool {
        forall|i: int, j: int|
            0 <= i < j < self.players_seq().len() ==> self.players_seq()[i]
                != self.players_seq()[j]
    }

    /// An empty room.
    pub fn new() -> (r: Room)
        ensures
            r.wf(),
            r.players_set() =~= Set::empty(),
            r.players_seq().len() == 0,
    {
        Room { players: Vec::new() }
    }

    /// Adds a username to the room, unless it is already there.
    pub fn add(&mut self, username: &str)
        requires
            old(self).wf(),
        ensures
            final(self).wf(),
            final(self).players_set() =~= old(self).players_set().insert(username@),
    {
        if !self.contains(username) {
            let ghost before = self.players_seq();
            self.players.push(username.to_owned());
            proof {
                assert forall|j: int|
                    0 <= j < self.players_seq().len() implies self.players_seq()[j]
                    == before.push(username@)[j] by {
                    if j < before.len() {
                        assert(self.players@[j] == old(self).players@[j]);
                    }
                }
                assert(self.players_seq() =~= before.push(username@));
                assert forall|u: Seq<char>| self.players_seq().contains(u) implies before.contains(
                    u,
                ) || u == username@ by {
                    let i = choose|i: int|
                        0 <= i < self.players_seq().len() && self.players_seq()[i] == u;
                    if i < before.len() {
                        assert(before[i] == u);
                    }
                }
                assert forall|u: Seq<char>|
                    before.contains(u) || u == username@ implies self.players_seq().contains(
                    u,
                ) by {
                    if before.contains(u) {
                        let i = choose|i: int| 0 <= i < before.len() && before[i] == u;
                        assert(self.players_seq()[i] == u);
                    } else {
                        assert(self.players_seq()[before.len() as int] == username@);
                    }
                }
                assert(self.players_set() =~= old(self).players_set().insert(username@));
            }
        } else {
            proof {
                assert(old(self).players_set().contains(username@));
                assert(self.players_set() =~= old(self).players_set().insert(username@));
            }
        }
    }

    /// Whether the room currently holds `username`.
    pub fn contains(&self, username: &str) -> (r: bool)
        ensures
            r == self.has(username@),
    {
        let mut i: usize = 0;
        while i < self.players.len()
            invariant
                i <= self.players.len(),
                forall|j: int| 0 <= j < i ==> self.players_seq()[j] != username@,
            decreases self.players.len() - i,
        {
            if str_eq(self.players[i].as_str(), username) {
                assert(self.players@[i as int]@ == username@);
                assert(self.players_seq().len() == self.players@.len());
                assert(self.players_seq()[i as int] == self.players@[i as int]@);
                return true;
            }
            i = i + 1;
        }
        false
    }

    /// Removes `username` from the room, if present.  Reports whether it
    /// was.
    pub fn remove(&mut self, username: &str) -> (r: bool)
        requires
            old(self).wf(),
        ensures
            final(self).wf(),
            r == old(self).has(username@),
            final(self).players_set() =~= old(self).players_set().remove(username@),
    {
        let mut i: usize = 0;
        while i < self.players.len()
            invariant
                i <= self.players.len(),
                old(self).wf(),
                *self == *old(self),
                forall|j: int| 0 <= j < i ==> self.players_seq()[j] != username@,
            decreases self.players.len() - i,
        {
            if str_eq(self.players[i].as_str(), username) {
                assert(self.players@[i as int]@ == username@);
                assert(old(self).players_seq()[i as int] == self.players@[i as int]@);
                let ghost v0 = self.players@;
                self.players.remove(i);
                proof {
                    assert(self.players@ == v0.remove(i as int));
                    assert forall|j: int|
                        0 <= j < self.players_seq().len() implies self.players_seq()[j]
                        == old(self).players_seq().remove(i as int)[j] by {
                        if j < i as int {
                            assert(v0.remove(i as int)[j] == v0[j]);
                            assert(old(self).players_seq().remove(i as int)[j] == old(self).players_seq()[j]);
                        } else {
                            assert(v0.remove(i as int)[j] == v0[j + 1]);
                            assert(old(self).players_seq().remove(i as int)[j] == old(self).players_seq()[j + 1]);
                        }
                    }
                    assert(self.players_seq() =~= old(self).players_seq().remove(i as int));
                    lemma_remove_distinct_elem(old(self).players_seq(), i as int);
                    assert(final(self).players_set() =~= old(self).players_set().remove(
                        username@,
                    ));
                }
                return true;
            }
            i = i + 1;
        }
        proof {
            assert(!old(self).has(username@));
            assert(final(self).players_set() =~= old(self).players_set().remove(username@));
        }
        false
    }
}

/// Removing position `i` from a duplicate-free sequence removes exactly
/// the element at `i` from the set of elements.
proof fn lemma_remove_distinct_elem(s: Seq<Seq<char>>, i: int)
    requires
        0 <= i < s.len(),
        forall|p: int, q: int| 0 <= p < q < s.len() ==> s[p] != s[q],
    ensures
        forall|u: Seq<char>| s.remove(i).contains(u) <==> (s.contains(u) && u != s[i]),
        forall|p: int, q: int|
            0 <= p < q < s.remove(i).len() ==> s.remove(i)[p] != s.remove(i)[q],
{
    let t = s.remove(i);
    assert forall|u: Seq<char>| t.contains(u) implies (s.contains(u) && u != s[i]) by {
        let j = choose|j: int| 0 <= j < t.len() && t[j] == u;
        if j < i {
            assert(s[j] == u);
        } else {
            assert(s[j + 1] == u);
        }
    }
    assert forall|u: Seq<char>| (s.contains(u) && u != s[i]) implies t.contains(u) by {
        let j = choose|j: int| 0 <= j < s.len() && s[j] == u;
        if j < i {
            assert(t[j] == u);
        } else {
            assert(j != i);
            assert(t[j - 1] == u);
        }
    }
}

} // verus!
