//! The session/identity layer: the state machine that decides, for one
//! decoded inbound event, what the server replies and how the shared
//! state changes.
//!
//! Per connection the protocol runs `Unauthenticated → Authenticated →
//! Closed`, never backwards.  While unauthenticated only `Identify` is
//! accepted; it reattaches an abandoned session by token — the
//! username in the payload is advisory only and never used for the
//! match, so a session can be reclaimed only by possessing its exact
//! token.  A redeemed token is removed at once: reattachment is
//! single-use.  While authenticated, `Close` tears the session down,
//! `Message` is answered with a greeting, and unknown names pass
//! through unanswered.

use vstd::prelude::*;
use crate::codec::{
    Event,
    ProtocolError,
    canonical_json,
    decode_identification,
    frame_fields,
    identification_fields,
    json_null,
    json_string,
    plain_text,
    quoted,
};
use crate::rooms::Room;
use crate::stores::{IdentityStore, SessionStore, identities_of, sessions_of};
use crate::text::{dec_rep, i32_to_dec, lemma_dec_rep_digits};

verus! {

/// Everything the relay owns: the authenticated sessions, the
/// single-use reattachment records, and the fixed room pool.  The
/// transport layer owns one value of this behind its own lock and
/// feeds every decoded event through [`ServerState::handle_event`].
pub struct ServerState {
    pub sessions: SessionStore,
    pub identities: IdentityStore,
    pub rooms: Vec<Room>,
}

/// The mathematical content of a server state: who is bound to which
/// connection, which tokens are outstanding, and who sits in which room.
#[verifier::ext_equal]
pub ghost struct StateView {
    pub sessions: Map<int, Seq<char>>,
    pub identities: Map<Seq<char>, Seq<char>>,
    pub rooms: Seq<Set<Seq<char>>>,
}

/// Each username is bound to at most one connection.
pub open spec fn bound_once(m: Map<int, Seq<char>>) -> bool {
    forall|i: int, j: int| #![trigger m[i], m[j]]
        m.contains_key(i) && m.contains_key(j) && m[i] == m[j] ==> i == j
}

/// `m` with every binding of username `u` dropped.
pub open spec fn unbind(m: Map<int, Seq<char>>, u: Seq<char>) -> Map<int, Seq<char>> {
    Map::new(|k: int| m.contains_key(k) && m[k] != u, |k: int| m[k])
}

/// Whether some outstanding record bears token `tok`.
pub open spec fn has_token(ids: Map<Seq<char>, Seq<char>>, tok: Seq<char>) -> bool {
    exists|u: Seq<char>| #[trigger] ids.contains_key(u) && ids[u] == tok
}

/// The state after connection `conn` successfully redeems the record of
/// username `u`: the record is consumed, any prior binding of `u` is
/// evicted, and `conn` is bound to `u`.  Room membership survives.
pub open spec fn redeem(v: StateView, conn: int, u: Seq<char>) -> StateView {
    StateView {
        sessions: unbind(v.sessions, u).insert(conn, u),
        identities: v.identities.remove(u),
        rooms: v.rooms,
    }
}

/// The state after full teardown of `u`'s session on `conn`: the
/// binding goes, `u` leaves whichever room held it, and any stale
/// reattachment record of `u` is purged.
pub open spec fn teardown(v: StateView, conn: int, u: Seq<char>) -> StateView {
    StateView {
        sessions: unbind(v.sessions, u).remove(conn),
        identities: v.identities.remove(u),
        rooms: Seq::new(v.rooms.len(), |i: int| v.rooms[i].remove(u)),
    }
}

pub open spec fn success_text() -> Seq<char> {
    "\u{8eab}\u{4efd}\u{9a8c}\u{8bc1}\u{6210}\u{529f}"@
}

pub open spec fn greeting_text(conn: int) -> Seq<char> {
    "hello, "@ + dec_rep(conn as nat) + "!"@
}

/// The reply is an Abort addressed to `conn` with a null payload.
pub open spec fn is_abort(r: Option<Event>, conn: int) -> bool {
    r matches Some(e) && e.id == conn && e.name@ == "Abort"@ && e.dat@ == "null"@
}

/// The reply is a Message addressed to `conn` whose payload is the
/// JSON string of `text`.
pub open spec fn is_message(r: Option<Event>, conn: int, text: Seq<char>) -> bool {
    r matches Some(e) && e.id == conn && e.name@ == "Message"@ && e.dat@ == quoted(text)
}

/// The reply is an Error addressed to `conn` naming the malformed frame.
pub open spec fn is_error_reply(r: Option<Event>, conn: int) -> bool {
    r matches Some(e) && e.id == conn && e.name@ == "Error"@ && e.dat@ == quoted(
        "malformed message"@,
    )
}

/// What one decoded inbound event named `name` with payload text `dat`,
/// arriving on connection `conn`, does to the state and replies.
pub open spec fn handled(
    v0: StateView,
    conn: int,
    name: Seq<char>,
    dat: Seq<char>,
    v1: StateView,
    r: Option<Event>,
) -> bool {
    if name == "Identify"@ {
        match identification_fields(dat) {
            Some(ui) => if has_token(v0.identities, ui.1) {
                &&& is_message(r, conn, success_text())
                &&& exists|u: Seq<char>|
                    #[trigger] v0.identities.contains_key(u) && v0.identities[u] == ui.1 && v1
                        == redeem(v0, conn, u)
            } else {
                is_abort(r, conn) && v1 == v0
            },
            None => is_abort(r, conn) && v1 == v0,
        }
    } else if !v0.sessions.contains_key(conn) {
        is_abort(r, conn) && v1 == v0
    } else {
        let u = v0.sessions[conn];
        if name == "Close"@ {
            r is None && v1 == teardown(v0, conn, u)
        } else if name == "Message"@ {
            is_message(r, conn, greeting_text(conn)) && v1 == v0
        } else {
            r is None && v1 == v0
        }
    }
}

impl ServerState {
    /// The rooms' member sets, in pool order.
    pub open spec fn rooms_view(&self) -> Seq<Set<Seq<char>>> {
        Seq::new(self.rooms@.len(), |i: int| self.rooms@[i].players_set())
    }

    /// The mathematical content of this state.
    pub open spec fn model(&self) -> StateView {
        StateView {
            sessions: sessions_of(self.sessions),
            identities: identities_of(self.identities),
            rooms: self.rooms_view(),
        }
    }

    /// The invariants of the relay: a username is bound to at most one
    /// open connection, every room is duplicate-free, and a username
    /// occupies at most one room across the whole pool.
    pub open spec fn wf(&self) -> bool {
        &&& bound_once(self.model().sessions)
        &&& forall|k: int| 0 <= k < self.rooms@.len() ==> (#[trigger] self.rooms@[k]).wf()
        &&& forall|k1: int, k2: int, u: Seq<char>|
            0 <= k1 < self.rooms@.len() && 0 <= k2 < self.rooms@.len()
                && #[trigger] self.rooms@[k1].has(u) && #[trigger] self.rooms@[k2].has(u) ==> k1
                == k2
    }

    /// A fresh state: no sessions, no outstanding tokens, and a pool of
    /// `room_count` empty rooms.
    pub fn new(room_count: usize) -> (r: ServerState)
        ensures
            r.wf(),
            r.model().sessions =~= Map::empty(),
            r.model().identities =~= Map::empty(),
            r.model().rooms.len() == room_count,
            forall|k: int| 0 <= k < room_count ==> r.model().rooms[k] =~= Set::<Seq<char>>::empty(),
    {
        let mut rooms: Vec<Room> = Vec::new();
        let mut k: usize = 0;
        while k < room_count
            invariant
                k <= room_count,
                rooms@.len() == k,
                forall|i: int|
                    0 <= i < k ==> (#[trigger] rooms@[i]).wf() && rooms@[i].players_seq().len()
                        == 0,
            decreases room_count - k,
        {
            rooms.push(Room::new());
            k = k + 1;
        }
        let r = ServerState {
            sessions: SessionStore::new(),
            identities: IdentityStore::new(),
            rooms,
        };
        proof {
            assert forall|k2: int| 0 <= k2 < room_count implies r.model().rooms[k2]
                =~= Set::<Seq<char>>::empty() by {
                assert forall|u: Seq<char>| !r.rooms@[k2].players_set().contains(u) by {
                    assert(!r.rooms@[k2].players_seq().contains(u));
                }
            }
        }
        r
    }

    /// Tears a player's shared state down: the session binding of
    /// `username` goes, `username` leaves whichever room held it, and
    /// any stale reattachment record of `username` is purged.
    pub fn remove_player(&mut self, username: &str)
        requires
            old(self).wf(),
        ensures
            final(self).wf(),
            final(self).model().sessions == unbind(old(self).model().sessions, username@),
            final(self).model().identities == old(self).model().identities.remove(username@),
            final(self).model().rooms =~= Seq::new(
                old(self).model().rooms.len(),
                |i: int| old(self).model().rooms[i].remove(username@),
            ),
    {
        self.identities.remove(username);
        let ghost sess0 = sessions_of(old(self).sessions);
        match self.sessions.find_by_username(username) {
            Some(id) => {
                self.sessions.remove(id);
                proof {
                    assert forall|k: int|
                        #[trigger] sess0.remove(id as int).contains_key(k) == unbind(
                            sess0,
                            username@,
                        ).contains_key(k) by {
                        if sess0.contains_key(k) && sess0[k] == username@ {
                            assert(sess0[k] == sess0[id as int]);
                            assert(k == id as int);
                        }
                    }
                    assert(sessions_of(self.sessions) =~= unbind(sess0, username@));
                }
            },
            None => {
                proof {
                    assert(sessions_of(self.sessions) =~= unbind(sess0, username@));
                }
            },
        }
        let ghost sess_done = self.sessions;
        let ghost ids_done = self.identities;
        let ghost rooms0 = old(self).rooms@;
        let mut k: usize = 0;
        while k < self.rooms.len()
            invariant
                k <= self.rooms.len(),
                old(self).wf(),
                self.rooms@.len() == rooms0.len(),
                rooms0 == old(self).rooms@,
                self.sessions == sess_done,
                self.identities == ids_done,
                forall|i: int|
                    0 <= i < k ==> (#[trigger] self.rooms@[i]).wf() && self.rooms@[i].players_set()
                        =~= rooms0[i].players_set().remove(username@),
                forall|i: int| k <= i < rooms0.len() ==> self.rooms@[i] == rooms0[i],
            decreases self.rooms.len() - k,
        {
            proof {
                assert(rooms0[k as int].wf());
            }
            let room = &mut self.rooms[k];
            room.remove(username);
            k = k + 1;
        }
        proof {
            assert(final(self).model().rooms =~= Seq::new(
                old(self).model().rooms.len(),
                |i: int| old(self).model().rooms[i].remove(username@),
            ));
            assert(final(self).model().sessions =~= unbind(old(self).model().sessions, username@));
            assert(final(self).wf()) by {
                assert forall|i: int, j: int|
                    #![trigger final(self).model().sessions[i], final(self).model().sessions[j]]
                    final(self).model().sessions.contains_key(i)
                        && final(self).model().sessions.contains_key(j)
                        && final(self).model().sessions[i] == final(self).model().sessions[j]
                        implies i == j by {
                    assert(sess0.contains_key(i) && sess0.contains_key(j) && sess0[i] == sess0[j]);
                }
                assert forall|k1: int, k2: int, u: Seq<char>|
                    0 <= k1 < final(self).rooms@.len() && 0 <= k2 < final(self).rooms@.len()
                        && #[trigger] final(self).rooms@[k1].has(u)
                        && #[trigger] final(self).rooms@[k2].has(u) implies k1 == k2 by {
                    assert(final(self).rooms@[k1].players_set().contains(u));
                    assert(old(self).rooms@[k1].players_set().contains(u));
                    assert(old(self).rooms@[k1].has(u));
                    assert(final(self).rooms@[k2].players_set().contains(u));
                    assert(old(self).rooms@[k2].players_set().contains(u));
                    assert(old(self).rooms@[k2].has(u));
                }
            }
        }
    }

    /// The Identify handshake.  The payload must parse to `{username,
    /// identity}`; the token is matched against the outstanding records
    /// by value — the advisory `username` field is never used for the
    /// match, so a session can be reclaimed only by possessing its
    /// exact token.  On a match the record is consumed (single-use) and
    /// any prior session binding of the recovered username is evicted;
    /// the recovered username is handed back for the caller to bind.
    /// On no match, or an ill-formed payload, nothing changes.
    pub fn identify(&mut self, dat: &str) -> (r: Result<String, ()>)
        requires
            old(self).wf(),
        ensures
            final(self).wf(),
            final(self).rooms == old(self).rooms,
            match r {
                Ok(u) => identification_fields(dat@) matches Some(ui) && old(
                    self,
                ).model().identities.contains_key(u@) && old(self).model().identities[u@] == ui.1
                    && final(self).model().identities == old(self).model().identities.remove(u@)
                    && final(self).model().sessions == unbind(old(self).model().sessions, u@),
                Err(_) => *final(self) == *old(self) && (identification_fields(dat@) matches Some(
                    ui,
                ) ==> !has_token(old(self).model().identities, ui.1)),
            },
    {
        match decode_identification(dat) {
            None => Err(()),
            Some((_, token)) => match self.identities.find_by_token(token.as_str()) {
                None => {
                    proof {
                        if has_token(identities_of(self.identities), token@) {
                            let u = choose|u: Seq<char>|
                                #[trigger] identities_of(self.identities).contains_key(u)
                                    && identities_of(self.identities)[u] == token@;
                            assert(false);
                        }
                    }
                    Err(())
                },
                Some(username) => {
                    let ghost uu = username@;
                    self.identities.remove(username.as_str());
                    let ghost sess0 = sessions_of(self.sessions);
                    match self.sessions.find_by_username(username.as_str()) {
                        Some(oldc) => {
                            self.sessions.remove(oldc);
                            proof {
                                assert forall|k: int|
                                    #[trigger] sess0.remove(oldc as int).contains_key(k) == unbind(
                                        sess0,
                                        uu,
                                    ).contains_key(k) by {
                                    if sess0.contains_key(k) && sess0[k] == uu {
                                        assert(sess0[k] == sess0[oldc as int]);
                                        assert(k == oldc as int);
                                    }
                                }
                                assert(sessions_of(self.sessions) =~= unbind(sess0, uu));
                            }
                        },
                        None => {
                            proof {
                                assert(sessions_of(self.sessions) =~= unbind(sess0, uu));
                            }
                        },
                    }
                    proof {
                        let m = sessions_of(self.sessions);
                        assert(bound_once(m)) by {
                            assert forall|i: int, j: int| #![trigger m[i], m[j]]
                                m.contains_key(i) && m.contains_key(j) && m[i] == m[j]
                                    implies i == j by {
                                assert(sess0[i] == sess0[j]);
                            }
                        }
                    }
                    Ok(username)
                },
            },
        }
    }

    /// Decides one decoded inbound event: mutates the shared state and
    /// hands back the reply to publish, exactly as [`handled`] says.
    /// Every reply is addressed to the sending connection and carries
    /// canonical JSON payload text, so encoding it cannot fail.
    pub fn handle_event(&mut self, event: &Event) -> (r: Option<Event>)
        requires
            old(self).wf(),
            event.id >= 1,
        ensures
            final(self).wf(),
            handled(
                old(self).model(),
                event.id as int,
                event.name@,
                event.dat@,
                final(self).model(),
                r,
            ),
            r matches Some(e) ==> canonical_json(e.dat@) && e.id == event.id,
    {
        let identify = String::from_str("Identify");
        if event.name == identify {
            let ghost v0 = old(self).model();
            match self.identify(event.dat.as_str()) {
                Err(_) => Some(abort_reply(event.id)),
                Ok(username) => {
                    let ghost uu = username@;
                    self.sessions.insert(event.id, username);
                    proof {
                        let conn = event.id as int;
                        let m = sessions_of(self.sessions);
                        assert(m == unbind(v0.sessions, uu).insert(conn, uu));
                        assert(self.model() =~~= redeem(v0, conn, uu));
                        assert(v0.identities.contains_key(uu) && self.model() == redeem(
                            v0,
                            conn,
                            uu,
                        ));
                        assert(bound_once(m)) by {
                            assert forall|i: int, j: int| #![trigger m[i], m[j]]
                                m.contains_key(i) && m.contains_key(j) && m[i] == m[j]
                                    implies i == j by {
                                if i != conn && j != conn {
                                    assert(v0.sessions[i] == v0.sessions[j]);
                                } else if i == conn && j != conn {
                                    assert(unbind(v0.sessions, uu).contains_key(j)
                                        && unbind(v0.sessions, uu)[j] == uu);
                                    assert(false);
                                } else if i != conn && j == conn {
                                    assert(unbind(v0.sessions, uu).contains_key(i)
                                        && unbind(v0.sessions, uu)[i] == uu);
                                    assert(false);
                                }
                            }
                        }
                    }
                    Some(Event {
                        id: event.id,
                        name: String::from_str("Message"),
                        dat: success_dat(),
                    })
                },
            }
        } else {
            let username_opt: Option<String> = match self.sessions.get(event.id) {
                Some(u) => Some(u.clone()),
                None => None,
            };
            match username_opt {
                None => Some(abort_reply(event.id)),
                Some(username) => {
                    let close = String::from_str("Close");
                    let message = String::from_str("Message");
                    if event.name == close {
                        let ghost v0 = old(self).model();
                        let ghost uu = username@;
                        self.remove_player(username.as_str());
                        self.sessions.remove(event.id);
                        proof {
                            let conn = event.id as int;
                            assert(self.model() =~~= teardown(v0, conn, uu));
                            let m = sessions_of(self.sessions);
                            assert(bound_once(m)) by {
                                assert forall|i: int, j: int| #![trigger m[i], m[j]]
                                    m.contains_key(i) && m.contains_key(j) && m[i] == m[j]
                                        implies i == j by {
                                    assert(unbind(v0.sessions, uu)[i] == unbind(
                                        v0.sessions,
                                        uu,
                                    )[j]);
                                    assert(v0.sessions[i] == v0.sessions[j]);
                                }
                            }
                        }
                        None
                    } else if event.name == message {
                        let dat = json_string(greeting(event.id).as_str());
                        Some(Event { id: event.id, name: String::from_str("Message"), dat })
                    } else {
                        None
                    }
                },
            }
        }
    }

    /// The inbound pump's whole decision for one transport frame:
    /// decode it, run it through the state machine, and on a malformed
    /// frame leave the state alone and address an Error event back to
    /// the sender instead of closing the connection.
    pub fn process_frame(&mut self, conn: i32, text: &str) -> (r: Option<Event>)
        requires
            old(self).wf(),
            conn >= 1,
        ensures
            final(self).wf(),
            match frame_fields(text@) {
                Some(f) => handled(
                    old(self).model(),
                    conn as int,
                    f.1,
                    f.2,
                    final(self).model(),
                    r,
                ),
                None => final(self).model() == old(self).model() && is_error_reply(
                    r,
                    conn as int,
                ),
            },
            r matches Some(e) ==> canonical_json(e.dat@) && e.id == conn,
    {
        match Event::from(conn, text) {
            Ok(event) => self.handle_event(&event),
            Err(fault) => Some(error_reply(conn, &fault)),
        }
    }
}

/// The Error event a malformed inbound frame provokes, addressed back
/// to the offending connection; the connection itself stays open.
pub fn error_reply(conn: i32, fault: &ProtocolError) -> (r: Event)
    ensures
        r.id == conn,
        r.name@ == "Error"@,
        r.dat@ == quoted("malformed message"@),
        canonical_json(r.dat@),
{
    proof {
        reveal_strlit("malformed message");
        assert(plain_text("malformed message"@));
    }
    let dat = json_string(fault.message());
    Event { id: conn, name: String::from_str("Error"), dat }
}

/// Reattachment is single-use: once connection `conn1` has redeemed the
/// only record bearing token `tok` — the record of username `u` — no
/// record with `tok` remains, and a second Identify carrying `tok`,
/// serialized after the first, is answered with Abort and changes
/// nothing.  Two connections racing for one token therefore cannot both
/// succeed.
pub proof fn lemma_reattach_single_use(
    v0: StateView,
    conn1: int,
    u: Seq<char>,
    tok: Seq<char>,
    conn2: int,
    dat2: Seq<char>,
    v2: StateView,
    r2: Option<Event>,
)
    requires
        v0.identities.contains_key(u) && v0.identities[u] == tok,
        forall|w: Seq<char>|
            #[trigger] v0.identities.contains_key(w) && v0.identities[w] == tok ==> w == u,
        identification_fields(dat2) matches Some(ui) && ui.1 == tok,
        handled(redeem(v0, conn1, u), conn2, "Identify"@, dat2, v2, r2),
    ensures
        !has_token(redeem(v0, conn1, u).identities, tok),
        is_abort(r2, conn2),
        v2 == redeem(v0, conn1, u),
{
    let v1 = redeem(v0, conn1, u);
    if has_token(v1.identities, tok) {
        let w = choose|w: Seq<char>|
            #[trigger] v1.identities.contains_key(w) && v1.identities[w] == tok;
        assert(v0.identities.contains_key(w) && v0.identities[w] == tok);
        assert(false);
    }
}

/// After a successful reattachment the reclaimed record no longer
/// exists and the reclaiming connection is bound to the recovered
/// username.
pub proof fn lemma_reattach_binds_and_consumes(v0: StateView, conn: int, u: Seq<char>)
    ensures
        !redeem(v0, conn, u).identities.contains_key(u),
        redeem(v0, conn, u).sessions.contains_key(conn),
        redeem(v0, conn, u).sessions[conn] == u,
{
}

/// The Abort reply sent to connection `conn` on any authentication or
/// authorization failure.
fn abort_reply(conn: i32) -> (r: Event)
    ensures
        r.id == conn,
        r.name@ == "Abort"@,
        r.dat@ == "null"@,
        canonical_json(r.dat@),
{
    Event { id: conn, name: String::from_str("Abort"), dat: json_null() }
}

/// The payload text of the success Message that answers a redeemed
/// Identify.
fn success_dat() -> (r: String)
    ensures
        r@ == quoted(success_text()),
        canonical_json(r@),
{
    proof {
        reveal_strlit("\u{8eab}\u{4efd}\u{9a8c}\u{8bc1}\u{6210}\u{529f}");
        assert(plain_text("\u{8eab}\u{4efd}\u{9a8c}\u{8bc1}\u{6210}\u{529f}"@));
    }
    json_string("\u{8eab}\u{4efd}\u{9a8c}\u{8bc1}\u{6210}\u{529f}")
}

/// The greeting an authenticated Message is answered with, derived from
/// the connection id.
pub fn greeting(conn: i32) -> (r: String)
    requires
        conn >= 0,
    ensures
        r@ == greeting_text(conn as int),
        plain_text(r@),
{
    let mut s = String::from_str("hello, ");
    let digits = i32_to_dec(conn);
    s.append(digits.as_str());
    s.append("!");
    proof {
        reveal_strlit("hello, ");
        reveal_strlit("!");
        lemma_dec_rep_digits(conn as nat);
        let p = "hello, "@;
        let d = dec_rep(conn as nat);
        let e = "!"@;
        assert(s@ == p + d + e);
        assert forall|i: int|
            0 <= i < s@.len() implies (#[trigger] s@[i]) as u32 >= 32 && s@[i] as u32 != 34
            && s@[i] as u32 != 92 by {
            if i < p.len() {
                assert(s@[i] == p[i]);
            } else if i < p.len() + d.len() {
                assert(s@[i] == d[i - p.len()]);
            } else {
                assert(s@[i] == e[i - p.len() - d.len()]);
            }
        }
    }
    s
}

} // verus!
