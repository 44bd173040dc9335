//! The server side of the tunnel: the handshake that opens a session and the
//! registry of open sessions, found by their clients' tokens.

use vstd::prelude::*;

use crate::message::Message;
use crate::text::str_eq;

verus! {

/// Decides whether a client's token is accepted.
pub trait Authorizer {
    /// Whether `token` is accepted.
    fn auth(&self, token: &str) -> bool;
}

/// Why the server refused a new connection.
#[derive(Debug, Clone, Copy, PartialEq, Eq)]
pub enum HandshakeError {
    /// The client's first message was not its token.
    InvalidTokenProtocol,
}

impl HandshakeError {
    /// The text the server reports for this error.
    pub fn message(&self) -> (s: String)
        ensures
            s@ == "invalid client token protocol"@,
    {
        "invalid client token protocol".to_owned()
    }
}

/// The token a new client presents in its first message: accepted only when
/// that message is a token.
pub fn handshake(first: Message) -> (r: Result<String, HandshakeError>)
    ensures
        match first {
            Message::Token(t) => r == Ok::<String, HandshakeError>(t),
            _ => r == Err::<String, HandshakeError>(HandshakeError::InvalidTokenProtocol),
        },
{
    match first {
        Message::Token(t) => Ok(t),
        _ => Err(HandshakeError::InvalidTokenProtocol),
    }
}

/// Whether no two entries of `e` have the same token.
pub open spec fn distinct_tokens<S>(e: Seq<(String, S)>) -> bool {
    forall|i: int, j: int|
        0 <= i < e.len() && 0 <= j < e.len() && i != j ==> #[trigger] e[i].0@ != #[trigger] e[j].0@
}

/// Whether some entry of `e` has the token `k`.
pub open spec fn has_token<S>(e: Seq<(String, S)>, k: Seq<char>) -> bool {
    exists|i: int| 0 <= i < e.len() && #[trigger] e[i].0@ == k
}

/// The map from tokens to sessions that the entries `e` stand for.
pub open spec fn token_map<S>(e: Seq<(String, S)>) -> Map<Seq<char>, S> {
    Map::new(
        |k: Seq<char>| has_token(e, k),
        |k: Seq<char>| e[choose|i: int| 0 <= i < e.len() && #[trigger] e[i].0@ == k].1,
    )
}

/// In entries with distinct tokens, the map holds each entry's session under
/// its token.
proof fn lemma_token_map_at<S>(e: Seq<(String, S)>, i: int)
    requires
        distinct_tokens(e),
        0 <= i < e.len(),
    ensures
        token_map(e).contains_key(e[i].0@),
        token_map(e)[e[i].0@] == e[i].1,
{
    let k = e[i].0@;
    assert(has_token(e, k));
    let j = choose|j: int| 0 <= j < e.len() && #[trigger] e[j].0@ == k;
    assert(e[j].0@ == e[i].0@);
    assert(j == i);
}

/// Adding an entry with a new token adds that token to the map.
proof fn lemma_token_map_push<S>(e: Seq<(String, S)>, t: String, s: S)
    requires
        distinct_tokens(e),
        !has_token(e, t@),
    ensures
        distinct_tokens(e.push((t, s))),
        token_map(e.push((t, s))) == token_map(e).insert(t@, s),
{
    let e2 = e.push((t, s));
    assert forall|i: int, j: int|
        0 <= i < e2.len() && 0 <= j < e2.len() && i != j implies #[trigger] e2[i].0@
        != #[trigger] e2[j].0@ by {
        if i < e.len() && j < e.len() {
            assert(e2[i] == e[i] && e2[j] == e[j]);
        } else if i < e.len() {
            assert(e2[i] == e[i]);
            assert(e[i].0@ != t@);
        } else {
            assert(e2[j] == e[j]);
            assert(e[j].0@ != t@);
        }
    }
    let m2 = token_map(e2);
    let m = token_map(e).insert(t@, s);
    assert forall|k: Seq<char>| #[trigger] m2.contains_key(k) <==> m.contains_key(k) by {
        if k == t@ {
            assert(e2[e.len() as int].0@ == k);
        } else if has_token(e, k) {
            let i = choose|i: int| 0 <= i < e.len() && #[trigger] e[i].0@ == k;
            assert(e2[i] == e[i]);
        } else if has_token(e2, k) {
            let i = choose|i: int| 0 <= i < e2.len() && #[trigger] e2[i].0@ == k;
            if i < e.len() {
                assert(e2[i] == e[i]);
            }
        }
    }
    assert forall|k: Seq<char>| #[trigger] m2.contains_key(k) implies m2[k] == m[k] by {
        if k == t@ {
            lemma_token_map_at(e2, e.len() as int);
        } else {
            let i = choose|i: int| 0 <= i < e2.len() && #[trigger] e2[i].0@ == k;
            assert(i < e.len());
            assert(e2[i] == e[i]);
            lemma_token_map_at(e2, i);
            lemma_token_map_at(e, i);
        }
    }
    assert(m2 =~= m);
}

/// Removing the entry at `i` removes its token from the map.
proof fn lemma_token_map_remove<S>(e: Seq<(String, S)>, i: int)
    requires
        distinct_tokens(e),
        0 <= i < e.len(),
    ensures
        distinct_tokens(e.remove(i)),
        !has_token(e.remove(i), e[i].0@),
        token_map(e.remove(i)) == token_map(e).remove(e[i].0@),
{
    let e2 = e.remove(i);
    let t = e[i].0@;
    assert forall|a: int| 0 <= a < e2.len() implies #[trigger] e2[a] == (if a < i {
        e[a]
    } else {
        e[a + 1]
    }) by {}
    assert forall|a: int, b: int|
        0 <= a < e2.len() && 0 <= b < e2.len() && a != b implies #[trigger] e2[a].0@
        != #[trigger] e2[b].0@ by {
        let a1 = if a < i { a } else { a + 1 };
        let b1 = if b < i { b } else { b + 1 };
        assert(e2[a] == e[a1] && e2[b] == e[b1]);
    }
    assert(!has_token(e2, t)) by {
        if has_token(e2, t) {
            let a = choose|a: int| 0 <= a < e2.len() && #[trigger] e2[a].0@ == t;
            let a1 = if a < i { a } else { a + 1 };
            assert(e2[a] == e[a1]);
            assert(e[a1].0@ == e[i].0@);
        }
    }
    let m2 = token_map(e2);
    let m = token_map(e).remove(t);
    assert forall|k: Seq<char>| #[trigger] m2.contains_key(k) <==> m.contains_key(k) by {
        if k != t {
            if has_token(e, k) {
                let a = choose|a: int| 0 <= a < e.len() && #[trigger] e[a].0@ == k;
                assert(a != i);
                let a2 = if a < i { a } else { a - 1 };
                assert(e2[a2] == e[a]);
            }
            if has_token(e2, k) {
                let a = choose|a: int| 0 <= a < e2.len() && #[trigger] e2[a].0@ == k;
                let a1 = if a < i { a } else { a + 1 };
                assert(e2[a] == e[a1]);
            }
        }
    }
    assert forall|k: Seq<char>| #[trigger] m2.contains_key(k) implies m2[k] == m[k] by {
        let a = choose|a: int| 0 <= a < e2.len() && #[trigger] e2[a].0@ == k;
        let a1 = if a < i { a } else { a + 1 };
        assert(e2[a] == e[a1]);
        lemma_token_map_at(e2, a);
        lemma_token_map_at(e, a1);
    }
    assert(m2 =~= m);
}

/// The open sessions of a server, each found by its client's token. A token
/// names at most one session. The entries are kept in a vector, searched by
/// comparing tokens character by character: the standard hash map's
/// specification promises nothing for `String` keys, so a lookup in one could
/// not be tied to the token map.
pub struct Registry<S> {
    entries: Vec<(String, S)>,
}

impl<S> Registry<S> {
    #[verifier::type_invariant]
    spec fn tokens_distinct(self) -> bool {
        distinct_tokens(self.entries@)
    }

    /// The sessions by token.
    pub closed spec fn sessions(self) -> Map<Seq<char>, S> {
        token_map(self.entries@)
    }

    /// A registry with no sessions.
    pub fn new() -> (r: Self)
        ensures
            r.sessions() == Map::<Seq<char>, S>::empty(),
    {
        let r = Registry { entries: Vec::new() };
        assert(r.sessions() =~= Map::<Seq<char>, S>::empty());
        r
    }

    /// Where the entry for `token` stands, if there is one.
    fn position(&self, token: &str) -> (pos: Option<usize>)
        ensures
            match pos {
                Some(i) => i < self.entries@.len() && self.entries@[i as int].0@ == token@,
                None => !has_token(self.entries@, token@),
            },
    {
        let n = self.entries.len();
        for i in 0..n
            invariant
                n == self.entries@.len(),
                forall|j: int| 0 <= j < i ==> #[trigger] self.entries@[j].0@ != token@,
        {
            if str_eq(self.entries[i].0.as_str(), token) {
                return Some(i);
            }
        }
        None
    }

    /// The session of the client with `token`, if it has one.
    pub fn get(&self, token: &str) -> (found: Option<&S>)
        ensures
            match found {
                Some(s) => self.sessions().contains_key(token@) && *s == self.sessions()[token@],
                None => !self.sessions().contains_key(token@),
            },
    {
        proof {
            use_type_invariant(self);
        }
        match self.position(token) {
            Some(i) => {
                proof {
                    lemma_token_map_at(self.entries@, i as int);
                }
                Some(&self.entries[i].1)
            },
            None => None,
        }
    }

    /// Records `session` as the session of the client with `token`, replacing
    /// and returning the session recorded before for that token, if any.
    pub fn insert(&mut self, token: String, session: S) -> (prev: Option<S>)
        ensures
            final(self).sessions() == old(self).sessions().insert(token@, session),
            match prev {
                Some(p) => old(self).sessions().contains_key(token@) && p == old(self).sessions()[
                    token@
                ],
                None => !old(self).sessions().contains_key(token@),
            },
    {
        proof {
            use_type_invariant(&*self);
        }
        let pos = self.position(token.as_str());
        let mut entries: Vec<(String, S)> = Vec::new();
        std::mem::swap(&mut entries, &mut self.entries);
        let ghost e0 = entries@;
        let prev = match pos {
            Some(i) => {
                proof {
                    lemma_token_map_at(e0, i as int);
                    lemma_token_map_remove(e0, i as int);
                }
                let (_, old_session) = entries.remove(i);
                Some(old_session)
            },
            None => None,
        };
        proof {
            lemma_token_map_push(entries@, token, session);
        }
        entries.push((token, session));
        proof {
            assert(token_map(entries@) =~= token_map(e0).insert(token@, session));
        }
        self.entries = entries;
        prev
    }
}

/// What a registry gives back for a token after a session was recorded under
/// it: that session; and every other token keeps what it had.
pub proof fn law_registry_read_after_write<S>(
    before: Registry<S>,
    after: Registry<S>,
    token: Seq<char>,
    session: S,
    other: Seq<char>,
)
    requires
        after.sessions() == before.sessions().insert(token, session),
    ensures
        after.sessions().contains_key(token),
        after.sessions()[token] == session,
        other != token ==> (after.sessions().contains_key(other) <==> before.sessions().contains_key(
            other,
        )),
        other != token && before.sessions().contains_key(other) ==> after.sessions()[other]
            == before.sessions()[other],
{
}

} // verus!
