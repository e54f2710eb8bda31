//! The session directory: mints and revokes opaque session tokens.
//!
//! A session associates a bearer token with the account it was issued for.
//! The store is a token-keyed sequence with pairwise-distinct tokens; all
//! contracts are stated over its view, a `Seq` of [`SessionView`] records.

use vstd::prelude::*;

use crate::ids::fresh_id;

verus! {

/// The mathematical model of one session: the token and the account
/// (by its identifier) the token was issued for.
pub ghost struct SessionView {
    pub token: Seq<char>,
    pub owner: Seq<char>,
}

/// One issued session: an opaque bearer token and the account it belongs to.
struct Session {
    token: String,
    owner: String,
}

impl View for Session {
    type V = SessionView;

    closed spec fn view(&self) -> SessionView {
        SessionView { token: self.token@, owner: self.owner@ }
    }
}

/// Whether some session in `s` carries the token `t`.
pub open spec fn has_token(s: Seq<SessionView>, t: Seq<char>) -> bool {
    exists|i: int| 0 <= i < s.len() && s[i].token == t
}

/// Whether `s` maps the token `t` to the account `owner`.
pub open spec fn token_resolves_to(s: Seq<SessionView>, t: Seq<char>, owner: Seq<char>) -> bool {
    exists|i: int| 0 <= i < s.len() && s[i].token == t && s[i].owner == owner
}

/// Well-formedness of the session store: tokens are pairwise distinct, so a
/// token, once issued, identifies exactly one account until revoked.
pub open spec fn tokens_unique(s: Seq<SessionView>) -> bool {
    forall|i: int, j: int|
        0 <= i < s.len() && 0 <= j < s.len() && i != j ==> s[i].token != s[j].token
}

/// The contract of a session directory, over its view: a token-keyed
/// sequence of sessions with pairwise-distinct tokens.
pub trait Sessions: View<V = Seq<SessionView>> + Sized {
    /// Mints a session for the account `user_uuid` and returns its bearer
    /// token: afterwards the token resolves to that account and no other
    /// token's validity or owner has changed. When the drawn token was not
    /// already issued — every case but a negligible random collision — the
    /// store has exactly grown by the new session.
    fn create_session(&mut self, user_uuid: &str) -> (token: String)
        requires
            tokens_unique(old(self)@),
        ensures
            tokens_unique(final(self)@),
            token_resolves_to(final(self)@, token@, user_uuid@),
            forall|t: Seq<char>, o: Seq<char>|
                #[trigger] token_resolves_to(final(self)@, t, o) && t != token@
                    ==> token_resolves_to(old(self)@, t, o),
            forall|t: Seq<char>, o: Seq<char>|
                #[trigger] token_resolves_to(old(self)@, t, o) && t != token@
                    ==> token_resolves_to(final(self)@, t, o),
            !has_token(old(self)@, token@) ==> final(self)@ == old(self)@.push(
                (SessionView { token: token@, owner: user_uuid@ }),
            ),
    ;

    /// Revokes the session carrying the token `session`: afterwards that
    /// token is not valid, and every other token resolves exactly as before.
    /// A no-op (never an error) when the token is unknown or already revoked.
    fn delete_session(&mut self, session: &str)
        requires
            tokens_unique(old(self)@),
        ensures
            tokens_unique(final(self)@),
            !has_token(final(self)@, session@),
            !has_token(old(self)@, session@) ==> final(self)@ == old(self)@,
            has_token(old(self)@, session@) ==> exists|i: int|
                0 <= i < old(self)@.len() && old(self)@[i].token == session@ && final(self)@ == old(
                    self,
                )@.remove(i),
            forall|t: Seq<char>, o: Seq<char>|
                #[trigger] token_resolves_to(final(self)@, t, o) && t != session@
                    ==> token_resolves_to(old(self)@, t, o),
            forall|t: Seq<char>, o: Seq<char>|
                #[trigger] token_resolves_to(old(self)@, t, o) && t != session@
                    ==> token_resolves_to(final(self)@, t, o),
    ;

    /// The validity lookup: resolves `token` to the account it was issued
    /// for, `Some` exactly when the token is currently valid.
    fn is_valid(&self, token: &str) -> (r: Option<String>)
        requires
            tokens_unique(self@),
        ensures
            r is Some <==> has_token(self@, token@),
            r matches Some(o) ==> token_resolves_to(self@, token@, o@),
    ;
}

/// The session directory: the mapping from issued tokens back to accounts.
pub struct SessionsImpl {
    sessions: Vec<Session>,
}

impl View for SessionsImpl {
    type V = Seq<SessionView>;

    closed spec fn view(&self) -> Seq<SessionView> {
        self.sessions@.map_values(|s: Session| s@)
    }
}

impl Default for SessionsImpl {
    /// An empty session directory: no token is valid.
    fn default() -> (r: Self)
        ensures
            r@ == Seq::<SessionView>::empty(),
            tokens_unique(r@),
    {
        let r = SessionsImpl { sessions: Vec::new() };
        proof {
            assert(r@ =~= Seq::<SessionView>::empty());
        }
        r
    }
}

impl SessionsImpl {
    /// The number of currently valid sessions.
    pub fn session_count(&self) -> (n: usize)
        ensures
            n == self@.len(),
    {
        self.sessions.len()
    }

    /// Associates `token` — already drawn — with the account `user_uuid`.
    /// This states exactly what holds for every token value: the token
    /// resolves to the account, every other token is untouched, and a token
    /// not already issued simply appends the session.
    pub fn insert_session(&mut self, token: String, user_uuid: String)
        requires
            tokens_unique(old(self)@),
        ensures
            tokens_unique(final(self)@),
            token_resolves_to(final(self)@, token@, user_uuid@),
            forall|t: Seq<char>, o: Seq<char>|
                #[trigger] token_resolves_to(final(self)@, t, o) && t != token@
                    ==> token_resolves_to(old(self)@, t, o),
            forall|t: Seq<char>, o: Seq<char>|
                #[trigger] token_resolves_to(old(self)@, t, o) && t != token@
                    ==> token_resolves_to(final(self)@, t, o),
            !has_token(old(self)@, token@) ==> final(self)@ == old(self)@.push(
                (SessionView { token: token@, owner: user_uuid@ }),
            ),
    {
        let ghost tv = token@;
        let ghost ov = user_uuid@;
        self.delete_session(token.as_str());
        let ghost mid = self@;
        let s = Session { token, owner: user_uuid };
        self.sessions.push(s);
        proof {
            let ghost sv = SessionView { token: tv, owner: ov };
            assert(self@ =~= mid.push(sv));
            lemma_issue_session(mid, sv);
            assert forall|t: Seq<char>, o: Seq<char>|
                #[trigger] token_resolves_to(self@, t, o) && t != tv implies token_resolves_to(
                old(self)@,
                t,
                o,
            ) by {
                let j = choose|j: int|
                    0 <= j < self@.len() && self@[j].token == t && self@[j].owner == o;
                assert(j != mid.len());
                assert(mid[j] == self@[j]);
                assert(token_resolves_to(mid, t, o));
            }
            assert forall|t: Seq<char>, o: Seq<char>|
                #[trigger] token_resolves_to(old(self)@, t, o) && t != tv implies token_resolves_to(
                self@,
                t,
                o,
            ) by {
                assert(token_resolves_to(mid, t, o));
                let j = choose|j: int|
                    0 <= j < mid.len() && mid[j].token == t && mid[j].owner == o;
                assert(self@[j] == mid[j]);
                assert(token_resolves_to(self@, t, o));
            }
        }
    }
}

impl Sessions for SessionsImpl {
    fn create_session(&mut self, user_uuid: &str) -> (token: String) {
        let token = fresh_id();
        let returned = token.clone();
        let owner = user_uuid.to_owned();
        self.insert_session(token, owner);
        returned
    }

    fn delete_session(&mut self, session: &str) {
        let target: String = session.to_owned();
        let mut i: usize = 0;
        while i < self.sessions.len()
            invariant
                0 <= i <= self.sessions.len(),
                self@.len() == self.sessions@.len(),
                self@ == old(self)@,
                tokens_unique(self@),
                target@ == session@,
                forall|j: int| 0 <= j < i ==> self@[j].token != session@,
            decreases self.sessions.len() - i,
        {
            if self.sessions[i].token == target {
                let ghost pre = self@;
                assert(pre[i as int].token == session@);
                self.sessions.remove(i);
                proof {
                    assert(self@ =~= pre.remove(i as int));
                    lemma_remove_session(pre, i as int);
                }
                return;
            }
            i += 1;
        }
    }

    fn is_valid(&self, token: &str) -> (r: Option<String>) {
        let target: String = token.to_owned();
        let mut i: usize = 0;
        while i < self.sessions.len()
            invariant
                0 <= i <= self.sessions.len(),
                self@.len() == self.sessions@.len(),
                target@ == token@,
                forall|j: int| 0 <= j < i ==> self@[j].token != token@,
            decreases self.sessions.len() - i,
        {
            if self.sessions[i].token == target {
                assert(self@[i as int].token == token@);
                return Some(self.sessions[i].owner.clone());
            }
            i += 1;
        }
        None
    }
}

/// Issuing a session under a token that is not yet in the store keeps tokens
/// pairwise distinct and makes the new token resolve to its account.
pub proof fn lemma_issue_session(s: Seq<SessionView>, v: SessionView)
    requires
        tokens_unique(s),
        !has_token(s, v.token),
    ensures
        tokens_unique(s.push(v)),
        token_resolves_to(s.push(v), v.token, v.owner),
{
    let p = s.push(v);
    assert(p[s.len() as int] == v);
    assert forall|i: int, j: int|
        0 <= i < p.len() && 0 <= j < p.len() && i != j implies p[i].token != p[j].token by {
        if i < s.len() && j < s.len() {
            assert(p[i] == s[i] && p[j] == s[j]);
        } else if i == s.len() {
            assert(p[j] == s[j]);
            if s[j].token == v.token {
                assert(has_token(s, v.token));
            }
        } else {
            assert(p[i] == s[i]);
            if s[i].token == v.token {
                assert(has_token(s, v.token));
            }
        }
    }
}

/// Revoking the session at index `i` keeps tokens pairwise distinct, makes
/// its token resolve to nothing, and leaves every other token resolving
/// exactly as before — revocation never affects other sessions, and a second
/// revocation of the same token is a no-op by `delete_session`'s contract.
pub proof fn lemma_remove_session(s: Seq<SessionView>, i: int)
    requires
        tokens_unique(s),
        0 <= i < s.len(),
    ensures
        tokens_unique(s.remove(i)),
        !has_token(s.remove(i), s[i].token),
        forall|t: Seq<char>, o: Seq<char>|
            #[trigger] token_resolves_to(s.remove(i), t, o) && t != s[i].token
                ==> token_resolves_to(s, t, o),
        forall|t: Seq<char>, o: Seq<char>|
            #[trigger] token_resolves_to(s, t, o) && t != s[i].token ==> token_resolves_to(
                s.remove(i),
                t,
                o,
            ),
{
    let r = s.remove(i);
    assert forall|j: int| 0 <= j < r.len() implies r[j].token != s[i].token by {
        if j < i {
            assert(r[j] == s[j]);
        } else {
            assert(r[j] == s[j + 1]);
        }
    }
    assert forall|j: int, k: int|
        0 <= j < r.len() && 0 <= k < r.len() && j != k implies r[j].token != r[k].token by {
        let j0: int = if j < i { j } else { j + 1 };
        let k0: int = if k < i { k } else { k + 1 };
        assert(r[j] == s[j0] && r[k] == s[k0]);
    }
    assert forall|t: Seq<char>, o: Seq<char>|
        #[trigger] token_resolves_to(r, t, o) && t != s[i].token implies token_resolves_to(
        s,
        t,
        o,
    ) by {
        let j = choose|j: int| 0 <= j < r.len() && r[j].token == t && r[j].owner == o;
        if j < i {
            assert(r[j] == s[j]);
        } else {
            assert(r[j] == s[j + 1]);
        }
    }
    assert forall|t: Seq<char>, o: Seq<char>|
        #[trigger] token_resolves_to(s, t, o) && t != s[i].token implies token_resolves_to(
        r,
        t,
        o,
    ) by {
        let j = choose|j: int| 0 <= j < s.len() && s[j].token == t && s[j].owner == o;
        if j < i {
            assert(r[j] == s[j]);
        } else {
            assert(j != i);
            assert(r[j - 1] == s[j]);
        }
    }
}

/// The session round trip: a freshly minted session's token resolves to the
/// account it was issued for, and to no other; revoking it then removes the
/// token entirely (`delete_session` ensures `!has_token`), after which the
/// validity lookup returns nothing.
pub proof fn lemma_session_round_trip(pre: Seq<SessionView>, t: Seq<char>, id: Seq<char>)
    requires
        tokens_unique(pre),
        !has_token(pre, t),
    ensures
        tokens_unique(pre.push((SessionView { token: t, owner: id }))),
        token_resolves_to(pre.push((SessionView { token: t, owner: id })), t, id),
        forall|o: Seq<char>|
            token_resolves_to(pre.push((SessionView { token: t, owner: id })), t, o) ==> o == id,
{
    let v = SessionView { token: t, owner: id };
    lemma_issue_session(pre, v);
    let p = pre.push(v);
    assert forall|o: Seq<char>| token_resolves_to(p, t, o) implies o == id by {
        let j = choose|j: int| 0 <= j < p.len() && p[j].token == t && p[j].owner == o;
        if j < pre.len() {
            assert(p[j] == pre[j]);
            assert(has_token(pre, t));
        } else {
            assert(p[j] == v);
        }
    }
}

/// Two sessions minted in sequence — each token drawn fresh, absent from the
/// store that already holds the other — carry distinct tokens, and both are
/// simultaneously valid, each resolving to the account it was issued for,
/// until each is separately revoked.
pub proof fn lemma_two_sessions_distinct(
    pre: Seq<SessionView>,
    t1: Seq<char>,
    id1: Seq<char>,
    t2: Seq<char>,
    id2: Seq<char>,
)
    requires
        tokens_unique(pre),
        !has_token(pre, t1),
        !has_token(pre.push((SessionView { token: t1, owner: id1 })), t2),
    ensures
        t1 != t2,
        tokens_unique(
            pre.push((SessionView { token: t1, owner: id1 })).push(
                (SessionView { token: t2, owner: id2 }),
            ),
        ),
        token_resolves_to(
            pre.push((SessionView { token: t1, owner: id1 })).push(
                (SessionView { token: t2, owner: id2 }),
            ),
            t1,
            id1,
        ),
        token_resolves_to(
            pre.push((SessionView { token: t1, owner: id1 })).push(
                (SessionView { token: t2, owner: id2 }),
            ),
            t2,
            id2,
        ),
{
    let v1 = SessionView { token: t1, owner: id1 };
    let v2 = SessionView { token: t2, owner: id2 };
    let p1 = pre.push(v1);
    lemma_issue_session(pre, v1);
    assert(p1[pre.len() as int] == v1);
    assert(has_token(p1, t1));
    lemma_issue_session(p1, v2);
    let p2 = p1.push(v2);
    assert(p2[pre.len() as int] == v1);
    assert(token_resolves_to(p2, t1, id1));
}

} // verus!
