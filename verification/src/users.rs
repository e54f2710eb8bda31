//! The credential directory: registers accounts, verifies credentials,
//! resolves account identifiers and removes accounts.
//!
//! An account couples a unique, immutable username with a unique, immutable
//! account identifier and a salted one-way hash of its password; no plaintext
//! password is retained. The store offers two lookup views — by username and
//! by account identifier — that are in sync by construction, since both are
//! read off one sequence of accounts. Contracts are stated over that view,
//! a `Seq` of [`UserView`] records.

use vstd::prelude::*;

use crate::hashing::{generate_salt, hash_matches, hash_password, verify_password};
use crate::ids::fresh_id;

verus! {

/// The mathematical model of one account: its identifier, its username and
/// the PHC hash string derived from its password.
pub ghost struct UserView {
    pub user_uuid: Seq<char>,
    pub username: Seq<char>,
    pub password: Seq<char>,
}

/// A registered account. `password` holds the salted one-way hash of the
/// account's password, never the plaintext.
pub struct User {
    user_uuid: String,
    username: String,
    password: String,
}

impl View for User {
    type V = UserView;

    closed spec fn view(&self) -> UserView {
        UserView { user_uuid: self.user_uuid@, username: self.username@, password: self.password@ }
    }
}

/// Whether some account in `s` is registered under the username `name`.
pub open spec fn has_username(s: Seq<UserView>, name: Seq<char>) -> bool {
    exists|i: int| 0 <= i < s.len() && s[i].username == name
}

/// Whether some account in `s` carries the account identifier `id`.
pub open spec fn has_user_uuid(s: Seq<UserView>, id: Seq<char>) -> bool {
    exists|i: int| 0 <= i < s.len() && s[i].user_uuid == id
}

/// Well-formedness of the credential directory: usernames are pairwise
/// distinct and account identifiers are pairwise distinct, so each of the two
/// lookup views resolves to at most one account.
pub open spec fn users_wf(s: Seq<UserView>) -> bool {
    forall|i: int, j: int|
        0 <= i < s.len() && 0 <= j < s.len() && i != j ==> s[i].username != s[j].username
            && s[i].user_uuid != s[j].user_uuid
}

/// Whether the pair (`name`, `password`) identifies a valid account of `s`:
/// some account is registered under `name` and its stored hash verifies
/// against `password`. An unknown username and a wrong password both falsify
/// this, indistinguishably.
pub open spec fn auth_ok(s: Seq<UserView>, name: Seq<char>, password: Seq<char>) -> bool {
    exists|i: int|
        0 <= i < s.len() && s[i].username == name && hash_matches(password, s[i].password)
}

/// The error message for a sign-up under an already-registered username.
pub open spec fn dup_username_msg() -> Seq<char> {
    "Username already exists."@
}

/// The error message for a failure of the password-hashing primitive.
pub open spec fn hash_failure_msg() -> Seq<char> {
    "Failed to hash password."@
}

/// The error message for a freshly generated account identifier that is
/// already taken.
pub open spec fn dup_id_msg() -> Seq<char> {
    "Failed to allocate a fresh account id."@
}

/// The contract of a credential directory, over its view: a sequence of
/// account records with pairwise-distinct usernames and identifiers.
pub trait Users: View<V = Seq<UserView>> + Sized {
    /// Registers a new account under `username`, storing a salted one-way
    /// hash of `password`. Fails — leaving the directory unchanged — when
    /// `username` is already registered, and when the hashing primitive or
    /// the identifier generator fails; succeeds otherwise, appending one
    /// account whose hash verifies against `password` and whose identifier
    /// is fresh.
    fn create_user(&mut self, username: String, password: String) -> (r: Result<(), String>)
        requires
            users_wf(old(self)@),
        ensures
            users_wf(final(self)@),
            r matches Err(_) ==> final(self)@ == old(self)@,
            has_username(old(self)@, username@) <==> (r matches Err(m) && m@ == dup_username_msg()),
            !has_username(old(self)@, username@) ==> (r matches Err(m) ==> (m@
                == hash_failure_msg() || m@ == dup_id_msg())),
            r matches Ok(_) ==> !has_username(old(self)@, username@)
                && final(self)@.len() == old(self)@.len() + 1
                && final(self)@ == old(self)@.push(final(self)@.last())
                && final(self)@.last().username == username@
                && hash_matches(password@, final(self)@.last().password)
                && !has_user_uuid(old(self)@, final(self)@.last().user_uuid),
    ;

    /// Resolves (`username`, `password`) to the account identifier allocated
    /// at registration: `Some` exactly when the username is registered and
    /// the stored hash verifies against `password`. An unknown username and
    /// a wrong password return the same `None`.
    fn get_user_uuid(&self, username: String, password: String) -> (r: Option<String>)
        requires
            users_wf(self@),
        ensures
            r is Some <==> auth_ok(self@, username@, password@),
            r matches Some(id) ==> exists|i: int|
                0 <= i < self@.len() && self@[i].username == username@ && hash_matches(
                    password@,
                    self@[i].password,
                ) && id@ == self@[i].user_uuid,
    ;

    /// Removes the account carrying `user_uuid` from the directory, so that
    /// neither the username-keyed nor the id-keyed view resolves it any
    /// longer; a no-op (not an error) when no account carries it.
    ///
    /// Deletion does not cascade onto outstanding sessions: the session
    /// directory is a separate store, and tokens issued for the account stay
    /// resolvable until each is revoked — a caller that wants cascading
    /// revocation revokes them itself.
    fn delete_user(&mut self, user_uuid: String)
        requires
            users_wf(old(self)@),
        ensures
            users_wf(final(self)@),
            !has_user_uuid(final(self)@, user_uuid@),
            !has_user_uuid(old(self)@, user_uuid@) ==> final(self)@ == old(self)@,
            has_user_uuid(old(self)@, user_uuid@) ==> exists|i: int|
                0 <= i < old(self)@.len() && old(self)@[i].user_uuid == user_uuid@ && final(self)@
                    == old(self)@.remove(i) && !has_username(final(self)@, old(self)@[i].username),
    ;
}

/// The credential directory: one sequence of accounts, from which the
/// username-keyed and the id-keyed lookup views are both read, so the two
/// views are in sync by construction.
pub struct UsersImpl {
    users: Vec<User>,
}

impl View for UsersImpl {
    type V = Seq<UserView>;

    closed spec fn view(&self) -> Seq<UserView> {
        self.users@.map_values(|u: User| u@)
    }
}

impl Default for UsersImpl {
    /// An empty credential directory: no username or identifier resolves.
    fn default() -> (r: Self)
        ensures
            r@ == Seq::<UserView>::empty(),
            users_wf(r@),
    {
        let r = UsersImpl { users: Vec::new() };
        proof {
            assert(r@ =~= Seq::<UserView>::empty());
        }
        r
    }
}

impl UsersImpl {
    /// The number of registered accounts; both lookup views have exactly
    /// this many entries.
    pub fn user_count(&self) -> (n: usize)
        ensures
            n == self@.len(),
    {
        self.users.len()
    }

    /// Whether `username` is already registered.
    fn contains_username(&self, username: &String) -> (r: bool)
        ensures
            r == has_username(self@, username@),
    {
        let mut i: usize = 0;
        while i < self.users.len()
            invariant
                0 <= i <= self.users.len(),
                self@.len() == self.users@.len(),
                forall|j: int| 0 <= j < i ==> self@[j].username != username@,
            decreases self.users.len() - i,
        {
            if self.users[i].username == *username {
                assert(self@[i as int].username == username@);
                return true;
            }
            i += 1;
        }
        false
    }

    /// Whether some account already carries the identifier `user_uuid`.
    fn contains_uuid(&self, user_uuid: &String) -> (r: bool)
        ensures
            r == has_user_uuid(self@, user_uuid@),
    {
        let mut i: usize = 0;
        while i < self.users.len()
            invariant
                0 <= i <= self.users.len(),
                self@.len() == self.users@.len(),
                forall|j: int| 0 <= j < i ==> self@[j].user_uuid != user_uuid@,
            decreases self.users.len() - i,
        {
            if self.users[i].user_uuid == *user_uuid {
                assert(self@[i as int].user_uuid == user_uuid@);
                return true;
            }
            i += 1;
        }
        false
    }

    /// Inserts a finished account — identifier and hash already computed —
    /// into the directory. This states exactly when registration succeeds:
    /// precisely when neither the username nor the identifier is taken.
    pub fn register_user(
        &mut self,
        username: String,
        user_uuid: String,
        hashed_password: String,
    ) -> (r: Result<(), String>)
        requires
            users_wf(old(self)@),
        ensures
            users_wf(final(self)@),
            r is Ok <==> (!has_username(old(self)@, username@) && !has_user_uuid(
                old(self)@,
                user_uuid@,
            )),
            r matches Ok(_) ==> final(self)@ == old(self)@.push(
                (UserView { user_uuid: user_uuid@, username: username@, password: hashed_password@ }),
            ),
            r matches Err(_) ==> final(self)@ == old(self)@,
            has_username(old(self)@, username@) ==> (r matches Err(m) && m@ == dup_username_msg()),
            !has_username(old(self)@, username@) && has_user_uuid(old(self)@, user_uuid@)
                ==> (r matches Err(m) && m@ == dup_id_msg()),
    {
        if self.contains_username(&username) {
            return Err("Username already exists.".to_string());
        }
        if self.contains_uuid(&user_uuid) {
            return Err("Failed to allocate a fresh account id.".to_string());
        }
        let ghost pre = self@;
        let ghost uv = UserView { user_uuid: user_uuid@, username: username@, password: hashed_password@ };
        let user = User { user_uuid, username, password: hashed_password };
        self.users.push(user);
        proof {
            assert(self@ =~= pre.push(uv));
            assert forall|i: int, j: int|
                0 <= i < self@.len() && 0 <= j < self@.len() && i != j implies self@[i].username
                != self@[j].username && self@[i].user_uuid != self@[j].user_uuid by {
                if i < pre.len() && j < pre.len() {
                    assert(pre[i] == self@[i] && pre[j] == self@[j]);
                }
            }
        }
        Ok(())
    }
}

impl Users for UsersImpl {
    fn create_user(&mut self, username: String, password: String) -> (r: Result<(), String>) {
        if self.contains_username(&username) {
            return Err("Username already exists.".to_string());
        }
        let salt = generate_salt();
        let hashed_password = match hash_password(password.as_str(), &salt) {
            Ok(h) => h,
            Err(_) => {
                proof {
                    lemma_error_msgs_distinct();
                }
                return Err("Failed to hash password.".to_string());
            },
        };
        let user_uuid = fresh_id();
        let r = self.register_user(username, user_uuid, hashed_password);
        proof {
            lemma_error_msgs_distinct();
        }
        r
    }

    fn get_user_uuid(&self, username: String, password: String) -> (r: Option<String>) {
        let mut i: usize = 0;
        while i < self.users.len()
            invariant
                0 <= i <= self.users.len(),
                self@.len() == self.users@.len(),
                users_wf(self@),
                forall|j: int| 0 <= j < i ==> self@[j].username != username@,
            decreases self.users.len() - i,
        {
            if self.users[i].username == username {
                if verify_password(password.as_str(), self.users[i].password.as_str()) {
                    assert(self@[i as int].username == username@ && hash_matches(
                        password@,
                        self@[i as int].password,
                    ));
                    return Some(self.users[i].user_uuid.clone());
                } else {
                    proof {
                        assert(self@[i as int].username == username@);
                        assert forall|j: int|
                            0 <= j < self@.len() && self@[j].username == username@ implies
                        !hash_matches(password@, self@[j].password) by {
                            if j != i {
                                assert(self@[j].username != self@[i as int].username);
                            }
                            assert(j == i);
                        }
                    }
                    return None;
                }
            }
            i += 1;
        }
        None
    }

    fn delete_user(&mut self, user_uuid: String) {
        let mut i: usize = 0;
        while i < self.users.len()
            invariant
                0 <= i <= self.users.len(),
                self@.len() == self.users@.len(),
                self@ == old(self)@,
                users_wf(self@),
                forall|j: int| 0 <= j < i ==> self@[j].user_uuid != user_uuid@,
            decreases self.users.len() - i,
        {
            if self.users[i].user_uuid == user_uuid {
                let ghost pre = self@;
                self.users.remove(i);
                proof {
                    assert(self@ =~= pre.remove(i as int));
                    lemma_remove_account(pre, i as int);
                }
                return;
            }
            i += 1;
        }
    }
}

/// Removing the account at index `i` keeps the directory well-formed and
/// makes both lookup views stop resolving that account: no remaining entry
/// carries its identifier or its username.
pub proof fn lemma_remove_account(s: Seq<UserView>, i: int)
    requires
        users_wf(s),
        0 <= i < s.len(),
    ensures
        users_wf(s.remove(i)),
        !has_user_uuid(s.remove(i), s[i].user_uuid),
        !has_username(s.remove(i), s[i].username),
{
    let t = s.remove(i);
    assert forall|j: int| 0 <= j < t.len() implies t[j].user_uuid != s[i].user_uuid && t[j].username
        != s[i].username by {
        if j < i {
            assert(t[j] == s[j]);
        } else {
            assert(t[j] == s[j + 1]);
        }
    }
    assert forall|j: int, k: int|
        0 <= j < t.len() && 0 <= k < t.len() && j != k implies t[j].username != t[k].username
        && t[j].user_uuid != t[k].user_uuid by {
        let j0: int = if j < i { j } else { j + 1 };
        let k0: int = if k < i { k } else { k + 1 };
        assert(t[j] == s[j0] && t[k] == s[k0]);
    }
}

/// A username, once successfully registered, stays resolvable: account
/// creation appends an account `u`, after which the directory contains
/// `u.username` — so by `create_user`'s contract any second creation under
/// the same username, whatever its password, returns the duplicate-username
/// error and leaves the directory unchanged.
pub proof fn lemma_duplicate_username_rejected(pre: Seq<UserView>, u: UserView)
    ensures
        has_username(pre.push(u), u.username),
{
    assert(pre.push(u)[pre.len() as int] == u);
}

/// Authentication against a created account: in a directory extended with
/// the account `u`, every account registered under `u.username` is `u`
/// itself, and the pair (`u.username`, `p`) resolves — necessarily to
/// `u.user_uuid`, the identifier allocated at creation — exactly when the
/// stored hash verifies against `p`. `create_user` stores a hash that
/// verifies against the creation password, so that password signs in; a
/// password whose verification fails (any other password, short of a
/// verification collision of the hashing primitive) is turned away.
pub proof fn lemma_authenticate_after_create(pre: Seq<UserView>, u: UserView, p: Seq<char>)
    requires
        users_wf(pre.push(u)),
    ensures
        auth_ok(pre.push(u), u.username, p) <==> hash_matches(p, u.password),
        forall|i: int|
            0 <= i < pre.push(u).len() && pre.push(u)[i].username == u.username ==> pre.push(u)[i]
                == u,
{
    let s = pre.push(u);
    let n = pre.len() as int;
    assert(s[n] == u);
    assert forall|i: int| 0 <= i < s.len() && s[i].username == u.username implies s[i] == u by {
        if i != n {
            assert(s[i].username != s[n].username);
        }
    }
    if hash_matches(p, u.password) {
        assert(s[n].username == u.username && hash_matches(p, s[n].password));
        assert(auth_ok(s, u.username, p));
    }
    if auth_ok(s, u.username, p) {
        let i = choose|i: int|
            0 <= i < s.len() && s[i].username == u.username && hash_matches(p, s[i].password);
        assert(s[i] == u);
    }
}

/// Authenticating a username that was never registered fails: no account
/// matches, so `get_user_uuid` returns `None` — observably identical to a
/// wrong-password attempt, which returns the same `None` and no
/// distinguishing error.
pub proof fn lemma_unknown_username_rejected(s: Seq<UserView>, name: Seq<char>, p: Seq<char>)
    requires
        !has_username(s, name),
    ensures
        !auth_ok(s, name, p),
{
    if auth_ok(s, name, p) {
        let i = choose|i: int|
            0 <= i < s.len() && s[i].username == name && hash_matches(p, s[i].password);
        assert(s[i].username == name);
        assert(has_username(s, name));
    }
}

/// The three error messages of account creation are pairwise distinct, so
/// the duplicate-username message identifies its cause exactly.
proof fn lemma_error_msgs_distinct()
    ensures
        dup_username_msg() != hash_failure_msg(),
        dup_username_msg() != dup_id_msg(),
{
    reveal_strlit("Username already exists.");
    reveal_strlit("Failed to hash password.");
    reveal_strlit("Failed to allocate a fresh account id.");
    assert(dup_username_msg()[0] == 'U' && hash_failure_msg()[0] == 'F');
    assert(dup_username_msg().len() != dup_id_msg().len());
}

} // verus!
