//! Local user records and their reconciliation with remote identities.
//!
//! A user is keyed by the stable id the identity provider assigns.
//! Reconciling a login is one insert-or-update on that key: a returning
//! user gets the latest display name and access token, a new one gets a
//! fresh row. The access token is a secret; the one human-readable
//! rendering of a user is a function of the display name alone.

use vstd::prelude::*;
use vstd::string::StringExecFns;

use crate::byteops::bytes_eq;

verus! {

/// A local user: the provider-assigned id, the display name, and the
/// provider-scoped access token. The token never flows into any
/// human-readable rendering; see [`User::redacted_debug`].
#[derive(Clone)]
pub struct User {
    pub github_id: String,
    pub username: String,
    pub access_token: String,
}

/// What the users table holds under one external id.
pub struct UserRowV {
    pub username: Seq<char>,
    pub access_token: Seq<char>,
}

pub open spec fn user_row_of(u: User) -> UserRowV {
    UserRowV { username: u.username@, access_token: u.access_token@ }
}

/// The identity the provider reports for an access token: the stable
/// external id and the current display name.
pub struct RemoteIdentity {
    pub github_id: String,
    pub username: String,
}

/// What the one human-readable rendering of a user looks like: built
/// from the display name alone, with a fixed marker where the access
/// token would otherwise appear.
pub open spec fn spec_redacted(username: Seq<char>) -> Seq<char> {
    "User { username: \""@ + username + "\", access_token: \"[redacted]\" }"@
}

impl User {
    /// The one human-readable rendering of a user. By its contract the
    /// output is a function of the display name alone, so the access
    /// token cannot flow into a log line through it.
    pub fn redacted_debug(&self) -> (r: String)
        ensures
            r@ == spec_redacted(self.username@),
    {
        let mut s = String::from_str("User { username: \"");
        s.append(self.username.as_str());
        s.append("\", access_token: \"[redacted]\" }");
        s
    }
}

/// Renderings of two users with one display name are identical whatever
/// their access tokens: nothing about a token can be read off a
/// rendering.
pub proof fn lemma_redacted_ignores_token(a: User, b: User)
    requires
        a.username@ == b.username@,
    ensures
        spec_redacted(a.username@) == spec_redacted(b.username@),
{
}

/// Two external ids with one byte encoding are one id: the id bytes a
/// session stores under its payload pick out exactly one user.
pub proof fn lemma_encoded_id_injective(a: Seq<char>, b: Seq<char>)
    requires
        vstd::utf8::encode_utf8(a) == vstd::utf8::encode_utf8(b),
    ensures
        a == b,
{
    vstd::utf8::encode_utf8_decode_utf8(a);
    vstd::utf8::encode_utf8_decode_utf8(b);
}

/// No external id occurs twice.
spec fn unique_user_ids(s: Seq<User>) -> bool {
    forall|a: int, b: int| 0 <= a < b < s.len() ==> s[a].github_id@ != s[b].github_id@
}

/// The map a list of user rows stands for.
spec fn users_map(s: Seq<User>) -> Map<Seq<char>, UserRowV>
    decreases s.len(),
{
    if s.len() == 0 {
        Map::empty()
    } else {
        users_map(s.drop_last()).insert(s.last().github_id@, user_row_of(s.last()))
    }
}

/// An external id is in the map exactly when some row carries it.
proof fn lemma_users_map_dom(s: Seq<User>)
    ensures
        forall|k: Seq<char>|
            #[trigger] users_map(s).dom().contains(k) <==> (exists|i: int|
                0 <= i < s.len() && s[i].github_id@ == k),
    decreases s.len(),
{
    if s.len() == 0 {
    } else {
        lemma_users_map_dom(s.drop_last());
        assert forall|k: Seq<char>| #[trigger]
            users_map(s).dom().contains(k) implies (exists|i: int|
            0 <= i < s.len() && s[i].github_id@ == k) by {
            if k == s.last().github_id@ {
                assert(s[s.len() - 1].github_id@ == k);
            } else {
                assert(users_map(s.drop_last()).dom().contains(k));
                let i = choose|i: int|
                    0 <= i < s.drop_last().len() && s.drop_last()[i].github_id@ == k;
                assert(s[i].github_id@ == k);
            }
        }
        assert forall|k: Seq<char>|
            (exists|i: int| 0 <= i < s.len() && s[i].github_id@ == k) implies #[trigger] users_map(
            s,
        ).dom().contains(k) by {
            let i = choose|i: int| 0 <= i < s.len() && s[i].github_id@ == k;
            if i == s.len() - 1 {
            } else {
                assert(s.drop_last()[i].github_id@ == k);
                assert(users_map(s.drop_last()).dom().contains(k));
            }
        }
    }
}

/// Under unique ids, the map holds each row exactly as the list does.
proof fn lemma_users_map_at(s: Seq<User>, i: int)
    requires
        unique_user_ids(s),
        0 <= i < s.len(),
    ensures
        users_map(s).dom().contains(s[i].github_id@),
        users_map(s)[s[i].github_id@] == user_row_of(s[i]),
    decreases s.len(),
{
    if i == s.len() - 1 {
    } else {
        assert(s.drop_last()[i] == s[i]);
        lemma_users_map_at(s.drop_last(), i);
        assert(s.last().github_id@ != s[i].github_id@);
    }
}

/// Removing the row at an index removes exactly its id from the map.
proof fn lemma_users_map_remove(s: Seq<User>, i: int)
    requires
        unique_user_ids(s),
        0 <= i < s.len(),
    ensures
        users_map(s.remove(i)) == users_map(s).remove(s[i].github_id@),
    decreases s.len(),
{
    let k = s[i].github_id@;
    if i == s.len() - 1 {
        assert(s.remove(i) =~= s.drop_last());
        lemma_users_map_dom(s.drop_last());
        assert forall|j: int|
            0 <= j < s.drop_last().len() implies s.drop_last()[j].github_id@ != k by {
            assert(s[j].github_id@ != s[s.len() - 1].github_id@);
        }
        assert(!users_map(s.drop_last()).dom().contains(k));
        assert(users_map(s.drop_last()) =~= users_map(s).remove(k));
    } else {
        assert(s.remove(i).drop_last() =~= s.drop_last().remove(i));
        assert(s.remove(i).last() == s.last());
        lemma_users_map_remove(s.drop_last(), i);
        assert(s.drop_last()[i] == s[i]);
        assert(s.last().github_id@ != k);
        assert(users_map(s.remove(i)) == users_map(s.drop_last().remove(i)).insert(
            s.last().github_id@,
            user_row_of(s.last()),
        ));
        assert(users_map(s.drop_last()).remove(k).insert(s.last().github_id@, user_row_of(s.last()))
            =~= users_map(s.drop_last()).insert(s.last().github_id@, user_row_of(s.last())).remove(
            k,
        ));
    }
}

proof fn lemma_unique_users_remove(s: Seq<User>, i: int)
    requires
        unique_user_ids(s),
        0 <= i < s.len(),
    ensures
        unique_user_ids(s.remove(i)),
{
    assert forall|a: int, b: int|
        0 <= a < b < s.remove(i).len() implies s.remove(i)[a].github_id@
        != s.remove(i)[b].github_id@ by {
        let a0 = if a < i {
            a
        } else {
            a + 1
        };
        let b0 = if b < i {
            b
        } else {
            b + 1
        };
        assert(s.remove(i)[a] == s[a0]);
        assert(s.remove(i)[b] == s[b0]);
    }
}

/// Under unique external ids the table has exactly as many rows as ids.
proof fn lemma_users_map_size(s: Seq<User>)
    requires
        unique_user_ids(s),
    ensures
        users_map(s).dom().finite(),
        users_map(s).dom().len() == s.len(),
    decreases s.len(),
{
    if s.len() == 0 {
        assert(users_map(s).dom() =~= Set::<Seq<char>>::empty());
    } else {
        lemma_users_map_size(s.drop_last());
        lemma_users_map_dom(s.drop_last());
        assert forall|j: int|
            0 <= j < s.drop_last().len() implies s.drop_last()[j].github_id@
            != s.last().github_id@ by {
            assert(s[j].github_id@ != s[s.len() - 1].github_id@);
        }
        assert(!users_map(s.drop_last()).dom().contains(s.last().github_id@));
        assert(users_map(s).dom() =~= users_map(s.drop_last()).dom().insert(s.last().github_id@));
    }
}

/// The local users table, keyed by external id.
pub struct UserStore {
    users: Vec<User>,
}

fn clone_user(u: &User) -> (r: User)
    ensures
        r.github_id@ == u.github_id@,
        r.username@ == u.username@,
        r.access_token@ == u.access_token@,
{
    User {
        github_id: u.github_id.clone(),
        username: u.username.clone(),
        access_token: u.access_token.clone(),
    }
}

impl UserStore {
    /// The rows this table currently holds.
    pub closed spec fn users(&self) -> Map<Seq<char>, UserRowV> {
        users_map(self.users@)
    }

    pub closed spec fn inv(&self) -> bool {
        unique_user_ids(self.users@)
    }

    /// An empty table.
    pub fn new() -> (r: UserStore)
        ensures
            r.inv(),
            r.users() == Map::<Seq<char>, UserRowV>::empty(),
    {
        UserStore { users: Vec::new() }
    }

    /// How many users are stored: one row per external id.
    pub fn len(&self) -> (r: usize)
        requires
            self.inv(),
        ensures
            r as nat == self.users().dom().len(),
    {
        proof {
            lemma_users_map_size(self.users@);
        }
        self.users.len()
    }

    fn find_index(&self, github_id: &String) -> (r: Option<usize>)
        ensures
            match r {
                Some(i) => i < self.users@.len() && self.users@[i as int].github_id@ == github_id@,
                None => forall|j: int|
                    0 <= j < self.users@.len() ==> self.users@[j].github_id@ != github_id@,
            },
    {
        let mut i: usize = 0;
        while i < self.users.len()
            invariant
                i <= self.users@.len(),
                forall|j: int| 0 <= j < i ==> self.users@[j].github_id@ != github_id@,
            decreases self.users@.len() - i,
        {
            if self.users[i].github_id == *github_id {
                return Some(i);
            }
            i += 1;
        }
        None
    }

    /// One insert-or-update keyed by the external id: an existing user's
    /// display name and access token are replaced, a new user is created.
    /// Returns the user as now stored.
    pub fn reconcile(&mut self, identity: &RemoteIdentity, access_token: &String) -> (u: User)
        requires
            old(self).inv(),
        ensures
            final(self).inv(),
            final(self).users() == old(self).users().insert(
                identity.github_id@,
                (UserRowV { username: identity.username@, access_token: access_token@ }),
            ),
            u.github_id@ == identity.github_id@,
            u.username@ == identity.username@,
            u.access_token@ == access_token@,
    {
        match self.find_index(&identity.github_id) {
            Some(i) => {
                proof {
                    lemma_users_map_remove(self.users@, i as int);
                    lemma_unique_users_remove(self.users@, i as int);
                }
                self.users.remove(i);
            },
            None => {
                proof {
                    lemma_users_map_dom(self.users@);
                }
            },
        }
        proof {
            lemma_users_map_dom(self.users@);
            assert(!users_map(self.users@).dom().contains(identity.github_id@));
        }
        let u = User {
            github_id: identity.github_id.clone(),
            username: identity.username.clone(),
            access_token: access_token.clone(),
        };
        let ghost mid = self.users@;
        self.users.push(clone_user(&u));
        proof {
            assert(self.users@.drop_last() =~= mid);
            assert(users_map(self.users@) == users_map(mid).insert(
                identity.github_id@,
                (UserRowV { username: identity.username@, access_token: access_token@ }),
            ));
            assert(users_map(mid).insert(
                identity.github_id@,
                (UserRowV { username: identity.username@, access_token: access_token@ }),
            ) =~= users_map(old(self).users@).insert(
                identity.github_id@,
                (UserRowV { username: identity.username@, access_token: access_token@ }),
            ));
            assert forall|a: int, b: int|
                0 <= a < b < self.users@.len() implies self.users@[a].github_id@
                != self.users@[b].github_id@ by {
                if b == self.users@.len() - 1 {
                    assert(mid[a].github_id@ != identity.github_id@);
                }
            }
        }
        u
    }

    /// The user under an external id, if one is stored.
    pub fn get_user(&self, github_id: &String) -> (r: Option<User>)
        requires
            self.inv(),
        ensures
            match r {
                Some(u) => self.users().dom().contains(github_id@) && u.github_id@ == github_id@
                    && self.users()[github_id@] == user_row_of(u),
                None => !self.users().dom().contains(github_id@),
            },
    {
        match self.find_index(github_id) {
            Some(i) => {
                proof {
                    lemma_users_map_at(self.users@, i as int);
                }
                Some(clone_user(&self.users[i]))
            },
            None => {
                proof {
                    lemma_users_map_dom(self.users@);
                }
                None
            },
        }
    }

    /// The user whose external id has the given byte encoding, if one is
    /// stored: how a session payload, which carries ids as bytes, is
    /// resolved back to a user.
    pub fn get_user_by_encoded(&self, id_bytes: &[u8]) -> (r: Option<User>)
        requires
            self.inv(),
        ensures
            match r {
                Some(u) => self.users().dom().contains(u.github_id@)
                    && vstd::utf8::encode_utf8(u.github_id@) == id_bytes@
                    && self.users()[u.github_id@] == user_row_of(u),
                None => forall|id: Seq<char>|
                    #[trigger] self.users().dom().contains(id) ==> vstd::utf8::encode_utf8(id)
                        != id_bytes@,
            },
    {
        let mut i: usize = 0;
        while i < self.users.len()
            invariant
                unique_user_ids(self.users@),
                i <= self.users@.len(),
                forall|j: int|
                    0 <= j < i ==> vstd::utf8::encode_utf8(#[trigger] self.users@[j].github_id@)
                        != id_bytes@,
            decreases self.users@.len() - i,
        {
            if bytes_eq(self.users[i].github_id.as_str().as_bytes(), id_bytes) {
                proof {
                    lemma_users_map_at(self.users@, i as int);
                }
                return Some(clone_user(&self.users[i]));
            }
            i += 1;
        }
        proof {
            lemma_users_map_dom(self.users@);
            assert forall|id: Seq<char>| #[trigger]
                self.users().dom().contains(id) implies vstd::utf8::encode_utf8(id)
                != id_bytes@ by {
                let j = choose|j: int| 0 <= j < self.users@.len() && self.users@[j].github_id@
                    == id;
                assert(vstd::utf8::encode_utf8(self.users@[j].github_id@) != id_bytes@);
            }
        }
        None
    }
}

/// Reconciling two logins for one external id leaves exactly one row for
/// that id — the second insert overwrites the first — holding the display
/// name and access token of the later login.
pub proof fn lemma_reconcile_latest_wins(
    m: Map<Seq<char>, UserRowV>,
    id: Seq<char>,
    first: UserRowV,
    second: UserRowV,
)
    ensures
        m.insert(id, first).insert(id, second) == m.insert(id, second),
        m.insert(id, second).dom() == m.dom().insert(id),
        m.insert(id, second)[id] == second,
{
    assert(m.insert(id, first).insert(id, second) =~= m.insert(id, second));
    assert(m.insert(id, second).dom() =~= m.dom().insert(id));
}

} // verus!
