//! Sessions.  A successful login draws a random `u64` token, records it
//! with the permission it grants, and hands it to the browser as the
//! decimal value of the `authentication` cookie.  Every later request
//! reads the cookie back and looks the token up; logging out forgets it.

use std::collections::HashMap;

use rand::Rng;
use vstd::prelude::*;

use crate::token::{format_token, parse_token, spec_decimal, spec_parse_u64, lemma_parse_decimal_roundtrip};

verus! {

broadcast use vstd::std_specs::hash::group_hash_axioms;

/// What a logged-in browser may do: an admin reaches the console and its
/// log, a user only the status page.
#[derive(Clone, Copy, PartialEq, Eq, Structural, Debug)]
pub enum PermissionType {
    Admin,
    User,
}

/// The login form.
pub struct Login {
    pub username: String,
    pub password: String,
}

/// A session token.
#[derive(Clone, Copy, PartialEq, Eq, Hash, Debug)]
pub struct Auth(pub u64);

/// The sessions that are logged in: each token with its permission.
pub struct AuthenticatedUsers {
    sessions: HashMap<u64, PermissionType>,
}

impl View for AuthenticatedUsers {
    type V = Map<u64, PermissionType>;

    closed spec fn view(&self) -> Map<u64, PermissionType> {
        self.sessions@
    }
}

impl AuthenticatedUsers {
    /// A store with no session.
    pub fn new() -> (r: Self)
        ensures
            r@ == Map::<u64, PermissionType>::empty(),
    {
        AuthenticatedUsers { sessions: HashMap::new() }
    }

    /// The permission of the session with this token, if it is logged in.
    pub fn permission(&self, token: u64) -> (r: Option<PermissionType>)
        ensures
            r == (if self@.contains_key(token) { Some(self@[token]) } else { None }),
    {
        match self.sessions.get(&token) {
            Some(p) => Some(*p),
            None => None,
        }
    }

    fn record(&mut self, token: u64, permission: PermissionType)
        ensures
            final(self)@ == old(self)@.insert(token, permission),
    {
        self.sessions.insert(token, permission);
    }

    fn forget(&mut self, token: u64)
        ensures
            final(self)@ == old(self)@.remove(token),
    {
        self.sessions.remove(&token);
    }
}

/// The cookie value with one pair of surrounding double quotes removed,
/// which is what the cookie crate's `Cookie::value_trimmed` returns.
pub open spec fn spec_trim_quotes(v: Seq<char>) -> Seq<char> {
    if v.len() >= 2 && v[0] == '"' && v.last() == '"' {
        v.subrange(1, v.len() - 1)
    } else {
        v
    }
}

/// `Cookie::value_trimmed` (cookie crate, as rocket re-exports it) on a
/// cookie holding `value`.  Claimed: if the value has at least two
/// characters and starts and ends with `"`, those two quotes are removed;
/// otherwise the value comes back unchanged.
#[verifier::external_body]
fn cookie_value_trimmed(value: &str) -> (r: String)
    ensures
        r@ == spec_trim_quotes(value@),
{
    rocket::http::Cookie::new("authentication", value.to_string()).value_trimmed().to_string()
}

/// A random `u64` from rand's thread-local generator
/// (`rand::thread_rng().gen::<u64>()`).  Nothing is claimed of the value.
#[verifier::external_body]
fn random_token() -> u64 {
    rand::thread_rng().gen::<u64>()
}

/// The text of an optional cookie value.
pub open spec fn cookie_view(cookie: Option<&str>) -> Option<Seq<char>> {
    match cookie {
        Some(c) => Some(c@),
        None => None,
    }
}

/// The token that an `authentication` cookie carries: its value with
/// surrounding quotes removed, read as a `u64`.
pub open spec fn cookie_token(cookie: Option<Seq<char>>) -> Option<u64> {
    match cookie {
        Some(v) => spec_parse_u64(spec_trim_quotes(v)),
        None => None,
    }
}

/// The permission of the browser that sent `cookie`: that of its token's
/// session, if the token parses and is logged in.
pub open spec fn spec_logged_in(
    users: Map<u64, PermissionType>,
    cookie: Option<Seq<char>>,
) -> Option<PermissionType> {
    match cookie_token(cookie) {
        Some(t) => if users.contains_key(t) { Some(users[t]) } else { None },
        None => None,
    }
}

/// The sessions after logging out the browser that sent `cookie`.
pub open spec fn spec_logout(
    users: Map<u64, PermissionType>,
    cookie: Option<Seq<char>>,
) -> Map<u64, PermissionType> {
    match cookie_token(cookie) {
        Some(t) => users.remove(t),
        None => users,
    }
}

fn cookie_session_token(cookie: Option<&str>) -> (r: Option<u64>)
    ensures
        r == cookie_token(cookie_view(cookie)),
{
    match cookie {
        Some(value) => {
            let trimmed = cookie_value_trimmed(value);
            parse_token(trimmed.as_str())
        },
        None => None,
    }
}

/// The permission of the browser whose `authentication` cookie holds
/// `cookie` (`None` when it sent no such cookie).
pub fn logged_in(users: &AuthenticatedUsers, cookie: Option<&str>) -> (r: Option<PermissionType>)
    ensures
        r == spec_logged_in(users@, cookie_view(cookie)),
{
    match cookie_session_token(cookie) {
        Some(t) => users.permission(t),
        None => None,
    }
}

/// Forgets the session of the browser whose cookie holds `cookie`.
pub fn apply_logout(users: &mut AuthenticatedUsers, cookie: Option<&str>)
    ensures
        final(users)@ == spec_logout(old(users)@, cookie_view(cookie)),
{
    match cookie_session_token(cookie) {
        Some(t) => users.forget(t),
        None => {},
    }
}

impl Auth {
    fn new() -> Self {
        Auth(random_token())
    }

    /// Opens a session with user permission under a fresh random token.
    pub fn login_user(users: &mut AuthenticatedUsers) -> (r: Auth)
        ensures
            final(users)@ == old(users)@.insert(r.0, PermissionType::User),
    {
        let user = Self::new();
        users.record(user.0, PermissionType::User);
        user
    }

    /// Opens a session with admin permission under a fresh random token.
    pub fn login_admin(users: &mut AuthenticatedUsers) -> (r: Auth)
        ensures
            final(users)@ == old(users)@.insert(r.0, PermissionType::Admin),
    {
        let user = Self::new();
        users.record(user.0, PermissionType::Admin);
        user
    }

    /// The cookie value that carries this token.
    pub fn cookie_value(&self) -> (r: String)
        ensures
            r@ == spec_decimal(self.0 as nat),
    {
        format_token(self.0)
    }
}

/// A session opened under a token is found again by the cookie that
/// carries the token's decimal text, with the permission it was opened
/// with.
pub proof fn lemma_login_then_logged_in(
    users: Map<u64, PermissionType>,
    token: u64,
    permission: PermissionType,
)
    ensures
        spec_logged_in(users.insert(token, permission), Some(spec_decimal(token as nat)))
            == Some(permission),
{
    lemma_no_quotes_in_decimal(token);
    lemma_parse_decimal_roundtrip(token);
}

proof fn lemma_no_quotes_in_decimal(token: u64)
    ensures
        spec_trim_quotes(spec_decimal(token as nat)) == spec_decimal(token as nat),
{
    lemma_parse_decimal_roundtrip(token);
    let s = spec_decimal(token as nat);
    // the text parses, so its first character is a digit or `+`, never `"`
    if s.len() >= 2 && s[0] == '"' {
        assert(crate::token::unsigned_body(s) == s);
        assert(!crate::token::is_digit(s[0]));
    }
}

/// After logging out, the same cookie finds no session.
pub proof fn lemma_logout_then_logged_out(
    users: Map<u64, PermissionType>,
    cookie: Option<Seq<char>>,
)
    ensures
        spec_logged_in(spec_logout(users, cookie), cookie) == None::<PermissionType>,
{
}

/// Logging out one browser leaves every other token's session as it was.
pub proof fn lemma_logout_keeps_others(
    users: Map<u64, PermissionType>,
    cookie: Option<Seq<char>>,
    other: u64,
)
    requires
        cookie_token(cookie) != Some(other),
    ensures
        spec_logout(users, cookie).contains_key(other) == users.contains_key(other),
        users.contains_key(other) ==> spec_logout(users, cookie)[other] == users[other],
{
}

} // verus!
