//! Logging in and out.

use vstd::prelude::*;

use crate::auth::{apply_logout, cookie_view, spec_logout, Auth, AuthenticatedUsers, Login, PermissionType};
use crate::config::Config;
use crate::token::spec_decimal;
use crate::website::Location;

verus! {

/// The answer to a login: the `authentication` cookie to set, if any, and
/// the page to go to.
pub struct LoginResponse {
    pub cookie: Option<String>,
    pub location: Location,
}

/// Whether a login form names the admin account.
pub open spec fn is_admin_login(config: &Config, form: &Login) -> bool {
    form.username@ == config.admin_user@ && form.password@ == config.admin_pass@
}

/// Whether a login form names the main (user) account.
pub open spec fn is_main_login(config: &Config, form: &Login) -> bool {
    form.username@ == config.main_user@ && form.password@ == config.main_pass@
}

/// Handles a login form.  The admin's credentials open an admin session
/// and lead to the console; failing those, the main account's open a user
/// session and lead to the status page; anything else leads back to `/`
/// with no session.  The cookie carries the new session's token in
/// decimal.
pub fn login(users: &mut AuthenticatedUsers, config: &Config, form: &Login) -> (r: LoginResponse)
    ensures
        is_admin_login(config, form) ==> {
            &&& r.location == Location::Log
            &&& r.cookie matches Some(c) && exists|t: u64|
                #![trigger spec_decimal(t as nat)]
                c@ == spec_decimal(t as nat) && final(users)@ == old(users)@.insert(
                    t,
                    PermissionType::Admin,
                )
        },
        !is_admin_login(config, form) && is_main_login(config, form) ==> {
            &&& r.location == Location::User
            &&& r.cookie matches Some(c) && exists|t: u64|
                #![trigger spec_decimal(t as nat)]
                c@ == spec_decimal(t as nat) && final(users)@ == old(users)@.insert(
                    t,
                    PermissionType::User,
                )
        },
        !is_admin_login(config, form) && !is_main_login(config, form) ==> {
            &&& r.location == Location::Root
            &&& r.cookie is None
            &&& final(users)@ == old(users)@
        },
{
    if form.username == config.admin_user && form.password == config.admin_pass {
        let auth_cookie = Auth::login_admin(users);
        let value = auth_cookie.cookie_value();
        LoginResponse { cookie: Some(value), location: Location::Log }
    } else if form.username == config.main_user && form.password == config.main_pass {
        let auth_cookie = Auth::login_user(users);
        let value = auth_cookie.cookie_value();
        LoginResponse { cookie: Some(value), location: Location::User }
    } else {
        LoginResponse { cookie: None, location: Location::Root }
    }
}

/// Handles a logout: forgets the session the cookie names and leads to
/// `/` (the caller removes the cookie).
pub fn logout(users: &mut AuthenticatedUsers, cookie: Option<&str>) -> (r: Location)
    ensures
        r == Location::Root,
        final(users)@ == spec_logout(old(users)@, cookie_view(cookie)),
{
    apply_logout(users, cookie);
    Location::Root
}

} // verus!

verus! {

/// A login whose username or password differs from the admin's, and whose
/// username or password differs from the main account's, opens no session:
/// by `login`'s contract it sets no cookie, leaves the sessions unchanged
/// and leads to `/`.  In particular the main account needs its password as
/// well as its username.
pub proof fn lemma_login_needs_both_credentials(config: &Config, form: &Login)
    requires
        form.username@ != config.admin_user@ || form.password@ != config.admin_pass@,
        form.username@ != config.main_user@ || form.password@ != config.main_pass@,
    ensures
        !is_admin_login(config, form),
        !is_main_login(config, form),
{
}

/// A login with the main account's username and password, not the
/// admin's, opens a user session; with the admin's, an admin session.
pub proof fn lemma_login_with_account(config: &Config, form: &Login)
    ensures
        form.username@ == config.admin_user@ && form.password@ == config.admin_pass@
            ==> is_admin_login(config, form),
        form.username@ == config.main_user@ && form.password@ == config.main_pass@
            ==> is_main_login(config, form),
{
}

} // verus!
