//! What each page of the site answers, given the sessions, the request's
//! `authentication` cookie and, for pages, the page's template.

pub mod action;
pub mod auth;
pub mod data;

use vstd::prelude::*;

use crate::auth::{cookie_view, logged_in, spec_logged_in, AuthenticatedUsers, PermissionType};
use crate::text::{fill_template, spec_fill, substitution_views};

verus! {

/// The pages a request can be sent on to.
#[derive(Clone, Copy, PartialEq, Eq, Structural, Debug)]
pub enum Location {
    /// `/`, the login page.
    Root,
    /// `/user`, the status page.
    User,
    /// `/log`, the console.
    Log,
}

/// The path of a page.
pub open spec fn spec_path(l: Location) -> Seq<char> {
    match l {
        Location::Root => "/"@,
        Location::User => "/user"@,
        Location::Log => "/log"@,
    }
}

impl Location {
    /// The path of this page.
    pub fn path(&self) -> (r: &'static str)
        ensures
            r@ == spec_path(*self),
    {
        match self {
            Location::Root => "/",
            Location::User => "/user",
            Location::Log => "/log",
        }
    }
}

/// The admin's extra link on the status page, to the console.
pub open spec fn console_link() -> Seq<char> {
    "<a class=\"cool-link\" href=\"/log\"><button class=\"cool-button\">Console</button></a>"@
}

/// The placeholders of the status page and what fills them.
pub open spec fn user_page_substitutions(
    permission: PermissionType,
    running: bool,
) -> Seq<(Seq<char>, Seq<char>)> {
    seq![
        ("{{ status }}"@, if running { "Server Status: Running"@ } else { "Server Status: Stopped"@ }),
        ("{{ user }}"@, match permission {
            PermissionType::Admin => "Admin"@,
            PermissionType::User => "User"@,
        }),
        ("{{ extra }}"@, match permission {
            PermissionType::Admin => console_link(),
            PermissionType::User => ""@,
        }),
    ]
}

/// The placeholder of the login page and what fills it.
pub open spec fn index_page_substitutions() -> Seq<(Seq<char>, Seq<char>)> {
    seq![("{{ login }}"@, "Welcome!"@)]
}

/// The status line of the status page follows `running` alone: for
/// whoever is logged in, admin or user, the `{{ status }}` placeholder is
/// filled with `Server Status: Running` when the program runs and with
/// `Server Status: Stopped` when it does not; the two are different texts.
pub proof fn lemma_status_follows_running(permission: PermissionType, running: bool)
    ensures
        user_page_substitutions(permission, running)[0].0 == "{{ status }}"@,
        running ==> user_page_substitutions(permission, running)[0].1 == "Server Status: Running"@,
        !running ==> user_page_substitutions(permission, running)[0].1
            == "Server Status: Stopped"@,
        user_page_substitutions(PermissionType::Admin, running)[0]
            == user_page_substitutions(PermissionType::User, running)[0],
        "Server Status: Running"@ != "Server Status: Stopped"@,
{
    reveal_strlit("Server Status: Running");
    reveal_strlit("Server Status: Stopped");
    assert("Server Status: Running"@[15] != "Server Status: Stopped"@[15]);
}

/// The status page: sends a browser that is not logged in to `/`; shows a
/// logged-in one whether the program runs, who it is and, to the admin, a
/// link to the console.
pub fn user(
    users: &AuthenticatedUsers,
    cookie: Option<&str>,
    running: bool,
    template: &str,
) -> (r: Result<String, Location>)
    ensures
        match spec_logged_in(users@, cookie_view(cookie)) {
            None => r == Err::<String, Location>(Location::Root),
            Some(p) => r matches Ok(page) && page@ == spec_fill(
                template@,
                user_page_substitutions(p, running),
            ),
        },
{
    match logged_in(users, cookie) {
        None => Err(Location::Root),
        Some(login) => {
            proof {
                reveal_strlit("{{ status }}");
                reveal_strlit("{{ user }}");
                reveal_strlit("{{ extra }}");
            }
            let status = if running {
                "Server Status: Running"
            } else {
                "Server Status: Stopped"
            };
            let name = match login {
                PermissionType::Admin => "Admin",
                PermissionType::User => "User",
            };
            let extra = match login {
                PermissionType::Admin => "<a class=\"cool-link\" href=\"/log\"><button class=\"cool-button\">Console</button></a>",
                PermissionType::User => "",
            };
            let mut subs: Vec<(&str, &str)> = Vec::new();
            subs.push(("{{ status }}", status));
            subs.push(("{{ user }}", name));
            subs.push(("{{ extra }}", extra));
            assert(substitution_views(subs@) =~= user_page_substitutions(login, running));
            Ok(fill_template(template, subs.as_slice()))
        },
    }
}

/// The login page: sends a logged-in admin to the console and a logged-in
/// user to the status page; shows anyone else the login form, greeted
/// with `Welcome!`.
pub fn index(users: &AuthenticatedUsers, cookie: Option<&str>, template: &str) -> (r: Result<
    Location,
    String,
>)
    ensures
        match spec_logged_in(users@, cookie_view(cookie)) {
            Some(PermissionType::Admin) => r == Ok::<Location, String>(Location::Log),
            Some(PermissionType::User) => r == Ok::<Location, String>(Location::User),
            None => r matches Err(page) && page@ == spec_fill(
                template@,
                index_page_substitutions(),
            ),
        },
{
    match logged_in(users, cookie) {
        Some(PermissionType::Admin) => Ok(Location::Log),
        Some(PermissionType::User) => Ok(Location::User),
        None => {
            proof {
                reveal_strlit("{{ login }}");
            }
            let mut subs: Vec<(&str, &str)> = Vec::new();
            subs.push(("{{ login }}", "Welcome!"));
            assert(substitution_views(subs@) =~= index_page_substitutions());
            Err(fill_template(template, subs.as_slice()))
        },
    }
}

/// The console page: shown, as its template is, to the admin only; anyone
/// else is sent to `/`.
pub fn log(users: &AuthenticatedUsers, cookie: Option<&str>, template: &str) -> (r: Result<
    String,
    Location,
>)
    ensures
        match spec_logged_in(users@, cookie_view(cookie)) {
            Some(PermissionType::Admin) => r matches Ok(page) && page@ == template@,
            _ => r == Err::<String, Location>(Location::Root),
        },
{
    match logged_in(users, cookie) {
        Some(PermissionType::Admin) => {
            let subs: Vec<(&str, &str)> = Vec::new();
            assert(substitution_views(subs@) =~= Seq::<(Seq<char>, Seq<char>)>::empty());
            Ok(fill_template(template, subs.as_slice()))
        },
        _ => Err(Location::Root),
    }
}

} // verus!
