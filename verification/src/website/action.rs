//! The console's actions: sending a command, starting and killing the
//! program.

use vstd::prelude::*;

use crate::auth::{cookie_view, logged_in, spec_logged_in, AuthenticatedUsers, PermissionType};
use crate::command::ServerCommand;
use crate::website::Location;

verus! {

/// A console command posted by the browser.
pub struct CommandForm {
    pub command: String,
}

/// The answer to a posted command: the reply body, and the line to write
/// to the program's input, if any.  A failed write is the caller's to
/// report; the line is recorded in the console all the same, as it is
/// recorded before it is written.
pub struct CommandReply {
    pub body: &'static str,
    pub write: Option<String>,
}

/// The answer to a start request: where to go, and whether to start the
/// program.
pub struct BootReply {
    pub location: Location,
    pub spawn: bool,
}

/// The answer to a kill request: where to go, and whether to kill the
/// program.
pub struct KillReply {
    pub location: Location,
    pub kill: bool,
}

/// Handles a posted console command.  Only the admin's command is taken:
/// it is recorded in the console and its line (the command and a newline)
/// is to be written to the program, unless the program has `exited`; the
/// reply is then `Complete`.  For anyone else nothing happens and the
/// reply is empty.
pub fn command(
    users: &AuthenticatedUsers,
    cookie: Option<&str>,
    form: CommandForm,
    console: &mut ServerCommand,
    exited: bool,
) -> (r: CommandReply)
    ensures
        spec_logged_in(users@, cookie_view(cookie)) != Some(PermissionType::Admin) ==> {
            &&& *final(console) == *old(console)
            &&& r.body@ == ""@
            &&& r.write is None
        },
        spec_logged_in(users@, cookie_view(cookie)) == Some(PermissionType::Admin) ==> {
            &&& r.body@ == "Complete"@
            &&& final(console).text@.len() == old(console).text@.len() + 1
            &&& final(console).text@.drop_last() == old(console).text@
            &&& final(console).text@.last()@ == form.command@ + seq!['\n']
            &&& r.write == (if exited { None } else { Some(final(console).text@.last()) })
            &&& final(console).history == old(console).history
            &&& final(console).running == old(console).running
        },
{
    if logged_in(users, cookie) != Some(PermissionType::Admin) {
        return CommandReply { body: "", write: None };
    }
    let write = console.forward(form.command, exited);
    CommandReply { body: "Complete", write }
}

/// Handles a start request: a browser that is not logged in goes to `/`;
/// a logged-in one goes to the status page, and the program is started
/// if it is not running.
pub fn boot(users: &AuthenticatedUsers, cookie: Option<&str>, running: bool) -> (r: BootReply)
    ensures
        spec_logged_in(users@, cookie_view(cookie)) is None ==> r == (BootReply {
            location: Location::Root,
            spawn: false,
        }),
        spec_logged_in(users@, cookie_view(cookie)) is Some ==> r == (BootReply {
            location: Location::User,
            spawn: !running,
        }),
{
    if logged_in(users, cookie).is_none() {
        return BootReply { location: Location::Root, spawn: false };
    }
    if running {
        BootReply { location: Location::User, spawn: false }
    } else {
        BootReply { location: Location::User, spawn: true }
    }
}

/// Handles a kill request: a browser that is not logged in goes to `/`;
/// for a logged-in one (admin or user) the program is killed and the
/// browser goes to the console.
pub fn kill(users: &AuthenticatedUsers, cookie: Option<&str>) -> (r: KillReply)
    ensures
        spec_logged_in(users@, cookie_view(cookie)) is None ==> r == (KillReply {
            location: Location::Root,
            kill: false,
        }),
        spec_logged_in(users@, cookie_view(cookie)) is Some ==> r == (KillReply {
            location: Location::Log,
            kill: true,
        }),
{
    if logged_in(users, cookie).is_none() {
        return KillReply { location: Location::Root, kill: false };
    }
    KillReply { location: Location::Log, kill: true }
}

} // verus!
