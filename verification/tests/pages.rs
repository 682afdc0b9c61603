use roast::auth::{logged_in, Auth, AuthenticatedUsers, Login, PermissionType};
use roast::command::ServerCommand;
use roast::config::Config;
use roast::website::action::{boot, command, kill, CommandForm};
use roast::website::auth::{login, logout};
use roast::website::data::{data_log, LogCursor};
use roast::website::{index, log, user, Location};

fn config() -> Config {
    Config {
        address: "127.0.0.1".to_string(),
        port: 8000,
        run_path: "./run.sh".to_string(),
        admin_user: "root".to_string(),
        admin_pass: "hunter2".to_string(),
        main_user: "friend".to_string(),
        main_pass: "letmein".to_string(),
    }
}

fn form(u: &str, p: &str) -> Login {
    Login { username: u.to_string(), password: p.to_string() }
}

fn strings(v: &[&str]) -> Vec<String> {
    v.iter().map(|s| s.to_string()).collect()
}

#[test]
fn location_paths() {
    assert_eq!(Location::Root.path(), "/");
    assert_eq!(Location::User.path(), "/user");
    assert_eq!(Location::Log.path(), "/log");
}

#[test]
fn admin_login_opens_admin_session() {
    let mut users = AuthenticatedUsers::new();
    let r = login(&mut users, &config(), &form("root", "hunter2"));
    assert_eq!(r.location, Location::Log);
    let cookie = r.cookie.expect("a cookie");
    assert_eq!(logged_in(&users, Some(&cookie)), Some(PermissionType::Admin));
}

#[test]
fn main_login_opens_user_session() {
    let mut users = AuthenticatedUsers::new();
    let r = login(&mut users, &config(), &form("friend", "letmein"));
    assert_eq!(r.location, Location::User);
    let cookie = r.cookie.expect("a cookie");
    assert_eq!(logged_in(&users, Some(&cookie)), Some(PermissionType::User));
}

#[test]
fn admin_account_wins_when_both_match() {
    let mut cfg = config();
    cfg.main_user = "root".to_string();
    cfg.main_pass = "hunter2".to_string();
    let mut users = AuthenticatedUsers::new();
    let r = login(&mut users, &cfg, &form("root", "hunter2"));
    assert_eq!(r.location, Location::Log);
}

#[test]
fn wrong_password_opens_nothing() {
    let mut users = AuthenticatedUsers::new();
    let r = login(&mut users, &config(), &form("root", "letmein"));
    assert_eq!(r.location, Location::Root);
    assert!(r.cookie.is_none());
}

#[test]
fn logout_goes_home_and_forgets() {
    let mut users = AuthenticatedUsers::new();
    let r = login(&mut users, &config(), &form("friend", "letmein"));
    let cookie = r.cookie.unwrap();
    assert_eq!(logout(&mut users, Some(&cookie)), Location::Root);
    assert_eq!(logged_in(&users, Some(&cookie)), None);
}

#[test]
fn index_redirects_by_permission() {
    let mut users = AuthenticatedUsers::new();
    let admin = Auth::login_admin(&mut users).cookie_value();
    let plain = Auth::login_user(&mut users).cookie_value();
    let template = "<h1>{{ login }}</h1>";
    assert_eq!(index(&users, Some(&admin), template), Ok(Location::Log));
    assert_eq!(index(&users, Some(&plain), template), Ok(Location::User));
    assert_eq!(index(&users, None, template), Err("<h1>Welcome!</h1>".to_string()));
}

#[test]
fn user_page_fills_status_user_and_link() {
    let mut users = AuthenticatedUsers::new();
    let admin = Auth::login_admin(&mut users).cookie_value();
    let plain = Auth::login_user(&mut users).cookie_value();
    let template = "{{ status }}|{{ user }}|{{ extra }}";
    assert_eq!(
        user(&users, Some(&admin), true, template),
        Ok("Server Status: Running|Admin|<a class=\"cool-link\" href=\"/log\"><button class=\"cool-button\">Console</button></a>".to_string())
    );
    assert_eq!(
        user(&users, Some(&plain), false, template),
        Ok("Server Status: Stopped|User|".to_string())
    );
    assert_eq!(user(&users, None, true, template), Err(Location::Root));
}

#[test]
fn log_page_is_for_the_admin_only() {
    let mut users = AuthenticatedUsers::new();
    let admin = Auth::login_admin(&mut users).cookie_value();
    let plain = Auth::login_user(&mut users).cookie_value();
    assert_eq!(log(&users, Some(&admin), "<pre>{{ x }}</pre>"), Ok("<pre>{{ x }}</pre>".to_string()));
    assert_eq!(log(&users, Some(&plain), "t"), Err(Location::Root));
    assert_eq!(log(&users, None, "t"), Err(Location::Root));
}

#[test]
fn command_is_taken_from_the_admin_only() {
    let mut users = AuthenticatedUsers::new();
    let admin = Auth::login_admin(&mut users).cookie_value();
    let plain = Auth::login_user(&mut users).cookie_value();
    let mut console = ServerCommand::new(10);
    let r = command(&users, Some(&plain), CommandForm { command: "stop".to_string() }, &mut console, false);
    assert_eq!(r.body, "");
    assert!(r.write.is_none());
    assert!(console.text.is_empty());
    let r = command(&users, Some(&admin), CommandForm { command: " say hi".to_string() }, &mut console, false);
    assert_eq!(r.body, "Complete");
    assert_eq!(r.write, Some(" say hi\n".to_string()));
    assert_eq!(console.text, strings(&[" say hi\n"]));
    let r = command(&users, Some(&admin), CommandForm { command: "stop".to_string() }, &mut console, true);
    assert_eq!(r.body, "Complete");
    assert_eq!(r.write, None);
    assert_eq!(console.text, strings(&[" say hi\n", "stop\n"]));
}

#[test]
fn boot_starts_only_a_stopped_program() {
    let mut users = AuthenticatedUsers::new();
    let plain = Auth::login_user(&mut users).cookie_value();
    let r = boot(&users, None, false);
    assert_eq!((r.location, r.spawn), (Location::Root, false));
    let r = boot(&users, Some(&plain), true);
    assert_eq!((r.location, r.spawn), (Location::User, false));
    let r = boot(&users, Some(&plain), false);
    assert_eq!((r.location, r.spawn), (Location::User, true));
}

#[test]
fn kill_is_open_to_any_session() {
    let mut users = AuthenticatedUsers::new();
    let plain = Auth::login_user(&mut users).cookie_value();
    let r = kill(&users, None);
    assert_eq!((r.location, r.kill), (Location::Root, false));
    let r = kill(&users, Some(&plain));
    assert_eq!((r.location, r.kill), (Location::Log, true));
}

#[test]
fn data_log_refuses_non_admins() {
    let mut users = AuthenticatedUsers::new();
    let admin = Auth::login_admin(&mut users).cookie_value();
    let plain = Auth::login_user(&mut users).cookie_value();
    assert_eq!(data_log(&users, Some(&admin)), Ok(()));
    assert_eq!(data_log(&users, Some(&plain)), Err("User not logged in".to_string()));
    assert_eq!(data_log(&users, None), Err("User not logged in".to_string()));
}

#[test]
fn log_stream_shows_new_lines_only() {
    let text = strings(&["a\n", "b\n"]);
    let (mut cursor, shown) = LogCursor::start(&text);
    assert_eq!(shown, "a\nb\n");
    assert_eq!(cursor.last_line, "b\n");
    // nothing new
    assert_eq!(cursor.poll(&text), Some(String::new()));
    // two new lines
    let text = strings(&["a\n", "b\n", "c\n", "d\n"]);
    assert_eq!(cursor.poll(&text), Some("c\nd\n".to_string()));
    assert_eq!(cursor.last_line, "d\n");
    // an empty console shows nothing at all
    assert_eq!(cursor.poll(&Vec::new()), None);
    assert_eq!(cursor.last_line, "d\n");
}

#[test]
fn log_stream_shows_everything_when_last_line_is_gone() {
    let (mut cursor, shown) = LogCursor::start(&Vec::new());
    assert_eq!(shown, "");
    assert_eq!(cursor.last_line, "");
    let text = strings(&["x\n", "y\n"]);
    assert_eq!(cursor.poll(&text), Some("x\ny\n".to_string()));
    // the remembered line was trimmed away: the whole console is shown again
    let text = strings(&["z\n"]);
    assert_eq!(cursor.poll(&text), Some("z\n".to_string()));
}

#[test]
fn log_stream_resumes_after_last_repeat() {
    let text = strings(&["a", "b", "a", "c"]);
    let mut cursor = LogCursor { last_line: "a".to_string() };
    assert_eq!(cursor.poll(&text), Some("c".to_string()));
    assert_eq!(cursor.last_line, "c");
}

#[test]
fn log_stream_over_many_ticks_remembers_latest_nonempty_snapshot() {
    let (mut cursor, shown) = LogCursor::start(&strings(&["a", "b"]));
    assert_eq!(shown, "ab");
    assert_eq!(cursor.poll(&Vec::new()), None);
    assert_eq!(cursor.last_line, "b");
    // unchanged log after an empty snapshot: nothing is sent twice
    assert_eq!(cursor.poll(&strings(&["a", "b"])), Some(String::new()));
    assert_eq!(cursor.poll(&strings(&["a", "b", "c"])), Some("c".to_string()));
    assert_eq!(cursor.poll(&strings(&["a", "b", "c"])), Some(String::new()));
    assert_eq!(cursor.last_line, "c");
}
