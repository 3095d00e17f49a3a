use parpress::models::users::{SessionUser, UserRequest, UserSession};
use parpress::reply::{Reply, ReplyBody};
use parpress::user::{
    auth_gate, blank_credentials_reply, credentials_present, is_blank, login_decision,
    login_reply, me_reply, registration_decision, registration_reply, LoginOutcome, Registration,
};

fn session_user() -> SessionUser {
    SessionUser { id: 7, username: "ana".to_string(), email: "ana@example.com".to_string(), role: None }
}

fn account(hash: &str) -> UserSession {
    UserSession {
        id: 7,
        password: hash.to_string(),
        username: "ana".to_string(),
        email: "ana@example.com".to_string(),
        role: None,
    }
}

fn request(password: &str) -> UserRequest {
    UserRequest {
        username: "ana".to_string(),
        email: "ana@example.com".to_string(),
        password: password.to_string(),
        email_verified: false,
        role: Some("admin".to_string()),
    }
}

#[test]
fn blank_text() {
    assert!(is_blank(""));
    assert!(is_blank("   "));
    assert!(is_blank(" \t\r\n"));
    assert!(is_blank("\u{a0}\u{3000}"));
    assert!(!is_blank(" a "));
    assert!(!is_blank("ana"));
}

#[test]
fn credentials_checks() {
    assert!(credentials_present("ana", "secret"));
    assert!(credentials_present(" ana ", " "));
    assert!(!credentials_present("  ", "secret"));
    assert!(!credentials_present("ana", ""));
    assert!(!credentials_present("", ""));
    assert_eq!(
        blank_credentials_reply(),
        Reply { status: 400, body: ReplyBody::Text("Username or Password must be not empty!".to_string()) }
    );
}

#[test]
fn register_then_login() {
    let hashed = match registration_decision(&request("hunter42"), 0) {
        Registration::Insert { hashed_password } => hashed_password,
        Registration::Taken => panic!("username reported as taken"),
    };
    assert!(hashed.starts_with("$argon2id$v=19$m=19456,t=2,p=1$"));
    assert_ne!(hashed, "hunter42");
    let accounts = vec![account(&hashed)];
    assert_eq!(login_decision("hunter42", &accounts), LoginOutcome::Authenticated(session_user()));
    assert_eq!(login_decision("hunter43", &accounts), LoginOutcome::WrongPassword);
}

#[test]
fn login_without_account() {
    assert_eq!(login_decision("x", &Vec::new()), LoginOutcome::NotRegistered);
}

#[test]
fn login_with_unreadable_hash() {
    assert_eq!(login_decision("x", &vec![account("plain-text")]), LoginOutcome::UnreadableHash);
}

#[test]
fn login_replies() {
    assert_eq!(
        login_reply(&LoginOutcome::NotRegistered),
        Some(Reply { status: 404, body: ReplyBody::Message("email is not Registered!".to_string()) })
    );
    assert_eq!(
        login_reply(&LoginOutcome::WrongPassword),
        Some(Reply { status: 401, body: ReplyBody::Message("Password is incorrect!".to_string()) })
    );
    assert_eq!(
        login_reply(&LoginOutcome::Authenticated(session_user())),
        Some(Reply { status: 200, body: ReplyBody::Text("Login Successful!".to_string()) })
    );
    assert_eq!(login_reply(&LoginOutcome::UnreadableHash), None);
}

#[test]
fn registration_taken() {
    assert_eq!(registration_decision(&request("pw"), 1), Registration::Taken);
    assert_eq!(
        registration_reply(&Registration::Taken),
        Reply { status: 400, body: ReplyBody::Text("Username is already taken!".to_string()) }
    );
    assert_eq!(
        registration_reply(&Registration::Insert { hashed_password: "h".to_string() }),
        Reply { status: 200, body: ReplyBody::Text("Register Successful!".to_string()) }
    );
}

#[test]
fn me_and_gate() {
    assert_eq!(me_reply(Some(session_user())), Reply { status: 200, body: ReplyBody::Json(session_user()) });
    assert_eq!(
        me_reply(None),
        Reply { status: 401, body: ReplyBody::Text("Not logged in".to_string()) }
    );
    assert_eq!(auth_gate(Some(session_user())), Ok(session_user()));
    assert_eq!(
        auth_gate(None),
        Err(Reply { status: 401, body: ReplyBody::Text("Unauthorized".to_string()) })
    );
}
