//! The account endpoints: credential checks, login, registration, the
//! current user, and the check that guards the API endpoints.
use vstd::prelude::*;
use vstd::utf8::encode_utf8;

use crate::crypto::{argon2_accepts, argon2_default_prefix, hash_password, phc_hash_is_valid, phc_hash_parses, verify_password};
use crate::models::users::{SessionUser, UserRequest, UserSession};
use crate::reply::{is_message, is_text, message_reply, text_reply, Reply, ReplyBody};
use crate::text::chars_of;

verus! {

/// Whether `char::is_whitespace` holds of a character outside ASCII (the
/// Unicode `White_Space` property).
pub uninterp spec fn is_non_ascii_whitespace(c: char) -> bool;

/// Whether `char::is_whitespace` holds of a character: among ASCII
/// characters exactly the space and `\t` to `\r` (tab, line feed, vertical
/// tab, form feed, carriage return); beyond ASCII the `White_Space`
/// property, left named.
pub open spec fn is_whitespace_spec(c: char) -> bool {
    if c <= '\u{7f}' {
        c == ' ' || ('\t' <= c <= '\r')
    } else {
        is_non_ascii_whitespace(c)
    }
}

/// `char::is_whitespace`: the Unicode `White_Space` property, whose ASCII
/// part the contract states.
#[verifier::external_body]
pub(crate) fn char_is_whitespace(c: char) -> (b: bool)
    ensures
        b == is_whitespace_spec(c),
        c > '\u{7f}' ==> b == is_non_ascii_whitespace(c),
{
    c.is_whitespace()
}

/// A text is blank when it is empty or all whitespace, that is when
/// `trim()` leaves nothing.
pub open spec fn is_blank_spec(s: Seq<char>) -> bool {
    forall|i: int| 0 <= i < s.len() ==> is_whitespace_spec(#[trigger] s[i])
}

/// Whether `s.trim()` is empty.
pub fn is_blank(s: &str) -> (b: bool)
    ensures
        b == is_blank_spec(s@),
{
    let chars = chars_of(s);
    let n = chars.len();
    let mut i: usize = 0;
    while i < n
        invariant
            i <= n,
            n == chars@.len(),
            chars@ == s@,
            forall|j: int| 0 <= j < i ==> is_whitespace_spec(#[trigger] s@[j]),
        decreases n - i,
    {
        if !char_is_whitespace(chars[i]) {
            return false;
        }
        i = i + 1;
    }
    true
}

/// The credentials are usable: a name (username or e-mail address) that is
/// not blank, and a non-empty password.
pub open spec fn credentials_present_spec(name: Seq<char>, password: Seq<char>) -> bool {
    !is_blank_spec(name) && password.len() > 0
}

/// Credentials are accepted exactly when the password is not empty and the
/// name holds a character that is not whitespace; an empty or all-whitespace
/// name is always refused.
pub proof fn lemma_credentials_need_name_and_password(name: Seq<char>, password: Seq<char>)
    ensures
        credentials_present_spec(name, password) <==> (password.len() > 0 && exists|i: int|
            0 <= i < name.len() && !is_whitespace_spec(#[trigger] name[i])),
        name.len() == 0 ==> !credentials_present_spec(name, password),
        (forall|i: int| 0 <= i < name.len() ==> is_whitespace_spec(#[trigger] name[i]))
            ==> !credentials_present_spec(name, password),
        password.len() == 0 ==> !credentials_present_spec(name, password),
{
}

/// Checks the credentials of a login or registration before any lookup.
pub fn credentials_present(name: &str, password: &str) -> (ok: bool)
    ensures
        ok == credentials_present_spec(name@, password@),
        ok <==> (password@.len() > 0 && exists|i: int|
            0 <= i < name@.len() && !is_whitespace_spec(#[trigger] name@[i])),
{
    !(is_blank(name) || password.is_empty())
}

/// The reply to blank credentials (400).
pub fn blank_credentials_reply() -> (r: Reply<()>)
    ensures
        r.status == 400 && is_text(r.body, "Username or Password must be not empty!"@),
{
    text_reply(400, "Username or Password must be not empty!")
}

/// How a login ends, given the password and the accounts found by name.
#[derive(Debug, Clone, PartialEq, Eq)]
pub enum LoginOutcome {
    /// No account has that name.
    NotRegistered,
    /// The first account's stored hash is not a PHC hash string.
    UnreadableHash,
    /// The password does not match the first account's hash.
    WrongPassword,
    /// The password matches: this user goes into the session.
    Authenticated(SessionUser),
}

/// The session user of an account.
pub open spec fn session_user_of(a: UserSession) -> SessionUser {
    SessionUser { id: a.id, username: a.username, email: a.email, role: a.role }
}

/// How a login ends: the first account found decides.
pub open spec fn login_outcome_spec(password: Seq<char>, accounts: Seq<UserSession>) -> LoginOutcome {
    if accounts.len() == 0 {
        LoginOutcome::NotRegistered
    } else if !phc_hash_parses(accounts[0].password@) {
        LoginOutcome::UnreadableHash
    } else if argon2_accepts(encode_utf8(password), accounts[0].password@) {
        LoginOutcome::Authenticated(session_user_of(accounts[0]))
    } else {
        LoginOutcome::WrongPassword
    }
}

/// A login is authenticated exactly when an account was found, its stored
/// hash parses and the password verifies against it; the session user is
/// then that account's id, username, e-mail address and role.
pub proof fn lemma_login_keeps_account(password: Seq<char>, accounts: Seq<UserSession>)
    ensures
        login_outcome_spec(password, accounts) is Authenticated <==> (accounts.len() > 0
            && phc_hash_parses(accounts[0].password@) && argon2_accepts(
            encode_utf8(password),
            accounts[0].password@,
        )),
        login_outcome_spec(password, accounts) matches LoginOutcome::Authenticated(u) ==> {
            &&& u.id == accounts[0].id
            &&& u.username == accounts[0].username
            &&& u.email == accounts[0].email
            &&& u.role == accounts[0].role
        },
        accounts.len() == 0 ==> login_outcome_spec(password, accounts)
            == LoginOutcome::NotRegistered,
{
}

/// Decides a login from the password and the accounts found by name.
pub fn login_decision(password: &str, accounts: &Vec<UserSession>) -> (r: LoginOutcome)
    ensures
        r == login_outcome_spec(password@, accounts@),
        r matches LoginOutcome::Authenticated(u) ==> {
            &&& accounts@.len() > 0
            &&& u.id == accounts@[0].id
            &&& u.username == accounts@[0].username
            &&& u.email == accounts@[0].email
            &&& u.role == accounts@[0].role
            &&& argon2_accepts(encode_utf8(password@), accounts@[0].password@)
        },
{
    if accounts.len() == 0 {
        return LoginOutcome::NotRegistered;
    }
    let account = &accounts[0];
    if !phc_hash_is_valid(account.password.as_str()) {
        return LoginOutcome::UnreadableHash;
    }
    if verify_password(password, account.password.as_str()) {
        LoginOutcome::Authenticated(
            SessionUser {
                id: account.id,
                username: account.username.clone(),
                email: account.email.clone(),
                role: account.role.clone(),
            },
        )
    } else {
        LoginOutcome::WrongPassword
    }
}

/// The reply to a login: 200 when authenticated, 401 for a wrong password,
/// 404 when no account has the name. An unreadable stored hash has no
/// reply: the server fails on it.
pub fn login_reply(outcome: &LoginOutcome) -> (r: Option<Reply<()>>)
    ensures
        match outcome {
            LoginOutcome::NotRegistered => r matches Some(rep) && rep.status == 404 && is_message(
                rep.body,
                "email is not Registered!"@,
            ),
            LoginOutcome::UnreadableHash => r is None,
            LoginOutcome::WrongPassword => r matches Some(rep) && rep.status == 401 && is_message(
                rep.body,
                "Password is incorrect!"@,
            ),
            LoginOutcome::Authenticated(_) => r matches Some(rep) && rep.status == 200 && is_text(
                rep.body,
                "Login Successful!"@,
            ),
        },
{
    match outcome {
        LoginOutcome::NotRegistered => Some(message_reply(404, "email is not Registered!")),
        LoginOutcome::UnreadableHash => None,
        LoginOutcome::WrongPassword => Some(message_reply(401, "Password is incorrect!")),
        LoginOutcome::Authenticated(_) => Some(text_reply(200, "Login Successful!")),
    }
}

/// An account whose stored hash was made from a password lets that password
/// in, whatever else was found with it.
pub proof fn lemma_registered_password_logs_in(
    password: Seq<char>,
    accounts: Seq<UserSession>,
)
    requires
        accounts.len() > 0,
        phc_hash_parses(accounts[0].password@),
        argon2_accepts(encode_utf8(password), accounts[0].password@),
    ensures
        login_outcome_spec(password, accounts) == LoginOutcome::Authenticated(
            session_user_of(accounts[0]),
        ),
{
}

/// What registration does once the name has been looked up.
#[derive(Debug, Clone, PartialEq, Eq)]
pub enum Registration {
    /// An account already has the username.
    Taken,
    /// Store the account with this password hash.
    Insert { hashed_password: String },
}

/// Decides a registration from how many accounts already have the username.
/// A new account's password is stored as an Argon2id PHC hash string with
/// the default parameters, against which the same password verifies.
pub fn registration_decision(request: &UserRequest, existing: usize) -> (r: Registration)
    requires
        encode_utf8(request.password@).len() <= 0xFFFF_FFFF,
    ensures
        existing > 0 ==> r is Taken,
        existing == 0 ==> (r matches Registration::Insert { hashed_password }
            && argon2_default_prefix().is_prefix_of(hashed_password@) && phc_hash_parses(
            hashed_password@,
        ) && argon2_accepts(encode_utf8(request.password@), hashed_password@)),
{
    if existing > 0 {
        Registration::Taken
    } else {
        Registration::Insert { hashed_password: hash_password(request.password.clone()) }
    }
}

/// No two accounts share a username.
pub open spec fn unique_usernames(t: Seq<UserSession>) -> bool {
    forall|i: int, j: int|
        0 <= i < j < t.len() ==> (#[trigger] t[i]).username@ != (#[trigger] t[j]).username@
}

/// How many accounts have the username (what the registration's lookup
/// finds).
pub open spec fn count_named(t: Seq<UserSession>, name: Seq<char>) -> nat
    decreases t.len(),
{
    if t.len() == 0 {
        0
    } else {
        count_named(t.drop_last(), name) + if t.last().username@ == name {
            1nat
        } else {
            0nat
        }
    }
}

/// When the lookup finds no account with a name, none has it.
pub proof fn lemma_count_named_zero(t: Seq<UserSession>, name: Seq<char>)
    requires
        count_named(t, name) == 0,
    ensures
        forall|i: int| 0 <= i < t.len() ==> (#[trigger] t[i]).username@ != name,
    decreases t.len(),
{
    if t.len() > 0 {
        lemma_count_named_zero(t.drop_last(), name);
        assert forall|i: int| 0 <= i < t.len() implies (#[trigger] t[i]).username@ != name by {
            if i < t.len() - 1 {
                assert(t[i] == t.drop_last()[i]);
            }
        }
    }
}

/// Registration keeps usernames unique: it adds an account only when the
/// lookup of its username found none, so a table with one account per
/// username keeps one account per username (registrations taken one at a
/// time).
pub proof fn lemma_registration_keeps_usernames_unique(
    t: Seq<UserSession>,
    request: UserRequest,
    decision: Registration,
    added: UserSession,
)
    requires
        unique_usernames(t),
        decision is Insert ==> count_named(t, request.username@) == 0,
        added.username@ == request.username@,
    ensures
        unique_usernames(if decision is Insert {
            t.push(added)
        } else {
            t
        }),
{
    if decision is Insert {
        lemma_count_named_zero(t, request.username@);
        let t2 = t.push(added);
        assert forall|i: int, j: int| 0 <= i < j < t2.len() implies (#[trigger] t2[i]).username@
            != (#[trigger] t2[j]).username@ by {
            assert(t2[i] == t[i]);
            if j < t.len() {
                assert(t2[j] == t[j]);
            }
        }
    }
}

/// The reply to a registration: 200 once stored, 400 when the username is
/// taken.
pub fn registration_reply(r: &Registration) -> (rep: Reply<()>)
    ensures
        r is Taken ==> rep.status == 400 && is_text(rep.body, "Username is already taken!"@),
        r is Insert ==> rep.status == 200 && is_text(rep.body, "Register Successful!"@),
{
    match r {
        Registration::Taken => text_reply(400, "Username is already taken!"),
        Registration::Insert { .. } => text_reply(200, "Register Successful!"),
    }
}

/// The reply to "who am I": the session user (200), or 401 when nobody is
/// logged in.
pub fn me_reply(user: Option<SessionUser>) -> (r: Reply<SessionUser>)
    ensures
        match user {
            Some(u) => r == Reply { status: 200, body: ReplyBody::Json(u) },
            None => r.status == 401 && is_text(r.body, "Not logged in"@),
        },
{
    match user {
        Some(u) => Reply { status: 200, body: ReplyBody::Json(u) },
        None => text_reply(401, "Not logged in"),
    }
}

/// The check that guards the API endpoints: a logged-in user passes with
/// their session user; anyone else gets 401.
pub fn auth_gate(user: Option<SessionUser>) -> (r: Result<SessionUser, Reply<()>>)
    ensures
        match user {
            Some(u) => r == Ok::<SessionUser, Reply<()>>(u),
            None => r matches Err(rep) && rep.status == 401 && is_text(rep.body, "Unauthorized"@),
        },
{
    match user {
        Some(u) => Ok(u),
        None => Err(text_reply(401, "Unauthorized")),
    }
}

} // verus!
