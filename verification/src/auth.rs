use vstd::prelude::*;
use vstd::utf8::encode_utf8;
use crate::commons::ApiError;
use crate::json::starts_with;
use crate::jwt::{jwt_for, lemma_issued_token_names_user, sign, token_subject, verify_token, TOKEN_LIFETIME_SECS};
use crate::password::{argon2_phc, check_password, hash_password, password_check_of, PasswordCheck};
use crate::snowflake::{generate_snowflake, machine_id_of, machine_name_of, snowflake_of, EPOCH_MS};
use crate::text::{chars_of, decimal, has_at, string_of, u64_to_decimal};

verus! {

/// The tokens handed out at login: a session token and a refresh token.
pub struct Auth {
    pub token: String,
    pub refresh: String,
}

/// The credentials of a registration or a login.
pub struct AuthUser {
    pub username: String,
    pub password: String,
}

/// The body of a logout: the refresh token to forget.
pub struct Logout {
    pub refresh: String,
}

/// The body of a refresh: the refresh token handed out earlier.
pub struct RefreshRequest {
    pub token: String,
}

/// A stored user.
pub struct User {
    pub id: String,
    pub username: String,
    pub password: String,
    pub created: Option<String>,
    pub updated: Option<String>,
    pub deleted: Option<String>,
}

/// The row that a registration stores: a new id, the username and the
/// password's Argon2 hash.
pub struct NewUser {
    pub id: String,
    pub username: String,
    pub password: String,
}

/// Seconds for which a refresh token is kept.
pub const REFRESH_TOKEN_TTL_SECS: u64 = 1800;

/// The identifier made at `now_ms` on the configured machine, in decimal.
pub open spec fn id_text(now_ms: u64, machine_name: Option<&str>) -> Seq<char>
    recommends
        now_ms >= EPOCH_MS,
{
    decimal(snowflake_of(now_ms, machine_id_of(machine_name_of(machine_name))) as nat)
}

/// What a row that `register` stores holds: the id made at `now_ms`, the
/// username, and the Argon2 hash of the password under the salt, a hash that
/// accepts the password it was made from.
pub open spec fn registered_row(row: NewUser, user: AuthUser, salt: Seq<u8>, now_ms: u64, machine_name: Option<&str>) -> bool {
    &&& row.id@ == id_text(now_ms, machine_name)
    &&& row.username@ == user.username@
    &&& argon2_phc(encode_utf8(user.password@), salt) == Some(row.password@)
    &&& password_check_of(encode_utf8(user.password@), row.password@) == PasswordCheck::Match
}

/// Registers `user`: a new snowflake id, and the password hashed with
/// Argon2id under `salt` (sixteen random bytes). Fails with
/// `ApiError::Internal` only where the hasher refuses. The stored hash
/// accepts the password it was made from.
pub fn register(user: &AuthUser, now_ms: u64, machine_name: Option<&str>, salt: &[u8; 16]) -> (r: Result<NewUser, ApiError>)
    requires
        now_ms >= EPOCH_MS,
    ensures
        r is Ok <==> argon2_phc(encode_utf8(user.password@), salt@) is Some,
        r matches Err(e) ==> e == ApiError::Internal,
        r matches Ok(row) ==> registered_row(row, *user, salt@, now_ms, machine_name),
        r matches Ok(row) ==> row.id@ == decimal(
            snowflake_of(now_ms, machine_id_of(machine_name_of(machine_name))) as nat,
        ),
{
    let id = generate_snowflake(now_ms, machine_name);
    match hash_password(user.password.as_str(), salt) {
        Some(hashed) => Ok(
            NewUser { id: u64_to_decimal(id), username: user.username.clone(), password: hashed },
        ),
        None => Err(ApiError::Internal),
    }
}

/// The id and the stored password hash of a user.
pub open spec fn stored_credentials(user: Option<&User>) -> Option<(Seq<char>, Seq<char>)> {
    match user {
        Some(u) => Some((u.id@, u.password@)),
        None => None,
    }
}

/// The token pair, or the error, as chars.
pub open spec fn auth_text(r: Result<Auth, ApiError>) -> Result<(Seq<char>, Seq<char>), ApiError> {
    match r {
        Ok(auth) => Ok((auth.token@, auth.refresh@)),
        Err(e) => Err(e),
    }
}

/// What a login with `password` gives against the stored user (its id and
/// hash, `None` when there is none): 404, 500 for an unreadable hash, 401
/// for a password the hash refuses, and otherwise the session token of the
/// user issued at `now_ms / 1000` seconds with the refresh token made at
/// `now_ms`.
pub open spec fn login_outcome(user: Option<(Seq<char>, Seq<char>)>, password: Seq<char>, now_ms: u64, machine_name: Option<&str>) -> Result<(Seq<char>, Seq<char>), ApiError> {
    match user {
        None => Err(ApiError::UserNotFound),
        Some((id, stored)) => match password_check_of(encode_utf8(password), stored) {
            PasswordCheck::Malformed => Err(ApiError::InvalidPasswordHash),
            PasswordCheck::Mismatch => Err(ApiError::InvalidCredentials),
            PasswordCheck::Match => Ok((jwt_for(id, (now_ms / 1000) as u64), id_text(now_ms, machine_name))),
        },
    }
}

/// Logs in with `attempt` against the stored user found by its username
/// (`None` when there is none): 404 when there is no user, 500 when the
/// stored hash cannot be read, 401 when the password does not match, and
/// otherwise a session token for the user's id issued at `now_ms / 1000`
/// seconds and a refresh token, the decimal snowflake made at `now_ms`. The
/// clock is read, and so must be past `EPOCH_MS`, only when tokens are issued.
pub fn login(user: Option<&User>, attempt: &AuthUser, now_ms: u64, machine_name: Option<&str>) -> (r: Result<Auth, ApiError>)
    requires
        login_outcome(stored_credentials(user), attempt.password@, now_ms, machine_name) is Ok
            ==> now_ms >= EPOCH_MS,
    ensures
        auth_text(r) == login_outcome(stored_credentials(user), attempt.password@, now_ms, machine_name),
{
    let user = match user {
        Some(user) => user,
        None => {
            return Err(ApiError::UserNotFound);
        },
    };
    match check_password(attempt.password.as_str(), user.password.as_str()) {
        PasswordCheck::Malformed => {
            return Err(ApiError::InvalidPasswordHash);
        },
        PasswordCheck::Mismatch => {
            return Err(ApiError::InvalidCredentials);
        },
        PasswordCheck::Match => {},
    }
    Ok(issue_tokens(user.id.as_str(), now_ms, machine_name))
}

/// The token pair of `user_id` at `now_ms`: a session token issued at
/// `now_ms / 1000` seconds and a fresh refresh token.
fn issue_tokens(user_id: &str, now_ms: u64, machine_name: Option<&str>) -> (auth: Auth)
    requires
        now_ms >= EPOCH_MS,
    ensures
        auth.token@ == jwt_for(user_id@, (now_ms / 1000) as u64),
        auth.refresh@ == id_text(now_ms, machine_name),
{
    let refresh_token = u64_to_decimal(generate_snowflake(now_ms, machine_name));
    let now_secs = now_ms / 1000;
    Auth { token: sign(user_id, now_secs), refresh: refresh_token }
}

/// A new token pair for the user that a refresh token was stored for
/// (`None` when the token is unknown or has expired from the store): 401
/// (`ApiError::RefreshTokenInvalid`) without a user, and otherwise a session
/// token for that user issued at `now_ms / 1000` seconds and a fresh
/// refresh token, the decimal snowflake made at `now_ms`.
pub fn refresh(stored_user: Option<&str>, now_ms: u64, machine_name: Option<&str>) -> (r: Result<Auth, ApiError>)
    requires
        stored_user is Some ==> now_ms >= EPOCH_MS,
    ensures
        stored_user is None ==> r == Err::<Auth, ApiError>(ApiError::RefreshTokenInvalid),
        stored_user matches Some(id) ==> r matches Ok(auth) && auth.token@ == jwt_for(
            id@,
            (now_ms / 1000) as u64,
        ) && auth.refresh@ == id_text(now_ms, machine_name),
{
    match stored_user {
        Some(id) => Ok(issue_tokens(id, now_ms, machine_name)),
        None => Err(ApiError::RefreshTokenInvalid),
    }
}

/// The token of an `Authorization` header of the form `Bearer <token>`.
pub open spec fn bearer_token(header: Seq<char>) -> Option<Seq<char>> {
    if starts_with(header, seq!['B', 'e', 'a', 'r', 'e', 'r', ' ']) {
        Some(header.skip(7))
    } else {
        None
    }
}

/// The chars of an optional header.
pub open spec fn header_text(header: Option<&str>) -> Option<Seq<char>> {
    match header {
        Some(h) => Some(h@),
        None => None,
    }
}

/// The user that a logout request names: the subject of the bearer token in
/// its `Authorization` header, if that token is genuine and unexpired.
pub open spec fn logout_subject(authorization: Option<Seq<char>>, now_secs: u64) -> Option<Seq<char>> {
    match authorization {
        Some(h) => match bearer_token(h) {
            Some(t) => token_subject(t, now_secs),
            None => None,
        },
        None => None,
    }
}

/// The user id that a logout acts for: the subject of the bearer token in
/// the `Authorization` header; 401 (`ApiError::InvalidToken`) when the header
/// is missing, not a bearer token, or the token is not one this service
/// issued or has expired at `now_secs`.
pub fn logout(authorization: Option<&str>, now_secs: u64) -> (r: Result<String, ApiError>)
    ensures
        match logout_subject(header_text(authorization), now_secs) {
            Some(sub) => r matches Ok(id) && id@ == sub,
            None => r == Err::<String, ApiError>(ApiError::InvalidToken),
        },
{
    let header = match authorization {
        Some(h) => h,
        None => {
            return Err(ApiError::InvalidToken);
        },
    };
    let cs = chars_of(header);
    let prefix = "Bearer ";
    proof {
        reveal_strlit("Bearer ");
        assert(prefix@ =~= seq!['B', 'e', 'a', 'r', 'e', 'r', ' ']);
        assert(cs@.skip(0) =~= cs@);
    }
    if !has_at(&cs, 0, prefix) {
        return Err(ApiError::InvalidToken);
    }
    let token = string_of(&cs, 7, cs.len());
    assert(token@ =~= cs@.skip(7));
    match verify_token(token.as_str(), now_secs) {
        Some(id) => Ok(id),
        None => Err(ApiError::InvalidToken),
    }
}

/// A session token handed out at login lets its holder log out as the same
/// user until it expires: the bearer header of the token issued at `iat`
/// for `user_id` names `user_id` at any time before `iat` +
/// `TOKEN_LIFETIME_SECS`.
pub proof fn lemma_login_token_names_user_at_logout(user_id: Seq<char>, iat: u64, now_secs: u64)
    requires
        iat <= u64::MAX - TOKEN_LIFETIME_SECS,
        now_secs < iat + TOKEN_LIFETIME_SECS,
    ensures
        logout_subject(Some(seq!['B', 'e', 'a', 'r', 'e', 'r', ' '] + jwt_for(user_id, iat)), now_secs)
            == Some(user_id),
{
    let prefix = seq!['B', 'e', 'a', 'r', 'e', 'r', ' '];
    let h = prefix + jwt_for(user_id, iat);
    assert(h.take(7) =~= prefix);
    assert(h.skip(7) =~= jwt_for(user_id, iat));
    lemma_issued_token_names_user(user_id, iat, now_secs);
}

/// A user logs in with the password they registered with: for any row that
/// `register` stores for `user`, a login with the same password, at any
/// later time `now_ms`, issues the user's tokens.
pub proof fn lemma_registered_user_logs_in(
    row: NewUser,
    user: AuthUser,
    salt: Seq<u8>,
    registered_ms: u64,
    registered_on: Option<&str>,
    now_ms: u64,
    machine_name: Option<&str>,
)
    requires
        registered_row(row, user, salt, registered_ms, registered_on),
    ensures
        login_outcome(Some((row.id@, row.password@)), user.password@, now_ms, machine_name) == Ok::<
            (Seq<char>, Seq<char>),
            ApiError,
        >((jwt_for(row.id@, (now_ms / 1000) as u64), id_text(now_ms, machine_name))),
{
}

/// The decision of a logout once the token's user has been looked up: a user
/// that is not (or no longer) stored is 404 (`ApiError::UserNotFound`).
pub fn logout_user(found: bool) -> (r: Result<(), ApiError>)
    ensures
        r is Ok <==> found,
        r matches Err(e) ==> e == ApiError::UserNotFound,
{
    if found {
        Ok(())
    } else {
        Err(ApiError::UserNotFound)
    }
}

/// A registered row's id is the decimal of the identifier made when it was
/// registered, on the configured machine.
pub proof fn lemma_registered_id(row: NewUser, user: AuthUser, salt: Seq<u8>, now_ms: u64, machine_name: Option<&str>)
    requires
        registered_row(row, user, salt, now_ms, machine_name),
    ensures
        row.id@ == decimal(snowflake_of(now_ms, machine_id_of(machine_name_of(machine_name))) as nat),
{
}

} // verus!
