//! Registration, login, token minting, and the authorization gate. A bearer
//! token is accepted only when it decodes under the server secret, its claims
//! are unexpired, and an unexpired session row exists for it; a streaming
//! upgrade additionally demands an accepted membership in the target room.

use vstd::prelude::*;

use crate::errors::ApiError;
use crate::errors::AuthError;
use crate::ext::bcrypt_hash_password;
use crate::ext::bcrypt_matches;
use crate::ext::bcrypt_verify_password;
use crate::ext::email_ok;
use crate::ext::is_valid_email;
use crate::ext::jwt_claims_of;
use crate::ext::jwt_decode;
use crate::ext::jwt_encode;
use crate::ext::jwt_token_of;
use crate::ext::random_uuid;
use crate::ext::uuid_hyphenated;
use crate::ext::uuid_parse;
use crate::ext::uuid_parse_of;
use crate::ext::uuid_str_of;
use crate::models::Claims;
use crate::models::LoginData;
use crate::models::RegisterData;
use crate::password::validate_spec;
use crate::password::PasswordValidator;
use crate::store::accepted_member;
use crate::store::lemma_usernames_unique_pair;
use crate::store::live_session;
use crate::store::username_taken;
use crate::store::SessionRecord;
use crate::store::Store;
use crate::store::UserRecord;

verus! {

/// How long a minted token's claims live, in seconds (one day).
pub const TOKEN_LIFETIME: u64 = 86400;

/// How long a session row lives, in seconds (thirty days).
pub const SESSION_LIFETIME: u64 = 2592000;

/// The registration payload's basic shape: a username of 3 to 20 characters,
/// a well-formed email address, and a password of at least 6 characters.
/// The password policy proper is checked afterwards.
pub open spec fn register_payload_valid(payload: &RegisterData) -> bool {
    &&& 3 <= payload.username@.len() <= 20
    &&& email_ok(payload.email@)
    &&& payload.password@.len() >= 6
}

/// Some user carries this username and the password verifies against that
/// user's stored hash.
pub open spec fn login_credentials_ok(
    users: Seq<UserRecord>,
    username: Seq<char>,
    password: Seq<char>,
) -> bool {
    exists|i: int|
        0 <= i < users.len() && users[i].username@ == username && bcrypt_matches(
            password,
            users[i].password_hash@,
        )
}

/// Some stored session already carries exactly the token that would be
/// minted for the named user at time `now`.
pub open spec fn token_collision(
    sessions: Seq<SessionRecord>,
    users: Seq<UserRecord>,
    username: Seq<char>,
    secret: Seq<u8>,
    now: u64,
) -> bool {
    exists|i: int, j: int|
        0 <= i < sessions.len() && 0 <= j < users.len() && users[j].username@ == username
            && sessions[i].token@ == jwt_token_of(
            uuid_str_of(users[j].id),
            (now + TOKEN_LIFETIME) as u64,
            secret,
        )
}

/// The user identifier a token stands for at time `now`: the decoded subject,
/// provided the claims decode and are unexpired.
pub open spec fn token_user_spec(token: Seq<char>, secret: Seq<u8>, now: u64) -> Option<u128> {
    match jwt_claims_of(token, secret) {
        Some(c) => if c.1 > now {
            uuid_parse_of(c.0)
        } else {
            None
        },
        None => None,
    }
}

/// Token lifetime: when every session row for a token has expired — for one
/// whose `expires_at` lies even one second in the past — no user holds a live
/// session for it, so `authorize_request` refuses the token.
pub proof fn lemma_token_lifetime(rows: Seq<SessionRecord>, token: Seq<char>, now: u64, u: u128)
    requires
        forall|i: int|
            0 <= i < rows.len() && rows[i].token@ == token ==> #[trigger] rows[i].expires_at
                <= now,
    ensures
        !live_session(rows, token, now, u),
{
    if live_session(rows, token, now, u) {
        let k = choose|k: int|
            0 <= k < rows.len() && rows[k].token@ == token && rows[k].expires_at > now
                && rows[k].user_id == u;
        assert(rows[k].expires_at <= now);
    }
}

/// A string with every leading "Bearer " prefix removed.
pub open spec fn spec_strip_bearer(s: Seq<char>) -> Seq<char>
    decreases s.len(),
{
    if s.len() >= 7 && s.subrange(0, 7) == "Bearer "@ {
        spec_strip_bearer(s.subrange(7, s.len() as int))
    } else {
        s
    }
}

/// Strips every leading "Bearer " prefix from a header value.
fn strip_bearer(h: &str) -> (r: String)
    ensures
        r@ == spec_strip_bearer(h@),
{
    let mut s: &str = h;
    while s.unicode_len() >= 7 && s.get_char(0) == 'B' && s.get_char(1) == 'e' && s.get_char(2)
        == 'a' && s.get_char(3) == 'r' && s.get_char(4) == 'e' && s.get_char(5) == 'r'
        && s.get_char(6) == ' '
        invariant
            spec_strip_bearer(s@) == spec_strip_bearer(h@),
        decreases s@.len(),
    {
        proof {
            reveal_strlit("Bearer ");
            assert(s@.subrange(0, 7) =~= "Bearer "@);
        }
        let n = s.unicode_len();
        s = s.substring_char(7, n);
    }
    proof {
        reveal_strlit("Bearer ");
        if s@.len() >= 7 && s@.subrange(0, 7) == "Bearer "@ {
            assert(s@[0] == s@.subrange(0, 7)[0]);
            assert(s@[1] == s@.subrange(0, 7)[1]);
            assert(s@[2] == s@.subrange(0, 7)[2]);
            assert(s@[3] == s@.subrange(0, 7)[3]);
            assert(s@[4] == s@.subrange(0, 7)[4]);
            assert(s@[5] == s@.subrange(0, 7)[5]);
            assert(s@[6] == s@.subrange(0, 7)[6]);
            assert(false);
        }
    }
    String::from_str(s)
}

/// Picks the bearer token a request carries: a `token` query parameter wins;
/// otherwise the Authorization header value is taken with its "Bearer "
/// prefixes stripped; with neither there is no token.
pub fn extract_token(query_token: Option<String>, auth_header: Option<String>) -> (r: Option<
    String,
>)
    ensures
        query_token matches Some(t) ==> r == Some(t),
        query_token is None ==> (auth_header matches Some(h) ==> (r matches Some(t) && t@
            == spec_strip_bearer(h@))),
        query_token is None && auth_header is None ==> r is None,
{
    match query_token {
        Some(t) => Some(t),
        None => match auth_header {
            Some(h) => Some(strip_bearer(h.as_str())),
            None => None,
        },
    }
}

/// Registers a user: validates the payload shape, refuses a taken username,
/// enforces the password policy, hashes the password, and inserts the row.
/// On any failure the store is untouched.
pub fn register_user(store: &mut Store, payload: &RegisterData) -> (r: Result<(), ApiError>)
    requires
        old(store).wf(),
    ensures
        final(store).wf(),
        !register_payload_valid(payload) ==> r == Err::<(), ApiError>(ApiError::Validation),
        register_payload_valid(payload) && username_taken(old(store).users@, payload.username@)
            ==> r == Err::<(), ApiError>(ApiError::Conflict),
        register_payload_valid(payload) && !username_taken(old(store).users@, payload.username@)
            && !(validate_spec(8, payload.password@) is Ok) ==> r == Err::<(), ApiError>(
            ApiError::Validation,
        ),
        register_payload_valid(payload) && !username_taken(old(store).users@, payload.username@)
            && validate_spec(8, payload.password@) is Ok ==> (r is Ok || r == Err::<(), ApiError>(
            ApiError::Internal,
        )),
        r is Err ==> final(store).users@ == old(store).users@,
        r is Ok ==> final(store).users@.len() == old(store).users@.len() + 1 && final(store).users@.drop_last() == old(store).users@ && final(store).users@.last().username@
            == payload.username@ && final(store).users@.last().email@ == payload.email@
            && bcrypt_matches(payload.password@, final(store).users@.last().password_hash@),
        final(store).chats@ == old(store).chats@,
        final(store).chat_members@ == old(store).chat_members@,
        final(store).messages@ == old(store).messages@,
        final(store).invites@ == old(store).invites@,
        final(store).sessions@ == old(store).sessions@,
    {
        let ulen = payload.username.as_str().unicode_len();
        if ulen < 3 || ulen > 20 {
            return Err(ApiError::Validation);
        }
        if !is_valid_email(payload.email.as_str()) {
            return Err(ApiError::Validation);
        }
        let plen = payload.password.as_str().unicode_len();
        if plen < 6 {
            return Err(ApiError::Validation);
        }
        if store.check_username_exists(&payload.username) {
            return Err(ApiError::Conflict);
        }
        if !PasswordValidator::validate(payload.password.as_str()) {
            return Err(ApiError::Validation);
        }
        let hashed = match bcrypt_hash_password(payload.password.as_str()) {
            Some(h) => h,
            None => {
                return Err(ApiError::Internal);
            },
        };
        let id = random_uuid();
        store.create_user(id, payload.username.clone(), payload.email.clone(), hashed);
        Ok(())
    }

/// Mints a bearer token for a user: the hyphenated identifier as subject,
/// expiring one day after `now`. A minted token decodes back to its user at
/// any time before that expiry.
pub fn create_jwt(user_id: u128, secret: &[u8], now: u64) -> (r: Option<String>)
    requires
        now + TOKEN_LIFETIME <= u64::MAX,
    ensures
        r is Some,
        r matches Some(t) ==> t@ == jwt_token_of(
            uuid_str_of(user_id),
            (now + TOKEN_LIFETIME) as u64,
            secret@,
        ),
        r matches Some(t) ==> forall|at: u64|
            at < now + TOKEN_LIFETIME ==> token_user_spec(t@, secret@, at) == Some(user_id),
{
    let claims = Claims { sub: uuid_hyphenated(user_id), exp: now + TOKEN_LIFETIME };
    let token = jwt_encode(&claims.sub, claims.exp, secret);
    proof {
        if token is Some {
            let t = token->0;
            assert forall|at: u64|
                at < now + TOKEN_LIFETIME implies token_user_spec(t@, secret@, at) == Some(
                user_id,
            ) by {
                assert(jwt_claims_of(t@, secret@) == Some(
                    (uuid_str_of(user_id), (now + TOKEN_LIFETIME) as u64),
                ));
                assert(uuid_parse_of(uuid_str_of(user_id)) == Some(user_id));
            }
        }
    }
    token
}

/// Decodes a bearer token and returns the user it stands for at time `now`,
/// refusing expired claims and unparsable subjects.
pub fn validate_token(token: &str, secret: &[u8], now: u64) -> (r: Option<u128>)
    ensures
        r == token_user_spec(token@, secret@, now),
{
    match jwt_decode(token, secret) {
        Some(c) => {
            if c.1 > now {
                uuid_parse(c.0.as_str())
            } else {
                None
            }
        },
        None => None,
    }
}

/// Logs a user in: verifies the password against the stored hash, mints a
/// token, and records a session that expires thirty days after `now`. Bad
/// credentials are refused as Unauthorized; on any failure the store is
/// untouched.
pub fn login_user(store: &mut Store, payload: &LoginData, secret: &[u8], now: u64) -> (r: Result<
    String,
    ApiError,
>)
    requires
        old(store).wf(),
        now + SESSION_LIFETIME <= u64::MAX,
    ensures
        final(store).wf(),
        !login_credentials_ok(old(store).users@, payload.username@, payload.password@) ==> r
            == Err::<String, ApiError>(ApiError::Unauthorized),
        login_credentials_ok(old(store).users@, payload.username@, payload.password@) ==> (r is Ok
            || r == Err::<String, ApiError>(ApiError::Internal)),
        login_credentials_ok(old(store).users@, payload.username@, payload.password@)
            && !token_collision(
            old(store).sessions@,
            old(store).users@,
            payload.username@,
            secret@,
            now,
        ) ==> r is Ok,
        r is Err ==> final(store).sessions@ == old(store).sessions@,
        r matches Ok(t) ==> exists|i: int|
            0 <= i < old(store).users@.len() && old(store).users@[i].username@ == payload.username@
                && bcrypt_matches(payload.password@, old(store).users@[i].password_hash@) && t@
                == jwt_token_of(
                uuid_str_of(old(store).users@[i].id),
                (now + TOKEN_LIFETIME) as u64,
                secret@,
            ) && (forall|at: u64|
                at < now + TOKEN_LIFETIME ==> token_user_spec(t@, secret@, at) == Some(
                    old(store).users@[i].id,
                )) && final(store).sessions@ == old(store).sessions@.push(
                SessionRecord {
                    user_id: old(store).users@[i].id,
                    token: t,
                    expires_at: (now + SESSION_LIFETIME) as u64,
                },
            ),
        final(store).users@ == old(store).users@,
        final(store).chats@ == old(store).chats@,
        final(store).chat_members@ == old(store).chat_members@,
        final(store).messages@ == old(store).messages@,
        final(store).invites@ == old(store).invites@,
{
    let creds = store.get_user_credentials(&payload.username);
    let (user_id, stored_hash) = match creds {
        Some(c) => c,
        None => {
            proof {
                if login_credentials_ok(store.users@, payload.username@, payload.password@) {
                    let i = choose|i: int|
                        0 <= i < store.users@.len() && store.users@[i].username@
                            == payload.username@ && bcrypt_matches(
                            payload.password@,
                            store.users@[i].password_hash@,
                        );
                    assert(username_taken(store.users@, payload.username@));
                }
            }
            return Err(ApiError::Unauthorized);
        },
    };
    if !bcrypt_verify_password(payload.password.as_str(), stored_hash.as_str()) {
        proof {
            let j = choose|j: int|
                0 <= j < store.users@.len() && store.users@[j].username@ == payload.username@
                    && store.users@[j].id == user_id && store.users@[j].password_hash@
                    == stored_hash@;
            if login_credentials_ok(store.users@, payload.username@, payload.password@) {
                let i = choose|i: int|
                    0 <= i < store.users@.len() && store.users@[i].username@ == payload.username@
                        && bcrypt_matches(payload.password@, store.users@[i].password_hash@);
                if i < j {
                    lemma_usernames_unique_pair(store.users@, i, j);
                } else if j < i {
                    lemma_usernames_unique_pair(store.users@, j, i);
                }
            }
        }
        return Err(ApiError::Unauthorized);
    }
    let token = match create_jwt(user_id, secret, now) {
        Some(t) => t,
        None => {
            return Err(ApiError::Internal);
        },
    };
    let expires_at = now + SESSION_LIFETIME;
    let ghost users_before = store.users@;
    match store.create_session(user_id, token.clone(), expires_at) {
        Ok(_) => {
            proof {
                let j = choose|j: int|
                    0 <= j < users_before.len() && users_before[j].username@ == payload.username@
                        && users_before[j].id == user_id && users_before[j].password_hash@
                        == stored_hash@;
                assert(bcrypt_matches(payload.password@, users_before[j].password_hash@));
            }
            Ok(token)
        },
        Err(_) => {
            proof {
                let j = choose|j: int|
                    0 <= j < users_before.len() && users_before[j].username@ == payload.username@
                        && users_before[j].id == user_id && users_before[j].password_hash@
                        == stored_hash@;
                let i = choose|i: int|
                    0 <= i < old(store).sessions@.len() && old(store).sessions@[i].token@
                        == token@;
                assert(token_collision(
                    old(store).sessions@,
                    old(store).users@,
                    payload.username@,
                    secret@,
                    now,
                ));
            }
            Err(ApiError::Internal)
        },
    }
}

/// Resolves a bearer token to a user for an authenticated request: the token
/// must decode to live claims and an unexpired session row must exist for it.
pub fn authorize_request(store: &Store, token: &String, secret: &[u8], now: u64) -> (r: Result<
    u128,
    AuthError,
>)
    requires
        store.wf(),
    ensures
        r matches Ok(u) ==> token_user_spec(token@, secret@, now) is Some && live_session(
            store.sessions@,
            token@,
            now,
            u,
        ),
        r == Err::<u128, AuthError>(AuthError::InvalidToken) <==> token_user_spec(
            token@,
            secret@,
            now,
        ) is None,
        r == Err::<u128, AuthError>(AuthError::SessionExpired) <==> (token_user_spec(
            token@,
            secret@,
            now,
        ) is Some && (forall|u: u128| !live_session(store.sessions@, token@, now, u))),
        r matches Err(e) ==> e == AuthError::InvalidToken || e == AuthError::SessionExpired,
{
    match validate_token(token.as_str(), secret, now) {
        None => Err(AuthError::InvalidToken),
        Some(_) => {
            match store.verify_session_token(token, now) {
                Some(u) => Ok(u),
                None => Err(AuthError::SessionExpired),
            }
        },
    }
}

/// Authorizes a streaming upgrade: `authorize_request`, then the membership
/// gate — an authenticated user without an accepted membership row in the
/// room is refused with AccessDenied.
pub fn authorize_stream(
    store: &Store,
    token: &String,
    secret: &[u8],
    chat_id: u128,
    now: u64,
) -> (r: Result<u128, AuthError>)
    requires
        store.wf(),
    ensures
        r matches Ok(u) ==> token_user_spec(token@, secret@, now) is Some && live_session(
            store.sessions@,
            token@,
            now,
            u,
        ) && accepted_member(store.chat_members@, chat_id, u),
        r == Err::<u128, AuthError>(AuthError::InvalidToken) <==> token_user_spec(
            token@,
            secret@,
            now,
        ) is None,
        r == Err::<u128, AuthError>(AuthError::SessionExpired) <==> (token_user_spec(
            token@,
            secret@,
            now,
        ) is Some && (forall|u: u128| !live_session(store.sessions@, token@, now, u))),
        r == Err::<u128, AuthError>(AuthError::AccessDenied) <==> (token_user_spec(
            token@,
            secret@,
            now,
        ) is Some && (exists|u: u128|
            live_session(store.sessions@, token@, now, u) && !accepted_member(
                store.chat_members@,
                chat_id,
                u,
            ))),
        r matches Err(e) ==> e == AuthError::InvalidToken || e == AuthError::SessionExpired || e
            == AuthError::AccessDenied,
{
    let user_id = match authorize_request(store, token, secret, now) {
        Ok(u) => u,
        Err(e) => {
            return Err(e);
        },
    };
    if store.is_member(chat_id, user_id) {
        Ok(user_id)
    } else {
        Err(AuthError::AccessDenied)
    }
}

} // verus!
