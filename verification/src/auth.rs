use vstd::prelude::*;

use crate::config::{oauth_configured, Config};
use crate::error::{is_bad_request, AppError, AppResult};
use crate::membership::{spec_is_global_admin, ROLE_ADMIN, ROLE_PROPONENT, ROLE_REGULAR};
use crate::models::User;
use crate::text::{chars_of, concat, contains_char, owned, str_eq, string_from_chars, trim, trim_spec};

verus! {

// ----------------------------------------------------------------------------
// Roles and profile
// ----------------------------------------------------------------------------

pub fn is_admin(user: &User) -> (r: bool)
    ensures
        r == spec_is_global_admin(user.role@),
{
    str_eq(user.role.as_str(), ROLE_ADMIN)
}

/// Residents must register their address before taking part.
pub fn ensure_profile(user: &User) -> (r: AppResult<()>)
    ensures
        r is Ok <==> user.profile_complete,
        r is Err ==> r matches Err(AppError::Forbidden),
{
    if user.profile_complete {
        Ok(())
    } else {
        Err(AppError::Forbidden)
    }
}

/// Only platform admins pass.
pub fn ensure_admin(user: &User) -> (r: AppResult<()>)
    ensures
        r is Ok <==> spec_is_global_admin(user.role@),
        r is Err ==> r matches Err(AppError::Forbidden),
{
    if is_admin(user) {
        Ok(())
    } else {
        Err(AppError::Forbidden)
    }
}

/// The roles a platform may give newly registered users.
pub open spec fn spec_valid_default_role(r: Seq<char>) -> bool {
    r == ROLE_REGULAR@ || r == ROLE_PROPONENT@
}

pub fn is_valid_default_role(r: &str) -> (b: bool)
    ensures
        b == spec_valid_default_role(r@),
{
    str_eq(r, ROLE_REGULAR) || str_eq(r, ROLE_PROPONENT)
}

/// The role of new users: the stored platform setting when it is a valid
/// default role, `proponent` otherwise.
pub fn effective_default_role(stored: Option<String>) -> (r: String)
    ensures
        match stored {
            Some(s) => if spec_valid_default_role(s@) { r@ == s@ } else { r@ == ROLE_PROPONENT@ },
            None => r@ == ROLE_PROPONENT@,
        },
{
    match stored {
        Some(s) => if is_valid_default_role(s.as_str()) { s } else { owned(ROLE_PROPONENT) },
        None => owned(ROLE_PROPONENT),
    }
}

/// Checks a new platform default role (trimmed): only admins, and only a valid
/// default role.
pub fn validate_default_role(actor: &User, raw: &str) -> (r: AppResult<String>)
    ensures
        !spec_is_global_admin(actor.role@) ==> r matches Err(AppError::Forbidden),
        spec_is_global_admin(actor.role@) && !spec_valid_default_role(trim_spec(raw@)) ==> is_bad_request(
            r,
            "default_user_role must be regular or proponent"@,
        ),
        spec_is_global_admin(actor.role@) && spec_valid_default_role(trim_spec(raw@)) ==> (r matches Ok(x)
            && x@ == trim_spec(raw@)),
{
    if !is_admin(actor) {
        return Err(AppError::Forbidden);
    }
    let role = trim(raw);
    if !is_valid_default_role(role) {
        return Err(AppError::BadRequest(owned("default_user_role must be regular or proponent")));
    }
    Ok(owned(role))
}

// ----------------------------------------------------------------------------
// Sessions
// ----------------------------------------------------------------------------

/// The content of a session token.
pub struct Claims {
    pub sub: String,
    pub exp: i64,
    pub impersonator_id: Option<String>,
}

/// How long a session lasts, in seconds (seven days).
pub const SESSION_SECONDS: i64 = 604800;

/// The claims of a session for `user_id` opened at `now` (Unix seconds): it
/// expires seven days later and records who impersonates, if anyone.
pub fn session_claims(user_id: &str, impersonator_id: Option<&str>, now: i64) -> (c: Claims)
    requires
        now <= i64::MAX - SESSION_SECONDS,
    ensures
        c.sub@ == user_id@,
        c.exp == now + SESSION_SECONDS,
        match impersonator_id {
            Some(i) => c.impersonator_id matches Some(x) && x@ == i@,
            None => c.impersonator_id is None,
        },
{
    Claims {
        sub: owned(user_id),
        exp: now + SESSION_SECONDS,
        impersonator_id: match impersonator_id {
            Some(i) => Some(owned(i)),
            None => None,
        },
    }
}

/// `h` begins with `prefix`.
pub open spec fn starts_with(h: Seq<char>, prefix: Seq<char>) -> bool {
    prefix.len() <= h.len() && h.take(prefix.len() as int) == prefix
}

/// What follows `prefix` in `h`, when `h` begins with it.
pub open spec fn strip_prefix_spec(h: Seq<char>, prefix: Seq<char>) -> Option<Seq<char>> {
    if starts_with(h, prefix) { Some(h.skip(prefix.len() as int)) } else { None }
}

/// Index of the first `;` in `s`, or its length when there is none.
pub open spec fn first_semicolon(s: Seq<char>) -> nat
    decreases s.len(),
{
    if s.len() == 0 {
        0
    } else if s[0] == ';' {
        0
    } else {
        1 + first_semicolon(s.drop_first())
    }
}

/// The value of the first `;`-separated cookie of `s` that, trimmed, reads
/// `token=<value>`.
pub open spec fn cookie_token(s: Seq<char>) -> Option<Seq<char>>
    decreases s.len(),
{
    let i = first_semicolon(s);
    let seg = trim_spec(s.take(i as int));
    if starts_with(seg, "token="@) {
        Some(seg.skip("token="@.len() as int))
    } else if i >= s.len() {
        None
    } else {
        cookie_token(s.skip(i + 1int))
    }
}

/// The session token of a request: from an `Authorization: Bearer <token>`
/// header, else from a `token` cookie.
pub open spec fn request_token(authorization: Option<Seq<char>>, cookie: Option<Seq<char>>) -> Option<Seq<char>> {
    let bearer = match authorization {
        Some(a) => strip_prefix_spec(a, "Bearer "@),
        None => None,
    };
    match bearer {
        Some(t) => Some(t),
        None => match cookie {
            Some(c) => cookie_token(c),
            None => None,
        },
    }
}

/// What follows `prefix` in `s`, when `s` begins with it.
pub fn strip_prefix(s: &str, prefix: &str) -> (r: Option<String>)
    ensures
        match strip_prefix_spec(s@, prefix@) {
            Some(t) => r matches Some(x) && x@ == t,
            None => r is None,
        },
{
    let v = chars_of(s);
    let p = chars_of(prefix);
    if p.len() > v.len() {
        return None;
    }
    let mut i: usize = 0;
    while i < p.len()
        invariant
            v@ == s@,
            p@ == prefix@,
            p@.len() <= v@.len(),
            i <= p@.len(),
            forall|k: int| 0 <= k < i ==> v@[k] == p@[k],
        decreases p@.len() - i,
    {
        if v[i] != p[i] {
            proof {
                assert(v@.take(p@.len() as int)[i as int] != p@[i as int]);
            }
            return None;
        }
        i += 1;
    }
    proof {
        assert(v@.take(p@.len() as int) =~= p@);
    }
    let rest = string_from_chars(&v, p.len(), v.len());
    proof {
        assert(v@.subrange(p@.len() as int, v@.len() as int) =~= v@.skip(p@.len() as int));
    }
    Some(rest)
}

proof fn lemma_first_semicolon(s: Seq<char>, k: int)
    requires
        0 <= k <= s.len(),
        forall|t: int| 0 <= t < k ==> s[t] != ';',
        k == s.len() || s[k] == ';',
    ensures
        first_semicolon(s) == k,
    decreases k,
{
    if k > 0 {
        lemma_first_semicolon(s.drop_first(), k - 1);
    }
}

/// The `token` cookie of a `Cookie` header.
pub fn token_from_cookie(cookie: &str) -> (r: Option<String>)
    ensures
        match cookie_token(cookie@) {
            Some(t) => r matches Some(x) && x@ == t,
            None => r is None,
        },
{
    let v = chars_of(cookie);
    let mut start: usize = 0;
    proof {
        assert(v@.skip(0) =~= v@);
    }
    while start <= v.len()
        invariant
            v@ == cookie@,
            start <= v@.len(),
            cookie_token(v@) == cookie_token(v@.skip(start as int)),
        decreases v@.len() - start,
    {
        let mut j: usize = start;
        while j < v.len() && v[j] != ';'
            invariant
                start <= j <= v@.len(),
                forall|t: int| start <= t < j ==> v@[t] != ';',
            decreases v@.len() - j,
        {
            j += 1;
        }
        let ghost rest = v@.skip(start as int);
        proof {
            lemma_first_semicolon(rest, (j - start) as int);
            assert(rest.take((j - start) as int) =~= v@.subrange(start as int, j as int));
        }
        let seg = string_from_chars(&v, start, j);
        let trimmed = trim(seg.as_str());
        match strip_prefix(trimmed, "token=") {
            Some(t) => {
                return Some(t);
            },
            None => {},
        }
        if j >= v.len() {
            return None;
        }
        proof {
            assert(rest.skip((j - start) + 1) =~= v@.skip(j + 1));
        }
        start = j + 1;
    }
    None
}

/// The session token of a request, from `Authorization: Bearer <token>` or else
/// from the `token` cookie.
pub fn token_from_headers(authorization: Option<&str>, cookie: Option<&str>) -> (r: Option<String>)
    ensures
        match request_token(
            match authorization { Some(a) => Some(a@), None => None },
            match cookie { Some(c) => Some(c@), None => None },
        ) {
            Some(t) => r matches Some(x) && x@ == t,
            None => r is None,
        },
{
    let bearer = match authorization {
        Some(a) => strip_prefix(a, "Bearer "),
        None => None,
    };
    match bearer {
        Some(t) => Some(t),
        None => match cookie {
            Some(c) => token_from_cookie(c),
            None => None,
        },
    }
}

// ----------------------------------------------------------------------------
// Sign-in and impersonation
// ----------------------------------------------------------------------------

/// Path of `GET /auth/google/callback`.
pub struct CallbackQuery {
    pub code: Option<String>,
    pub error: Option<String>,
}

/// Query of `GET /auth/impersonate`.
pub struct ImpersonateQuery {
    pub priora_as: String,
}

/// A user reference with an `@` is an email address; otherwise a user id.
pub fn is_email_reference(reference: &str) -> (r: bool)
    ensures
        r == reference@.contains('@'),
{
    contains_char(reference, '@')
}

/// The Google subject under which development logins are stored: `dev:{email}`.
pub fn dev_google_sub(email: &str) -> (r: String)
    ensures
        r@ == "dev:"@ + email@,
{
    concat("dev:", email)
}

/// Development logins exist only when enabled.
pub fn check_dev_login(config: &Config) -> (r: AppResult<()>)
    ensures
        r is Ok <==> config.dev_auth,
        r is Err ==> r matches Err(AppError::Forbidden),
{
    if config.dev_auth { Ok(()) } else { Err(AppError::Forbidden) }
}

/// Who may impersonate: a signed-in platform admin, recorded as impersonator;
/// with development impersonation on, anyone, recorded as nobody.
pub fn impersonation_source(session_user: Option<&User>, dev_impersonation: bool) -> (r: AppResult<Option<String>>)
    ensures
        match session_user {
            Some(u) => if spec_is_global_admin(u.role@) {
                r matches Ok(Some(i)) && i@ == u.id@
            } else if dev_impersonation {
                r matches Ok(None)
            } else {
                r matches Err(AppError::Forbidden)
            },
            None => if dev_impersonation { r matches Ok(None) } else { r matches Err(AppError::Forbidden) },
        },
{
    match session_user {
        Some(u) => if is_admin(u) {
            return Ok(Some(u.id.clone()));
        },
        None => {},
    }
    if dev_impersonation {
        Ok(None)
    } else {
        Err(AppError::Forbidden)
    }
}

/// Ending an impersonation returns to the impersonating admin.
pub fn stop_impersonation(impersonator_id: Option<String>) -> (r: AppResult<String>)
    ensures
        match impersonator_id {
            Some(i) => r == Ok::<String, AppError>(i),
            None => is_bad_request(r, "not impersonating"@),
        },
{
    match impersonator_id {
        Some(i) => Ok(i),
        None => Err(AppError::BadRequest(owned("not impersonating"))),
    }
}

/// The Google sign-in result: refused by the user, or the authorization code.
pub fn oauth_code(query: CallbackQuery) -> (r: AppResult<String>)
    ensures
        query.error is Some ==> is_bad_request(r, "OAuth denied"@),
        query.error is None && query.code is None ==> is_bad_request(r, "missing code"@),
        query.error is None && query.code is Some ==> r == Ok::<String, AppError>(query.code->0),
{
    if query.error.is_some() {
        return Err(AppError::BadRequest(owned("OAuth denied")));
    }
    match query.code {
        Some(c) => Ok(c),
        None => Err(AppError::BadRequest(owned("missing code"))),
    }
}

/// A Google identity: its subject (required), email (default
/// `unknown@google.com`) and name (default `Usuario`).
pub fn oauth_identity(sub: Option<&str>, email: Option<&str>, name: Option<&str>) -> (r: AppResult<(String, String, String)>)
    ensures
        sub is None ==> (r matches Err(AppError::Internal(m)) && m@ == "missing sub"@),
        sub matches Some(s) ==> (r matches Ok((a, b, c)) && a@ == s@
            && b@ == (match email { Some(e) => e@, None => "unknown@google.com"@ })
            && c@ == (match name { Some(n) => n@, None => "Usuario"@ })),
{
    let s = match sub {
        Some(s) => s,
        None => return Err(AppError::Internal(owned("missing sub"))),
    };
    let e = match email {
        Some(e) => owned(e),
        None => owned("unknown@google.com"),
    };
    let n = match name {
        Some(n) => owned(n),
        None => owned("Usuario"),
    };
    Ok((owned(s), e, n))
}

/// Where the browser goes after Google sign-in: `{frontend}/auth/callback?token={jwt}`.
pub fn callback_redirect(frontend_url: &str, jwt: &str) -> (r: String)
    ensures
        r@ == frontend_url@ + "/auth/callback?token="@ + jwt@,
{
    let mut r = concat(frontend_url, "/auth/callback?token=");
    r.append(jwt);
    r
}

/// Google sign-in can start only when it is configured.
pub fn check_google_login(config: &Config) -> (r: AppResult<()>)
    ensures
        r is Ok <==> oauth_configured(*config),
        r is Err ==> is_bad_request(r, "Google OAuth not configured. Use dev login."@),
{
    if !config.google_oauth_enabled() {
        return Err(AppError::BadRequest(owned("Google OAuth not configured. Use dev login.")));
    }
    Ok(())
}

/// The Google client id, secret and redirect URI, all of which must be set.
pub fn google_client_settings(config: &Config) -> (r: AppResult<(String, String, String)>)
    ensures
        oauth_configured(*config) ==> r == Ok::<(String, String, String), AppError>(
            (config.google_client_id->0, config.google_client_secret->0, config.google_redirect_uri->0),
        ),
        !oauth_configured(*config) ==> is_bad_request(r, "Google OAuth not configured"@),
{
    match (&config.google_client_id, &config.google_client_secret, &config.google_redirect_uri) {
        (Some(i), Some(s), Some(u)) => Ok((i.clone(), s.clone(), u.clone())),
        _ => Err(AppError::BadRequest(owned("Google OAuth not configured"))),
    }
}

/// New users may be given regular or proponent as their default role, never
/// admin; when the stored setting is not one of these, new users are proponents.
pub proof fn lemma_default_role_rule(r: Seq<char>)
    ensures
        spec_valid_default_role(r) <==> (r == "regular"@ || r == "proponent"@),
        !spec_valid_default_role("admin"@),
{
    reveal_strlit("admin");
    reveal_strlit("regular");
    reveal_strlit("proponent");
    assert("admin"@.len() != "regular"@.len());
    assert("admin"@.len() != "proponent"@.len());
}

} // verus!
