//! Access, refresh and password-reset tokens, signed with HS256 by `jsonwebtoken`.
//!
//! The library builds the claims of each token as a JSON object and reads them back
//! from the object that a decoded token holds. What a token carries is named by
//! `token_claims`: the claims of the JSON object in its payload.
use vstd::prelude::*;

use crate::auth::json::{
    int_claim, json_get_int, json_get_text, json_get_text_list, json_object, json_put_int,
    json_put_text, json_put_text_list, json_claims, some_texts, text_claim, text_list_claim,
    ClaimValue, JsonObject,
};
use crate::auth::user::{new_uuid, User};
use crate::clock::{now, whole_seconds_of, MAX_SECONDS, MIN_SECONDS};
use crate::text::{
    copy_strings, has_prefix, owned, str_eq, str_starts_with,
    str_trim_start_pattern, strs, trim_start_pattern,
};
use vstd::string::StringExecFns;

verus! {

/// Lifetime of an access token, in hours.
pub const ACCESS_TOKEN_EXPIRY_HOURS: i64 = 1;

/// Lifetime of a refresh token, in days.
pub const REFRESH_TOKEN_EXPIRY_DAYS: i64 = 30;

/// The longest lifetime of any token, in seconds (a remembered refresh token).
pub const LONGEST_TOKEN_LIFETIME: i64 = 5_184_000;

/// The claims that the payload of `token` holds.
pub uninterp spec fn token_claims(token: Seq<char>) -> Map<Seq<char>, ClaimValue>;

/// The key that signs and checks every token.
pub open spec fn jwt_secret() -> Seq<char> {
    "your-super-secret-jwt-key-change-this-in-production"@
}

/// The issuer written into every token.
pub open spec fn token_issuer() -> Seq<char> {
    "ecom-auth-service"@
}

/// The audience written into access and refresh tokens.
pub open spec fn token_audience() -> Seq<char> {
    "ecom-api"@
}

/// The message of a token whose claims are missing or of the wrong kind.
pub open spec fn malformed_claims() -> Seq<char> {
    "malformed token claims"@
}

/// `token` carries a valid HS256 signature, made with the key `secret`, over its
/// header and payload.
pub uninterp spec fn hs256_signed(token: Seq<char>, secret: Seq<char>) -> bool;

/// Signs a JSON object of claims into a token with the HS256 key made from `secret`.
///
/// Calls `jsonwebtoken::EncodingKey::from_secret` on the secret's bytes and
/// `jsonwebtoken::encode` with the default (HS256) header. The contract states what
/// the source shows: signing with a key made from a secret cannot fail for claims
/// that serialise to a JSON object; the payload is that object, so the claims the
/// token holds are those of `claims`; and the signature is made with `secret`.
#[verifier::external_body]
fn jwt_encode(claims: &JsonObject, secret: &str) -> (r: Result<String, String>)
    ensures
        r is Ok,
        r matches Ok(t) ==> token_claims(t@) == json_claims(*claims),
        r matches Ok(t) ==> hs256_signed(t@, secret@),
{
    let key = jsonwebtoken::EncodingKey::from_secret(secret.as_bytes());
    jsonwebtoken::encode(&jsonwebtoken::Header::default(), claims, &key).map_err(|e| e.to_string())
}

/// Checks a token against the HS256 key made from `secret`, one accepted issuer and
/// one accepted audience, and reads its claims object.
///
/// Calls `jsonwebtoken::DecodingKey::from_secret`, `jsonwebtoken::Validation::new`
/// for HS256 with `set_audience` and `set_issuer`, and `jsonwebtoken::decode` into a
/// JSON object. Whether it succeeds depends on the clock (the `exp` claim is checked
/// against the current time), so success is not stated. The contract states what
/// the source shows of every success: the object read is the payload's; the
/// signature was made with `secret`; the `exp` claim is there and is a number; and
/// an `iss` or `aud` claim that is a string is the accepted one. When it fails, the
/// error's text comes back.
#[verifier::external_body]
fn jwt_decode(token: &str, secret: &str, issuer: &str, audience: &str) -> (r: Result<JsonObject, String>)
    ensures
        r matches Ok(m) ==> {
            &&& json_claims(m) == token_claims(token@)
            &&& hs256_signed(token@, secret@)
            &&& json_claims(m).contains_key("exp"@)
            &&& !(json_claims(m)["exp"@] is Text)
            &&& !(json_claims(m)["exp"@] is List)
            &&& text_claim(json_claims(m), "iss"@) matches Some(i) ==> i == issuer@
            &&& text_claim(json_claims(m), "aud"@) matches Some(a) ==> a == audience@
        },
{
    let mut validation = jsonwebtoken::Validation::new(jsonwebtoken::Algorithm::HS256);
    validation.set_audience(&[audience]);
    validation.set_issuer(&[issuer]);
    let key = jsonwebtoken::DecodingKey::from_secret(secret.as_bytes());
    match jsonwebtoken::decode::<JsonObject>(token, &key, &validation) {
        Ok(data) => Ok(data.claims),
        Err(e) => Err(e.to_string()),
    }
}

/// `prefix` followed by `rest`.
fn joined(prefix: &str, rest: &str) -> (r: String)
    ensures
        r@ == prefix@ + rest@,
        has_prefix(r@, prefix@),
{
    let mut s = owned(prefix);
    s.append(rest);
    assert(s@.take(prefix@.len() as int) =~= prefix@);
    s
}

/// The claims of an access token.
pub struct AccessTokenClaims {
    /// The user's id.
    pub sub: String,
    pub username: String,
    pub email: String,
    pub roles: Vec<String>,
    pub session_id: String,
    /// Expiry, in seconds since the epoch.
    pub exp: i64,
    /// Issue time, in seconds since the epoch.
    pub iat: i64,
    pub iss: String,
    pub aud: String,
    /// `access`.
    pub token_type: String,
}

/// The claims of a refresh token.
pub struct RefreshTokenClaims {
    /// The user's id.
    pub sub: String,
    pub session_id: String,
    /// Expiry, in seconds since the epoch.
    pub exp: i64,
    /// Issue time, in seconds since the epoch.
    pub iat: i64,
    pub iss: String,
    pub aud: String,
    /// `refresh`.
    pub token_type: String,
}

/// A fresh pair of tokens for one session.
#[derive(Clone)]
pub struct TokenPair {
    pub access_token: String,
    pub refresh_token: String,
    /// Lifetime of the access token, in seconds.
    pub expires_in: i64,
    pub session_id: String,
}

/// The claims of an access token, as values.
pub struct AccessClaimsView {
    pub sub: Seq<char>,
    pub username: Seq<char>,
    pub email: Seq<char>,
    pub roles: Seq<Seq<char>>,
    pub session_id: Seq<char>,
    pub exp: i64,
    pub iat: i64,
    pub iss: Seq<char>,
    pub aud: Seq<char>,
    pub token_type: Seq<char>,
}

/// The claims of a refresh token, as values.
pub struct RefreshClaimsView {
    pub sub: Seq<char>,
    pub session_id: Seq<char>,
    pub exp: i64,
    pub iat: i64,
    pub iss: Seq<char>,
    pub aud: Seq<char>,
    pub token_type: Seq<char>,
}

impl View for AccessTokenClaims {
    type V = AccessClaimsView;

    open spec fn view(&self) -> AccessClaimsView {
        AccessClaimsView {
            sub: self.sub@,
            username: self.username@,
            email: self.email@,
            roles: strs(self.roles@),
            session_id: self.session_id@,
            exp: self.exp,
            iat: self.iat,
            iss: self.iss@,
            aud: self.aud@,
            token_type: self.token_type@,
        }
    }
}

impl View for RefreshTokenClaims {
    type V = RefreshClaimsView;

    open spec fn view(&self) -> RefreshClaimsView {
        RefreshClaimsView {
            sub: self.sub@,
            session_id: self.session_id@,
            exp: self.exp,
            iat: self.iat,
            iss: self.iss@,
            aud: self.aud@,
            token_type: self.token_type@,
        }
    }
}

/// The JSON claims of an access token.
pub open spec fn access_claims_map(v: AccessClaimsView) -> Map<Seq<char>, ClaimValue> {
    Map::<Seq<char>, ClaimValue>::empty()
        .insert("sub"@, ClaimValue::Text(v.sub))
        .insert("username"@, ClaimValue::Text(v.username))
        .insert("email"@, ClaimValue::Text(v.email))
        .insert("roles"@, ClaimValue::List(some_texts(v.roles)))
        .insert("session_id"@, ClaimValue::Text(v.session_id))
        .insert("exp"@, ClaimValue::Integer(v.exp))
        .insert("iat"@, ClaimValue::Integer(v.iat))
        .insert("iss"@, ClaimValue::Text(v.iss))
        .insert("aud"@, ClaimValue::Text(v.aud))
        .insert("token_type"@, ClaimValue::Text(v.token_type))
}

/// The JSON claims of a refresh token.
pub open spec fn refresh_claims_map(v: RefreshClaimsView) -> Map<Seq<char>, ClaimValue> {
    Map::<Seq<char>, ClaimValue>::empty()
        .insert("sub"@, ClaimValue::Text(v.sub))
        .insert("session_id"@, ClaimValue::Text(v.session_id))
        .insert("exp"@, ClaimValue::Integer(v.exp))
        .insert("iat"@, ClaimValue::Integer(v.iat))
        .insert("iss"@, ClaimValue::Text(v.iss))
        .insert("aud"@, ClaimValue::Text(v.aud))
        .insert("token_type"@, ClaimValue::Text(v.token_type))
}

/// The access-token claims that `c` holds, when every one is there and of its kind.
pub open spec fn access_view_of(c: Map<Seq<char>, ClaimValue>) -> Option<AccessClaimsView> {
    if {
        &&& text_claim(c, "sub"@) is Some
        &&& text_claim(c, "username"@) is Some
        &&& text_claim(c, "email"@) is Some
        &&& text_list_claim(c, "roles"@) is Some
        &&& text_claim(c, "session_id"@) is Some
        &&& int_claim(c, "exp"@) is Some
        &&& int_claim(c, "iat"@) is Some
        &&& text_claim(c, "iss"@) is Some
        &&& text_claim(c, "aud"@) is Some
        &&& text_claim(c, "token_type"@) is Some
    } {
        Some(
            AccessClaimsView {
                sub: text_claim(c, "sub"@)->0,
                username: text_claim(c, "username"@)->0,
                email: text_claim(c, "email"@)->0,
                roles: text_list_claim(c, "roles"@)->0,
                session_id: text_claim(c, "session_id"@)->0,
                exp: int_claim(c, "exp"@)->0,
                iat: int_claim(c, "iat"@)->0,
                iss: text_claim(c, "iss"@)->0,
                aud: text_claim(c, "aud"@)->0,
                token_type: text_claim(c, "token_type"@)->0,
            },
        )
    } else {
        None
    }
}

/// The refresh-token claims that `c` holds, when every one is there and of its kind.
pub open spec fn refresh_view_of(c: Map<Seq<char>, ClaimValue>) -> Option<RefreshClaimsView> {
    if {
        &&& text_claim(c, "sub"@) is Some
        &&& text_claim(c, "session_id"@) is Some
        &&& int_claim(c, "exp"@) is Some
        &&& int_claim(c, "iat"@) is Some
        &&& text_claim(c, "iss"@) is Some
        &&& text_claim(c, "aud"@) is Some
        &&& text_claim(c, "token_type"@) is Some
    } {
        Some(
            RefreshClaimsView {
                sub: text_claim(c, "sub"@)->0,
                session_id: text_claim(c, "session_id"@)->0,
                exp: int_claim(c, "exp"@)->0,
                iat: int_claim(c, "iat"@)->0,
                iss: text_claim(c, "iss"@)->0,
                aud: text_claim(c, "aud"@)->0,
                token_type: text_claim(c, "token_type"@)->0,
            },
        )
    } else {
        None
    }
}

/// Reading back the claims written into an access token gives the same claims.
pub proof fn lemma_access_claims_round_trip(v: AccessClaimsView)
    ensures
        access_view_of(access_claims_map(v)) == Some(v),
{
    lemma_claim_keys_distinct();
    let items = some_texts(v.roles);
    assert(forall|i: int| 0 <= i < items.len() ==> (#[trigger] items[i]) is Some);
    assert(items.map_values(|x: Option<Seq<char>>| x->0) =~= v.roles);
}

/// Reading back the claims written into a refresh token gives the same claims.
pub proof fn lemma_refresh_claims_round_trip(v: RefreshClaimsView)
    ensures
        refresh_view_of(refresh_claims_map(v)) == Some(v),
{
    lemma_claim_keys_distinct();
}

/// The claim names differ from each other: by length, or at one place.
proof fn lemma_claim_keys_distinct()
    ensures
        "sub"@.len() == 3,
        "exp"@.len() == 3,
        "iat"@.len() == 3,
        "iss"@.len() == 3,
        "aud"@.len() == 3,
        "email"@.len() == 5,
        "roles"@.len() == 5,
        "username"@.len() == 8,
        "session_id"@.len() == 10,
        "token_type"@.len() == 10,
        "sub"@ != "exp"@,
        "sub"@ != "iat"@,
        "sub"@ != "iss"@,
        "sub"@ != "aud"@,
        "exp"@ != "iat"@,
        "exp"@ != "iss"@,
        "exp"@ != "aud"@,
        "iat"@ != "iss"@,
        "iat"@ != "aud"@,
        "iss"@ != "aud"@,
        "email"@ != "roles"@,
        "session_id"@ != "token_type"@,
{
    reveal_strlit("sub");
    reveal_strlit("username");
    reveal_strlit("email");
    reveal_strlit("roles");
    reveal_strlit("session_id");
    reveal_strlit("exp");
    reveal_strlit("iat");
    reveal_strlit("iss");
    reveal_strlit("aud");
    reveal_strlit("token_type");
    assert("sub"@[0] != "exp"@[0]);
    assert("sub"@[0] != "iat"@[0]);
    assert("sub"@[0] != "iss"@[0]);
    assert("sub"@[0] != "aud"@[0]);
    assert("exp"@[0] != "iat"@[0]);
    assert("exp"@[0] != "iss"@[0]);
    assert("exp"@[0] != "aud"@[0]);
    assert("iat"@[1] != "iss"@[1]);
    assert("iat"@[0] != "aud"@[0]);
    assert("iss"@[0] != "aud"@[0]);
    assert("email"@[0] != "roles"@[0]);
    assert("session_id"@[0] != "token_type"@[0]);
}

/// An access token reads back, once checked, exactly the claims it was issued with.
pub proof fn lemma_issued_access_token_reads_back(user: User, session_id: Seq<char>, iat: i64, remember_me: bool)
    ensures
        access_check(access_claims_map(issued_access_claims(user, session_id, iat, remember_me))) == Ok::<
            AccessClaimsView,
            Seq<char>,
        >(issued_access_claims(user, session_id, iat, remember_me)),
{
    lemma_access_claims_round_trip(issued_access_claims(user, session_id, iat, remember_me));
}

/// A refresh token reads back, once checked, exactly the claims it was issued with.
pub proof fn lemma_issued_refresh_token_reads_back(user_id: Seq<char>, session_id: Seq<char>, iat: i64, remember_me: bool)
    ensures
        refresh_check(refresh_claims_map(issued_refresh_claims(user_id, session_id, iat, remember_me))) == Ok::<
            RefreshClaimsView,
            Seq<char>,
        >(issued_refresh_claims(user_id, session_id, iat, remember_me)),
{
    lemma_refresh_claims_round_trip(issued_refresh_claims(user_id, session_id, iat, remember_me));
}

/// The token of a `Bearer` header built from a token that does not itself start with
/// `Bearer ` is that token.
pub proof fn lemma_bearer_header(token: Seq<char>)
    requires
        token.len() > 0,
        !has_prefix(token, "Bearer "@),
    ensures
        has_prefix("Bearer "@ + token, "Bearer "@),
        trim_start_pattern("Bearer "@ + token, "Bearer "@) == token,
{
    reveal_strlit("Bearer ");
    let h = "Bearer "@ + token;
    assert(h.take(7) =~= "Bearer "@);
    assert(h.skip(7) =~= token);
    reveal_with_fuel(trim_start_pattern, 2);
}

impl AccessTokenClaims {
    /// These claims as a JSON object.
    pub fn to_json(&self) -> (r: JsonObject)
        ensures
            json_claims(r) == access_claims_map(self@),
    {
        let mut m = json_object();
        json_put_text(&mut m, "sub", self.sub.as_str());
        json_put_text(&mut m, "username", self.username.as_str());
        json_put_text(&mut m, "email", self.email.as_str());
        json_put_text_list(&mut m, "roles", &self.roles);
        json_put_text(&mut m, "session_id", self.session_id.as_str());
        json_put_int(&mut m, "exp", self.exp);
        json_put_int(&mut m, "iat", self.iat);
        json_put_text(&mut m, "iss", self.iss.as_str());
        json_put_text(&mut m, "aud", self.aud.as_str());
        json_put_text(&mut m, "token_type", self.token_type.as_str());
        m
    }

    /// The access-token claims that a JSON object holds; an error when one is missing
    /// or of the wrong kind.
    pub fn from_json(m: &JsonObject) -> (r: Result<AccessTokenClaims, String>)
        ensures
            match r {
                Ok(a) => access_view_of(json_claims(*m)) == Some(a@),
                Err(e) => access_view_of(json_claims(*m)) is None && e@ == malformed_claims(),
            },
    {
        let sub = json_get_text(m, "sub");
        let username = json_get_text(m, "username");
        let email = json_get_text(m, "email");
        let roles = json_get_text_list(m, "roles");
        let session_id = json_get_text(m, "session_id");
        let exp = json_get_int(m, "exp");
        let iat = json_get_int(m, "iat");
        let iss = json_get_text(m, "iss");
        let aud = json_get_text(m, "aud");
        let token_type = json_get_text(m, "token_type");
        match (sub, username, email, roles, session_id, exp, iat, iss, aud, token_type) {
            (
                Some(sub),
                Some(username),
                Some(email),
                Some(roles),
                Some(session_id),
                Some(exp),
                Some(iat),
                Some(iss),
                Some(aud),
                Some(token_type),
            ) => Ok(AccessTokenClaims { sub, username, email, roles, session_id, exp, iat, iss, aud, token_type }),
            _ => Err(owned("malformed token claims")),
        }
    }
}

impl RefreshTokenClaims {
    /// These claims as a JSON object.
    pub fn to_json(&self) -> (r: JsonObject)
        ensures
            json_claims(r) == refresh_claims_map(self@),
    {
        let mut m = json_object();
        json_put_text(&mut m, "sub", self.sub.as_str());
        json_put_text(&mut m, "session_id", self.session_id.as_str());
        json_put_int(&mut m, "exp", self.exp);
        json_put_int(&mut m, "iat", self.iat);
        json_put_text(&mut m, "iss", self.iss.as_str());
        json_put_text(&mut m, "aud", self.aud.as_str());
        json_put_text(&mut m, "token_type", self.token_type.as_str());
        m
    }

    /// The refresh-token claims that a JSON object holds; an error when one is
    /// missing or of the wrong kind.
    pub fn from_json(m: &JsonObject) -> (r: Result<RefreshTokenClaims, String>)
        ensures
            match r {
                Ok(a) => refresh_view_of(json_claims(*m)) == Some(a@),
                Err(e) => refresh_view_of(json_claims(*m)) is None && e@ == malformed_claims(),
            },
    {
        let sub = json_get_text(m, "sub");
        let session_id = json_get_text(m, "session_id");
        let exp = json_get_int(m, "exp");
        let iat = json_get_int(m, "iat");
        let iss = json_get_text(m, "iss");
        let aud = json_get_text(m, "aud");
        let token_type = json_get_text(m, "token_type");
        match (sub, session_id, exp, iat, iss, aud, token_type) {
            (Some(sub), Some(session_id), Some(exp), Some(iat), Some(iss), Some(aud), Some(token_type)) => Ok(
                RefreshTokenClaims { sub, session_id, exp, iat, iss, aud, token_type },
            ),
            _ => Err(owned("malformed token claims")),
        }
    }
}

/// What issuing an access token writes into it.
pub open spec fn issued_access_claims(user: User, session_id: Seq<char>, iat: i64, remember_me: bool) -> AccessClaimsView {
    AccessClaimsView {
        sub: user.id@,
        username: user.username@,
        email: user.email@,
        roles: strs(user.roles@),
        session_id,
        exp: (iat + access_lifetime(remember_me)) as i64,
        iat,
        iss: token_issuer(),
        aud: token_audience(),
        token_type: "access"@,
    }
}

/// What issuing a refresh token writes into it.
pub open spec fn issued_refresh_claims(user_id: Seq<char>, session_id: Seq<char>, iat: i64, remember_me: bool) -> RefreshClaimsView {
    RefreshClaimsView {
        sub: user_id,
        session_id,
        exp: (iat + refresh_lifetime(remember_me)) as i64,
        iat,
        iss: token_issuer(),
        aud: token_audience(),
        token_type: "refresh"@,
    }
}

/// Lifetime of an access token in seconds: doubled when the user asks to be remembered.
pub open spec fn access_lifetime(remember_me: bool) -> int {
    if remember_me {
        ACCESS_TOKEN_EXPIRY_HOURS * 2 * 3600
    } else {
        ACCESS_TOKEN_EXPIRY_HOURS * 3600
    }
}

/// Lifetime of a refresh token in seconds: doubled when the user asks to be remembered.
pub open spec fn refresh_lifetime(remember_me: bool) -> int {
    if remember_me {
        REFRESH_TOKEN_EXPIRY_DAYS * 2 * 86400
    } else {
        REFRESH_TOKEN_EXPIRY_DAYS * 86400
    }
}

/// A second of issue for which every token's expiry is a valid time.
pub open spec fn valid_issue_second(iat: int) -> bool {
    MIN_SECONDS <= iat && iat + LONGEST_TOKEN_LIFETIME <= MAX_SECONDS
}

/// The claims of a password-reset token for `user_id` issued at second `iat`: it
/// expires an hour later.
pub open spec fn reset_claims_map(user_id: Seq<char>, iat: int) -> Map<Seq<char>, ClaimValue> {
    Map::<Seq<char>, ClaimValue>::empty()
        .insert("sub"@, ClaimValue::Text(user_id))
        .insert("exp"@, ClaimValue::Integer((iat + 3600) as i64))
        .insert("iat"@, ClaimValue::Integer(iat as i64))
        .insert("iss"@, ClaimValue::Text(token_issuer()))
        .insert("aud"@, ClaimValue::Text(token_audience()))
        .insert("token_type"@, ClaimValue::Text("password_reset"@))
}

/// What a decoded password-reset token names: the user id, or the message of what is
/// wrong with it.
pub open spec fn reset_subject(c: Map<Seq<char>, ClaimValue>) -> Result<Seq<char>, Seq<char>> {
    match text_claim(c, "token_type"@) {
        None => Err("Missing token type"@),
        Some(t) => if t != "password_reset"@ {
            Err("Invalid token type for password reset"@)
        } else {
            match text_claim(c, "sub"@) {
                None => Err("Missing user ID in token"@),
                Some(u) => Ok(u),
            }
        },
    }
}

/// A password-reset token reads back, once checked, the user it was issued for.
pub proof fn lemma_reset_token_reads_back(user_id: Seq<char>, iat: int)
    ensures
        reset_subject(reset_claims_map(user_id, iat)) == Ok::<Seq<char>, Seq<char>>(user_id),
{
    lemma_claim_keys_distinct();
    reveal_strlit("password_reset");
    reveal_strlit("token_type");
    reveal_strlit("sub");
}

/// Reads what a decoded access token holds: its claims, when they are all there and
/// it is an access token.
pub open spec fn access_check(c: Map<Seq<char>, ClaimValue>) -> Result<AccessClaimsView, Seq<char>> {
    match access_view_of(c) {
        None => Err("Invalid access token: "@ + malformed_claims()),
        Some(v) => if v.token_type == "access"@ {
            Ok(v)
        } else {
            Err("Invalid token type"@)
        },
    }
}

/// Reads what a decoded refresh token holds: its claims, when they are all there and
/// it is a refresh token.
pub open spec fn refresh_check(c: Map<Seq<char>, ClaimValue>) -> Result<RefreshClaimsView, Seq<char>> {
    match refresh_view_of(c) {
        None => Err("Invalid refresh token: "@ + malformed_claims()),
        Some(v) => if v.token_type == "refresh"@ {
            Ok(v)
        } else {
            Err("Invalid token type"@)
        },
    }
}

/// The claims of a decoded access token: an error when one is missing or of the
/// wrong kind, or when it is not an access token.
pub fn access_claims_checked(m: &JsonObject) -> (r: Result<AccessTokenClaims, String>)
    ensures
        match r {
            Ok(a) => access_check(json_claims(*m)) == Ok::<AccessClaimsView, Seq<char>>(a@),
            Err(e) => access_check(json_claims(*m)) == Err::<AccessClaimsView, Seq<char>>(e@),
        },
{
    match AccessTokenClaims::from_json(m) {
        Err(e) => Err(joined("Invalid access token: ", e.as_str())),
        Ok(a) => {
            if !str_eq(a.token_type.as_str(), "access") {
                return Err(owned("Invalid token type"));
            }
            Ok(a)
        },
    }
}

/// The claims of a decoded refresh token: an error when one is missing or of the
/// wrong kind, or when it is not a refresh token.
pub fn refresh_claims_checked(m: &JsonObject) -> (r: Result<RefreshTokenClaims, String>)
    ensures
        match r {
            Ok(a) => refresh_check(json_claims(*m)) == Ok::<RefreshClaimsView, Seq<char>>(a@),
            Err(e) => refresh_check(json_claims(*m)) == Err::<RefreshClaimsView, Seq<char>>(e@),
        },
{
    match RefreshTokenClaims::from_json(m) {
        Err(e) => Err(joined("Invalid refresh token: ", e.as_str())),
        Ok(a) => {
            if !str_eq(a.token_type.as_str(), "refresh") {
                return Err(owned("Invalid token type"));
            }
            Ok(a)
        },
    }
}

/// The user id that a decoded password-reset token names, or what is wrong with it.
pub fn reset_subject_of(m: &JsonObject) -> (r: Result<String, String>)
    ensures
        match r {
            Ok(u) => reset_subject(json_claims(*m)) == Ok::<Seq<char>, Seq<char>>(u@),
            Err(e) => reset_subject(json_claims(*m)) == Err::<Seq<char>, Seq<char>>(e@),
        },
{
    let token_type = match json_get_text(m, "token_type") {
        Some(t) => t,
        None => {
            return Err(owned("Missing token type"));
        },
    };
    if !str_eq(token_type.as_str(), "password_reset") {
        return Err(owned("Invalid token type for password reset"));
    }
    match json_get_text(m, "sub") {
        Some(u) => Ok(u),
        None => Err(owned("Missing user ID in token")),
    }
}

/// What checking `token` as an access token answers: claims that pass are those
/// the token holds, read by `access_check`, and the token is signed with the
/// service's secret and names the service as issuer and audience; a refusal is
/// `access_check`'s, or the token library's (with its prefix).
pub open spec fn access_verification(token: Seq<char>, r: Result<AccessTokenClaims, String>) -> bool {
    match r {
        Ok(a) => {
            &&& access_check(token_claims(token)) == Ok::<AccessClaimsView, Seq<char>>(a@)
            &&& hs256_signed(token, jwt_secret())
            &&& a@.iss == token_issuer()
            &&& a@.aud == token_audience()
        },
        Err(e) => access_check(token_claims(token)) == Err::<AccessClaimsView, Seq<char>>(e@) || has_prefix(
            e@,
            "Invalid access token: "@,
        ),
    }
}

/// What checking `token` as a refresh token answers, in the same way.
pub open spec fn refresh_verification(token: Seq<char>, r: Result<RefreshTokenClaims, String>) -> bool {
    match r {
        Ok(a) => {
            &&& refresh_check(token_claims(token)) == Ok::<RefreshClaimsView, Seq<char>>(a@)
            &&& hs256_signed(token, jwt_secret())
            &&& a@.iss == token_issuer()
            &&& a@.aud == token_audience()
        },
        Err(e) => refresh_check(token_claims(token)) == Err::<RefreshClaimsView, Seq<char>>(e@) || has_prefix(
            e@,
            "Invalid refresh token: "@,
        ),
    }
}

/// The tokens of a pair issued for `user` read back, once checked, exactly the
/// claims they were issued with (the access token its user's id, name, address,
/// roles, session and lifetime; the refresh token its user's id, session and
/// lifetime), or are refused only by the token library; and neither kind passes as
/// the other.
pub proof fn lemma_issued_pair_verifies(
    user: User,
    session_id: Seq<char>,
    iat: i64,
    remember_me: bool,
    tokens: (Seq<char>, Seq<char>),
    ra: Result<AccessTokenClaims, String>,
    rr: Result<RefreshTokenClaims, String>,
    refresh_as_access: Result<AccessTokenClaims, String>,
    access_as_refresh: Result<RefreshTokenClaims, String>,
)
    requires
        token_claims(tokens.0) == access_claims_map(issued_access_claims(user, session_id, iat, remember_me)),
        token_claims(tokens.1) == refresh_claims_map(issued_refresh_claims(user.id@, session_id, iat, remember_me)),
        access_verification(tokens.0, ra),
        refresh_verification(tokens.1, rr),
        access_verification(tokens.1, refresh_as_access),
        refresh_verification(tokens.0, access_as_refresh),
    ensures
        ra matches Ok(c) ==> c@ == issued_access_claims(user, session_id, iat, remember_me),
        ra matches Err(e) ==> has_prefix(e@, "Invalid access token: "@),
        rr matches Ok(c) ==> c@ == issued_refresh_claims(user.id@, session_id, iat, remember_me),
        rr matches Err(e) ==> has_prefix(e@, "Invalid refresh token: "@),
        refresh_as_access is Err,
        access_as_refresh is Err,
{
    lemma_issued_access_token_reads_back(user, session_id, iat, remember_me);
    lemma_issued_refresh_token_reads_back(user.id@, session_id, iat, remember_me);
    lemma_claim_keys_distinct();
    reveal_strlit("username");
    reveal_strlit("access");
    reveal_strlit("refresh");
    let rm = refresh_claims_map(issued_refresh_claims(user.id@, session_id, iat, remember_me));
    assert(!rm.contains_key("username"@));
    assert(access_check(rm) is Err);
    let am = access_claims_map(issued_access_claims(user, session_id, iat, remember_me));
    assert(text_claim(am, "token_type"@) == Some("access"@));
    assert("access"@ != "refresh"@) by {
        assert("access"@.len() != "refresh"@.len());
    }
    assert(refresh_check(am) is Err);
}

/// Issues and checks tokens with one HS256 secret, for one issuer and audience: the
/// service's own (`jwt_secret`, `token_issuer`, `token_audience`).
pub struct JwtManager {
    secret: String,
    issuer: String,
    audience: String,
}

impl JwtManager {
    /// Every manager holds the service's secret, issuer and audience.
    #[verifier::type_invariant]
    spec fn holds_service_settings(self) -> bool {
        &&& self.secret@ == jwt_secret()
        &&& self.issuer@ == token_issuer()
        &&& self.audience@ == token_audience()
    }

    /// The secret this manager signs and checks tokens with.
    pub closed spec fn secret(&self) -> Seq<char> {
        self.secret@
    }

    /// The issuer this manager writes and accepts.
    pub closed spec fn issuer(&self) -> Seq<char> {
        self.issuer@
    }

    /// The audience this manager writes and accepts.
    pub closed spec fn audience(&self) -> Seq<char> {
        self.audience@
    }
}

impl Clone for JwtManager {
    fn clone(&self) -> (r: JwtManager)
        ensures
            r.secret() == self.secret(),
            r.issuer() == self.issuer(),
            r.audience() == self.audience(),
    {
        proof {
            use_type_invariant(self);
        }
        JwtManager { secret: self.secret.clone(), issuer: self.issuer.clone(), audience: self.audience.clone() }
    }
}

impl JwtManager {
    /// A manager with the service's secret, accepting tokens for its issuer and audience.
    pub fn new() -> (r: JwtManager)
        ensures
            r.secret() == jwt_secret(),
            r.issuer() == token_issuer(),
            r.audience() == token_audience(),
    {
        JwtManager {
            secret: owned("your-super-secret-jwt-key-change-this-in-production"),
            issuer: owned("ecom-auth-service"),
            audience: owned("ecom-api"),
        }
    }

    /// Issues an access and a refresh token for `user` at second `iat` under
    /// `session_id`, both signed with the service's secret. Remembered users get
    /// tokens that last twice as long.
    pub fn generate_token_pair_at(&self, user: &User, remember_me: bool, iat: i64, session_id: String) -> (r: Result<
        TokenPair,
        String,
    >)
        requires
            valid_issue_second(iat as int),
        ensures
            r matches Ok(p) && {
                &&& p.session_id@ == session_id@
                &&& p.expires_in == access_lifetime(remember_me)
                &&& token_claims(p.access_token@) == access_claims_map(
                    issued_access_claims(*user, session_id@, iat, remember_me),
                )
                &&& token_claims(p.refresh_token@) == refresh_claims_map(
                    issued_refresh_claims(user.id@, session_id@, iat, remember_me),
                )
                &&& hs256_signed(p.access_token@, jwt_secret())
                &&& hs256_signed(p.refresh_token@, jwt_secret())
            },
    {
        proof {
            use_type_invariant(self);
        }
        let access_seconds: i64 = if remember_me {
            ACCESS_TOKEN_EXPIRY_HOURS * 2 * 3600
        } else {
            ACCESS_TOKEN_EXPIRY_HOURS * 3600
        };
        let refresh_seconds: i64 = if remember_me {
            REFRESH_TOKEN_EXPIRY_DAYS * 2 * 86400
        } else {
            REFRESH_TOKEN_EXPIRY_DAYS * 86400
        };
        let access_claims = AccessTokenClaims {
            sub: user.id.clone(),
            username: user.username.clone(),
            email: user.email.clone(),
            roles: copy_strings(&user.roles),
            session_id: session_id.clone(),
            exp: iat + access_seconds,
            iat,
            iss: self.issuer.clone(),
            aud: self.audience.clone(),
            token_type: owned("access"),
        };
        let access_token = match jwt_encode(&access_claims.to_json(), self.secret.as_str()) {
            Ok(t) => t,
            Err(_) => {
                return Err(owned("Failed to generate access token"));
            },
        };
        let refresh_claims = RefreshTokenClaims {
            sub: user.id.clone(),
            session_id: session_id.clone(),
            exp: iat + refresh_seconds,
            iat,
            iss: self.issuer.clone(),
            aud: self.audience.clone(),
            token_type: owned("refresh"),
        };
        let refresh_token = match jwt_encode(&refresh_claims.to_json(), self.secret.as_str()) {
            Ok(t) => t,
            Err(_) => {
                return Err(owned("Failed to generate refresh token"));
            },
        };
        Ok(TokenPair { access_token, refresh_token, expires_in: access_seconds, session_id })
    }

    /// Issues an access and a refresh token for `user` now, under a fresh session id;
    /// refused only when the clock is so far out that the expiry would leave the
    /// calendar.
    pub fn generate_token_pair(&self, user: &User, remember_me: bool) -> (r: Result<TokenPair, String>)
        ensures
            match r {
                Ok(p) => {
                    &&& p.expires_in == access_lifetime(remember_me)
                    &&& exists|iat: i64|
                        #![trigger issued_access_claims(*user, p.session_id@, iat, remember_me)]
                        {
                            &&& valid_issue_second(iat as int)
                            &&& token_claims(p.access_token@) == access_claims_map(
                                issued_access_claims(*user, p.session_id@, iat, remember_me),
                            )
                            &&& token_claims(p.refresh_token@) == refresh_claims_map(
                                issued_refresh_claims(user.id@, p.session_id@, iat, remember_me),
                            )
                        }
                    &&& hs256_signed(p.access_token@, jwt_secret())
                    &&& hs256_signed(p.refresh_token@, jwt_secret())
                },
                Err(e) => e@ == "Token expiry out of range"@,
            },
    {
        let t = now();
        let secs = whole_seconds_of(t);
        if secs < MIN_SECONDS as i128 || secs > (MAX_SECONDS - LONGEST_TOKEN_LIFETIME) as i128 {
            return Err(owned("Token expiry out of range"));
        }
        let iat = secs as i64;
        let r = self.generate_token_pair_at(user, remember_me, iat, new_uuid());
        proof {
            if r is Ok {
                let p = r->Ok_0;
                assert(issued_access_claims(*user, p.session_id@, iat, remember_me) == issued_access_claims(
                    *user,
                    p.session_id@,
                    iat,
                    remember_me,
                ));
            }
        }
        r
    }

    /// Checks an access token and reads its claims: a token that passes is signed
    /// with the service's secret and names the service as issuer and audience.
    pub fn verify_access_token(&self, token: &str) -> (r: Result<AccessTokenClaims, String>)
        ensures
            access_verification(token@, r),
    {
        proof {
            use_type_invariant(self);
        }
        match jwt_decode(token, self.secret.as_str(), self.issuer.as_str(), self.audience.as_str()) {
            Err(e) => Err(joined("Invalid access token: ", e.as_str())),
            Ok(m) => access_claims_checked(&m),
        }
    }

    /// Checks a refresh token and reads its claims: a token that passes is signed
    /// with the service's secret and names the service as issuer and audience.
    pub fn verify_refresh_token(&self, token: &str) -> (r: Result<RefreshTokenClaims, String>)
        ensures
            refresh_verification(token@, r),
    {
        proof {
            use_type_invariant(self);
        }
        match jwt_decode(token, self.secret.as_str(), self.issuer.as_str(), self.audience.as_str()) {
            Err(e) => Err(joined("Invalid refresh token: ", e.as_str())),
            Ok(m) => refresh_claims_checked(&m),
        }
    }

    /// The token of a `Bearer` authorization header: every leading `Bearer ` is
    /// removed, and what is left must not be empty.
    pub fn extract_token_from_header(&self, auth_header: &str) -> (r: Result<String, String>)
        ensures
            !has_prefix(auth_header@, "Bearer "@) ==> (r matches Err(e) && e@
                == "Invalid authorization header format"@),
            has_prefix(auth_header@, "Bearer "@) && trim_start_pattern(auth_header@, "Bearer "@).len() == 0 ==> (
            r matches Err(e) && e@ == "Empty token"@),
            has_prefix(auth_header@, "Bearer "@) && trim_start_pattern(auth_header@, "Bearer "@).len() > 0 ==> (
            r matches Ok(t) && t@ == trim_start_pattern(auth_header@, "Bearer "@)),
    {
        if !str_starts_with(auth_header, "Bearer ") {
            return Err(owned("Invalid authorization header format"));
        }
        let token = str_trim_start_pattern(auth_header, "Bearer ");
        if token.as_str().unicode_len() == 0 {
            return Err(owned("Empty token"));
        }
        Ok(token)
    }

    /// New tokens for `user` at second `iat` under `session_id`, once its refresh
    /// token checks out and belongs to it; never remembered.
    pub fn refresh_access_token_at(&self, user: &User, refresh_token: &str, iat: i64, session_id: String) -> (r:
        Result<TokenPair, String>)
        requires
            valid_issue_second(iat as int),
        ensures
            match r {
                Ok(p) => {
                    &&& refresh_check(token_claims(refresh_token@)) matches Ok(v) && v.sub == user.id@
                    &&& p.session_id@ == session_id@
                    &&& p.expires_in == access_lifetime(false)
                    &&& token_claims(p.access_token@) == access_claims_map(
                        issued_access_claims(*user, session_id@, iat, false),
                    )
                    &&& token_claims(p.refresh_token@) == refresh_claims_map(
                        issued_refresh_claims(user.id@, session_id@, iat, false),
                    )
                    &&& hs256_signed(refresh_token@, jwt_secret())
                    &&& hs256_signed(p.access_token@, jwt_secret())
                    &&& hs256_signed(p.refresh_token@, jwt_secret())
                },
                Err(e) => {
                    ||| has_prefix(e@, "Invalid refresh token: "@)
                    ||| refresh_check(token_claims(refresh_token@)) == Err::<RefreshClaimsView, Seq<char>>(e@)
                    ||| (refresh_check(token_claims(refresh_token@)) matches Ok(v) && v.sub != user.id@
                        && e@ == "Refresh token doesn't belong to this user"@)
                },
            },
    {
        let claims = match self.verify_refresh_token(refresh_token) {
            Ok(c) => c,
            Err(e) => {
                return Err(e);
            },
        };
        if !str_eq(claims.sub.as_str(), user.id.as_str()) {
            return Err(owned("Refresh token doesn't belong to this user"));
        }
        self.generate_token_pair_at(user, false, iat, session_id)
    }

    /// New tokens for `user` now, once its refresh token checks out and belongs to it.
    pub fn refresh_access_token(&self, user: &User, refresh_token: &str) -> (r: Result<TokenPair, String>)
        ensures
            match r {
                Ok(p) => {
                    &&& refresh_check(token_claims(refresh_token@)) matches Ok(v) && v.sub == user.id@
                    &&& p.expires_in == access_lifetime(false)
                    &&& exists|iat: i64|
                        #![trigger issued_access_claims(*user, p.session_id@, iat, false)]
                        {
                            &&& valid_issue_second(iat as int)
                            &&& token_claims(p.access_token@) == access_claims_map(
                                issued_access_claims(*user, p.session_id@, iat, false),
                            )
                            &&& token_claims(p.refresh_token@) == refresh_claims_map(
                                issued_refresh_claims(user.id@, p.session_id@, iat, false),
                            )
                        }
                    &&& hs256_signed(refresh_token@, jwt_secret())
                    &&& hs256_signed(p.access_token@, jwt_secret())
                    &&& hs256_signed(p.refresh_token@, jwt_secret())
                },
                Err(e) => {
                    ||| has_prefix(e@, "Invalid refresh token: "@)
                    ||| refresh_check(token_claims(refresh_token@)) == Err::<RefreshClaimsView, Seq<char>>(e@)
                    ||| (refresh_check(token_claims(refresh_token@)) matches Ok(v) && v.sub != user.id@
                        && e@ == "Refresh token doesn't belong to this user"@)
                    ||| e@ == "Token expiry out of range"@
                },
            },
    {
        let claims = match self.verify_refresh_token(refresh_token) {
            Ok(c) => c,
            Err(e) => {
                return Err(e);
            },
        };
        if !str_eq(claims.sub.as_str(), user.id.as_str()) {
            return Err(owned("Refresh token doesn't belong to this user"));
        }
        self.generate_token_pair(user, false)
    }

    /// Issues a password-reset token for `user_id` at second `iat`, valid for an
    /// hour and signed with the service's secret.
    pub fn create_password_reset_token_at(&self, user_id: &str, iat: i64) -> (r: Result<String, String>)
        requires
            valid_issue_second(iat as int),
        ensures
            r matches Ok(t) && token_claims(t@) == reset_claims_map(user_id@, iat as int) && hs256_signed(
                t@,
                jwt_secret(),
            ),
    {
        proof {
            use_type_invariant(self);
        }
        let mut claims = json_object();
        json_put_text(&mut claims, "sub", user_id);
        json_put_int(&mut claims, "exp", iat + 3600);
        json_put_int(&mut claims, "iat", iat);
        json_put_text(&mut claims, "iss", self.issuer.as_str());
        json_put_text(&mut claims, "aud", self.audience.as_str());
        json_put_text(&mut claims, "token_type", "password_reset");
        match jwt_encode(&claims, self.secret.as_str()) {
            Ok(t) => Ok(t),
            Err(_) => Err(owned("Failed to generate password reset token")),
        }
    }

    /// Issues a password-reset token for `user_id` now, valid for an hour; refused
    /// only when the clock is so far out that the expiry would leave the calendar.
    pub fn create_password_reset_token(&self, user_id: &str) -> (r: Result<String, String>)
        ensures
            match r {
                Ok(t) => hs256_signed(t@, jwt_secret()) && exists|iat: int|
                    valid_issue_second(iat) && token_claims(t@) == #[trigger] reset_claims_map(user_id@, iat),
                Err(e) => e@ == "Token expiry out of range"@,
            },
    {
        let t = now();
        let secs = whole_seconds_of(t);
        if secs < MIN_SECONDS as i128 || secs > (MAX_SECONDS - LONGEST_TOKEN_LIFETIME) as i128 {
            return Err(owned("Token expiry out of range"));
        }
        self.create_password_reset_token_at(user_id, secs as i64)
    }

    /// Checks a password-reset token and reads the user id it names: a token that
    /// passes is signed with the service's secret.
    pub fn verify_password_reset_token(&self, token: &str) -> (r: Result<String, String>)
        ensures
            match r {
                Ok(u) => reset_subject(token_claims(token@)) == Ok::<Seq<char>, Seq<char>>(u@) && hs256_signed(
                    token@,
                    jwt_secret(),
                ),
                Err(e) => reset_subject(token_claims(token@)) == Err::<Seq<char>, Seq<char>>(e@)
                    || has_prefix(e@, "Invalid password reset token: "@),
            },
    {
        proof {
            use_type_invariant(self);
        }
        match jwt_decode(token, self.secret.as_str(), self.issuer.as_str(), self.audience.as_str()) {
            Err(e) => Err(joined("Invalid password reset token: ", e.as_str())),
            Ok(m) => reset_subject_of(&m),
        }
    }
}

} // verus!
