//! Claims verification and the admin gate.
//!
//! A bearer token is checked in three verified steps: the
//! `"Bearer "` prefix is stripped, the signature is checked through
//! the token library, and the expiry instant is compared against the
//! caller's clock — a token whose `exp` is not strictly in the future
//! is rejected whatever its signature. The admin gate never trusts the
//! role a token carries: it re-reads the stored role of the subject.

use vstd::prelude::*;

use crate::data::{opt_view, str_eq, User};
use crate::errors::ApiError;
use crate::store::Store;
use jsonwebtoken::{Algorithm, DecodingKey, EncodingKey, Header, Validation};
use serde_json::Value;

verus! {

/// Seconds a freshly issued access token stays valid.
pub const TOKEN_LIFETIME_SECS: u64 = 86400;

/// The verified payload of a bearer token. The `role` field is the
/// role claimed at issue time; privileged operations never trust it
/// (see [`Claims::check_admin`]).
pub struct Claims {
    /// Expiry instant in unix seconds.
    pub exp: u64,
    /// Subject: the authenticated user's id.
    pub sub: i32,
    /// Role claimed at issue time; not authoritative.
    pub role: Option<String>,
}

/// The token the token library serializes and signs (HMAC-SHA-512)
/// for a given payload and secret; a function of its arguments alone.
pub uninterp spec fn token_for_claims(
    sub: i32,
    role: Option<Seq<char>>,
    exp: u64,
    secret: Seq<char>,
) -> Seq<char>;

/// The payload the token library extracts from a token under a given
/// secret after checking the HMAC-SHA-512 signature, or nothing when
/// the token is rejected; a function of its arguments alone.
pub uninterp spec fn claims_of_token(token: Seq<char>, secret: Seq<char>) -> Option<
    (i32, Option<Seq<char>>, u64),
>;

/// Relies on jsonwebtoken::encode with algorithm HS512: the returned
/// token is a deterministic function of the payload and the secret.
/// Encoding cannot fail here: the key is a plain HMAC secret of the
/// matching family, HMAC accepts any key length, and serializing the
/// fixed header and the string-keyed payload has no failure path.
#[verifier::external_body]
pub(crate) fn jwt_encode_hs512(claims: &Claims, secret: &str) -> (r: Result<String, ()>)
    ensures
        r is Ok,
        r matches Ok(t) ==> t@ == token_for_claims(
            claims.sub,
            opt_view(claims.role),
            claims.exp,
            secret@,
        ),
{
    let mut payload = serde_json::Map::new();
    payload.insert("exp".to_string(), Value::from(claims.exp));
    payload.insert("sub".to_string(), Value::from(claims.sub));
    payload.insert(
        "role".to_string(),
        match &claims.role {
            Some(r) => Value::from(r.clone()),
            None => Value::Null,
        },
    );
    jsonwebtoken::encode(
        &Header::new(Algorithm::HS512),
        &Value::Object(payload),
        &EncodingKey::from_secret(secret.as_bytes()),
    ).map_err(|_| ())
}

/// Relies on jsonwebtoken::decode with algorithm HS512 and expiry
/// validation turned off: only the signature and the shape of the
/// payload decide the outcome, so the result is a deterministic
/// function of the token and the secret. Expiry is checked by the
/// verified caller.
#[verifier::external_body]
pub(crate) fn jwt_decode_hs512(token: &str, secret: &str) -> (r: Result<Claims, ()>)
    ensures
        r matches Ok(c) ==> claims_of_token(token@, secret@) == Some(
            (c.sub, opt_view(c.role), c.exp),
        ),
        r is Err ==> claims_of_token(token@, secret@) is None,
{
    let mut validation = Validation::new(Algorithm::HS512);
    validation.validate_exp = false;
    let key = DecodingKey::from_secret(secret.as_bytes());
    let data = jsonwebtoken::decode::<Value>(token, &key, &validation).map_err(|_| ())?;
    let sub = data.claims.get("sub").and_then(Value::as_i64).ok_or(())?;
    let exp = data.claims.get("exp").and_then(Value::as_u64).ok_or(())?;
    let role = match data.claims.get("role") {
        None | Some(Value::Null) => None,
        Some(Value::String(s)) => Some(s.clone()),
        Some(_) => return Err(()),
    };
    Ok(Claims { exp, sub: i32::try_from(sub).map_err(|_| ())?, role })
}

/// The `"Bearer "` prefix required of an authorization header.
pub open spec fn bearer_prefix() -> Seq<char> {
    seq!['B', 'e', 'a', 'r', 'e', 'r', ' ']
}

/// Strips the required `"Bearer "` prefix from an authorization
/// header value.
pub fn strip_bearer(header: &str) -> (r: Option<&str>)
    ensures
        match r {
            Some(rest) => header@.len() >= 7 && header@.subrange(0, 7) == bearer_prefix()
                && rest@ == header@.skip(7),
            None => !(header@.len() >= 7 && header@.subrange(0, 7) == bearer_prefix()),
        },
{
    let n = header.unicode_len();
    if n < 7 {
        return None;
    }
    let ok = header.get_char(0) == 'B' && header.get_char(1) == 'e' && header.get_char(2) == 'a'
        && header.get_char(3) == 'r' && header.get_char(4) == 'e' && header.get_char(5) == 'r'
        && header.get_char(6) == ' ';
    if ok {
        proof {
            assert(header@.subrange(0, 7) =~= bearer_prefix());
        }
        let rest = header.substring_char(7, n);
        proof {
            assert(rest@ =~= header@.skip(7));
        }
        Some(rest)
    } else {
        proof {
            if header@.subrange(0, 7) == bearer_prefix() {
                assert(forall|k: int|
                    0 <= k < 7 ==> header@[k] == #[trigger] header@.subrange(0, 7)[k]);
                assert(header@[0] == 'B' && header@[1] == 'e' && header@[2] == 'a' && header@[3]
                    == 'r' && header@[4] == 'e' && header@[5] == 'r' && header@[6] == ' ');
            }
        }
        None
    }
}

/// The stored role of the subject equals the administrator role.
pub open spec fn claims_admin(users: Seq<User>, sub: i32, admin_role: Seq<char>) -> bool {
    exists|j: int|
        0 <= j < users.len() && (#[trigger] users[j]).id == sub && users[j].role is Some
            && users[j].role->0@ == admin_role
}

impl Clone for Claims {
    fn clone(&self) -> (res: Self)
        ensures
            res == *self,
    {
        Claims { exp: self.exp, sub: self.sub, role: crate::data::clone_opt_string(&self.role) }
    }
}

/// The expiry of a token made at instant `now`: one token lifetime
/// later, saturating at the end of the representable range.
pub open spec fn token_expiry(now: u64) -> u64 {
    if now <= u64::MAX - TOKEN_LIFETIME_SECS {
        (now + TOKEN_LIFETIME_SECS) as u64
    } else {
        u64::MAX
    }
}

impl Claims {
    /// Fresh claims for a subject; `now` is the caller's clock
    /// reading in unix seconds, and the expiry is one token lifetime
    /// later.
    pub fn new(sub: i32, role: Option<String>, now: u64) -> (c: Claims)
        ensures
            c.sub == sub,
            c.role == role,
            c.exp == token_expiry(now),
    {
        let exp = if now <= u64::MAX - TOKEN_LIFETIME_SECS {
            now + TOKEN_LIFETIME_SECS
        } else {
            u64::MAX
        };
        Claims { exp, sub, role }
    }

    /// Extracts and verifies the claims behind an authorization header
    /// value: the `"Bearer "` prefix must be present, the signature
    /// must check out under the secret, and the expiry must lie
    /// strictly in the future. Every failure is `Unauthorized`.
    pub fn from_bearer(header: &str, secret: &str, now: u64) -> (r: Result<Claims, ApiError>)
        ensures
            match r {
                Ok(c) => {
                    &&& header@.len() >= 7 && header@.subrange(0, 7) == bearer_prefix()
                    &&& claims_of_token(header@.skip(7), secret@) == Some(
                        (c.sub, opt_view(c.role), c.exp),
                    )
                    &&& c.exp > now
                },
                Err(e) => {
                    &&& e == ApiError::Unauthorized
                    &&& (header@.len() >= 7 && header@.subrange(0, 7) == bearer_prefix()
                        ==> match claims_of_token(header@.skip(7), secret@) {
                        Some(t) => t.2 <= now,
                        None => true,
                    })
                },
            },
    {
        let token = match strip_bearer(header) {
            Some(t) => t,
            None => {
                return Err(ApiError::Unauthorized);
            },
        };
        let claims = match jwt_decode_hs512(token, secret) {
            Ok(c) => c,
            Err(_) => {
                return Err(ApiError::Unauthorized);
            },
        };
        if claims.exp > now {
            Ok(claims)
        } else {
            Err(ApiError::Unauthorized)
        }
    }

    /// The admin gate: re-reads the subject's stored role and compares
    /// it, case-sensitively, to the administrator role. The role
    /// claimed inside the token plays no part. A missing user row is
    /// rejected as well (fail closed).
    pub fn check_admin(store: &Store, claims: Claims, admin_role: &str) -> (r: Result<
        (),
        ApiError,
    >)
        requires
            store.wf(),
        ensures
            r is Ok <==> claims_admin(store.users@, claims.sub, admin_role@),
            r matches Err(e) ==> e == ApiError::Unauthorized,
    {
        match store.find_user(claims.sub) {
            None => Err(ApiError::Unauthorized),
            Some(j) => {
                match &store.users[j].role {
                    Some(role) => {
                        if str_eq(role.as_str(), admin_role) {
                            Ok(())
                        } else {
                            Err(ApiError::Unauthorized)
                        }
                    },
                    None => Err(ApiError::Unauthorized),
                }
            },
        }
    }
}

/// Whoever no longer holds the administrator role in the user table
/// is turned away, no matter what an old token says.
pub proof fn lemma_admin_gate_freshness(
    users: Seq<User>,
    claims: Claims,
    admin_role: Seq<char>,
    j: int,
)
    requires
        0 <= j < users.len(),
        users[j].id == claims.sub,
        users[j].role is Some,
        users[j].role->0@ != admin_role,
        forall|i: int, k: int|
            0 <= i < k < users.len() ==> (#[trigger] users[i]).id != (#[trigger] users[k]).id,
    ensures
        !claims_admin(users, claims.sub, admin_role),
{
    assert forall|k: int|
        0 <= k < users.len() && (#[trigger] users[k]).id == claims.sub implies !(users[k].role
        is Some && users[k].role->0@ == admin_role) by {
        if k < j {
            assert(users[k].id != users[j].id);
        } else if k > j {
            assert(users[j].id != users[k].id);
        }
    }
}

} // verus!
