//! User accounts: role lookup, login, registration and profile
//! maintenance.
//!
//! Passwords are checked and stored only through the hashing
//! library: a stored hash is never compared by the core itself, and a
//! fresh hash is salted by the library, so nothing is promised about
//! its text. Username, email and phone number stay unique across
//! every mutation, as the storage layer's constraints demand.

use vstd::prelude::*;
use vstd::string::StringExecFns;

use crate::claims::{jwt_encode_hs512, token_expiry, token_for_claims, Claims};
use crate::data::{
    clone_opt_string, opt_view, str_eq, string_eq, JwtUser, LoginRequest, LoginResponse,
    RoleResponse, TempUser, User, UserProfile,
};
use crate::errors::ApiError;
use crate::store::Store;

verus! {

/// Seconds a registration activation token stays valid.
pub const REGISTRATION_TOKEN_LIFETIME_SECS: u64 = 300;

/// Whether the hashing library accepts the password against the
/// stored hash; a function of its arguments alone.
pub uninterp spec fn bcrypt_verifies(password: Seq<char>, hash: Seq<char>) -> bool;

/// Whether the hashing library can read the stored hash at all: the
/// fixed-length format with its embedded version, cost and salt; a
/// function of the hash alone.
pub uninterp spec fn bcrypt_hash_parses(hash: Seq<char>) -> bool;

/// Relies on bcrypt::verify: the verdict is a deterministic function
/// of the password and the hash, and the only failure path is a hash
/// the library cannot read (its format, version, cost range and
/// base64 parts are checked before anything else happens), so failure
/// is a function of the hash alone.
#[verifier::external_body]
fn bcrypt_verify(password: &str, hash: &str) -> (r: Result<bool, ()>)
    ensures
        r is Err <==> !bcrypt_hash_parses(hash@),
        r matches Ok(b) ==> b == bcrypt_verifies(password@, hash@),
{
    bcrypt::verify(password, hash).map_err(|_| ())
}

/// Relies on bcrypt::hash with the default cost: the hash carries a
/// random salt, so nothing is stated about its text — but whatever
/// hash comes back embeds that salt and cost, so the library reads it
/// back and verifies the same password against it.
#[verifier::external_body]
fn bcrypt_hash(password: &str) -> (r: Result<String, ()>)
    ensures
        r matches Ok(h) ==> bcrypt_verifies(password@, h@) && bcrypt_hash_parses(h@),
{
    bcrypt::hash(password, bcrypt::DEFAULT_COST).map_err(|_| ())
}

/// Some stored user has this id.
pub open spec fn has_user(users: Seq<User>, uid: i32) -> bool {
    exists|j: int| 0 <= j < users.len() && (#[trigger] users[j]).id == uid
}

/// The index of the stored user with this id; meaningful only when
/// `has_user` holds and ids are unique.
pub open spec fn user_index(users: Seq<User>, uid: i32) -> int {
    choose|j: int| 0 <= j < users.len() && (#[trigger] users[j]).id == uid
}

/// Some stored user has this email.
pub open spec fn has_user_email(users: Seq<User>, email: Seq<char>) -> bool {
    exists|j: int| 0 <= j < users.len() && (#[trigger] users[j]).email@ == email
}

/// The index of the stored user with this email; meaningful only when
/// `has_user_email` holds and emails are unique.
pub open spec fn user_email_index(users: Seq<User>, email: Seq<char>) -> int {
    choose|j: int| 0 <= j < users.len() && (#[trigger] users[j]).email@ == email
}

/// A stored account other than `except` already carries the
/// username, the email, or the (present) phone number.
pub open spec fn identity_taken(
    users: Seq<User>,
    username: Seq<char>,
    email: Seq<char>,
    phone: Option<Seq<char>>,
    except: Option<i32>,
) -> bool {
    exists|j: int|
        0 <= j < users.len() && (except matches Some(e) ==> (#[trigger] users[j]).id != e) && (
        users[j].username@ == username || users[j].email@ == email || (users[j].phone_number
            is Some && phone is Some && users[j].phone_number->0@ == phone->0))
}

/// The scan behind the uniqueness checks: true when no stored account
/// other than `except` carries the username, email or phone number.
fn identity_free(
    store: &Store,
    username: &String,
    email: &String,
    phone: &Option<String>,
    except: Option<i32>,
) -> (r: bool)
    ensures
        r == !identity_taken(store.users@, username@, email@, opt_view(*phone), except),
{
    let mut i: usize = 0;
    while i < store.users.len()
        invariant
            i <= store.users@.len(),
            forall|j: int|
                0 <= j < i ==> !((except matches Some(e) ==> (#[trigger] store.users@[j]).id != e)
                    && (store.users@[j].username@ == username@ || store.users@[j].email@ == email@
                    || (store.users@[j].phone_number is Some && phone is Some
                    && store.users@[j].phone_number->0@ == opt_view(*phone)->0))),
        decreases store.users@.len() - i,
    {
        let u = &store.users[i];
        let skipped = match except {
            Some(e) => u.id == e,
            None => false,
        };
        if !skipped {
            let phone_eq = match (&u.phone_number, phone) {
                (Some(a), Some(b)) => string_eq(a, b),
                _ => false,
            };
            if string_eq(&u.username, username) || string_eq(&u.email, email) || phone_eq {
                return false;
            }
        }
        i += 1;
    }
    true
}

/// Reads the live role of the authenticated user; a missing account
/// is refused.
pub fn get_user_role(store: &Store, claims: Claims) -> (r: Result<RoleResponse, ApiError>)
    requires
        store.wf(),
    ensures
        r is Ok <==> has_user(store.users@, claims.sub),
        match r {
            Ok(resp) => resp.role@ == store.users@[user_index(store.users@, claims.sub)].role->0@,
            Err(e) => e == ApiError::Unauthorized,
        },
{
    let j = match store.find_user(claims.sub) {
        Some(j) => j,
        None => {
            return Err(ApiError::Unauthorized);
        },
    };
    proof {
        let t = user_index(store.users@, claims.sub);
        if t != j as int {
            assert(store.users@[t].id == store.users@[j as int].id);
        }
    }
    match &store.users[j].role {
        Some(role) => Ok(RoleResponse { role: role.clone() }),
        None => Err(ApiError::Unauthorized),  // unreachable: stored accounts carry a role
    }
}

/// Checks credentials and issues a signed token. The account is found
/// by email; the password must verify against the stored hash; the
/// token carries the account's id, its stored role and an expiry one
/// token lifetime past `now`, the caller's clock reading. Success is
/// owed exactly when the account exists, its stored hash is readable
/// and the password verifies.
pub fn login(store: &Store, login_data: LoginRequest, jwt_secret: &str, now: u64) -> (r: Result<
    LoginResponse,
    ApiError,
>)
    requires
        store.wf(),
    ensures
        match r {
            Ok(resp) => {
                &&& has_user_email(store.users@, login_data.email@)
                &&& {
                    let u = store.users@[user_email_index(store.users@, login_data.email@)];
                    &&& bcrypt_hash_parses(u.password_hash@)
                    &&& bcrypt_verifies(login_data.password@, u.password_hash@)
                    &&& resp.id == u.id
                    &&& resp.username@ == u.username@
                    &&& resp.email@ == u.email@
                    &&& resp.token@ == token_for_claims(
                        u.id,
                        opt_view(u.role),
                        token_expiry(now),
                        jwt_secret@,
                    )
                }
            },
            Err(e) => {
                let u = store.users@[user_email_index(store.users@, login_data.email@)];
                &&& (e == ApiError::NotFound <==> !has_user_email(
                    store.users@,
                    login_data.email@,
                ))
                &&& (e == ApiError::Unauthorized <==> has_user_email(
                    store.users@,
                    login_data.email@,
                ) && bcrypt_hash_parses(u.password_hash@) && !bcrypt_verifies(
                    login_data.password@,
                    u.password_hash@,
                ))
                &&& (e == ApiError::InternalServerError <==> has_user_email(
                    store.users@,
                    login_data.email@,
                ) && !bcrypt_hash_parses(u.password_hash@))
            },
        },
{
    let j = match store.find_user_by_email(&login_data.email) {
        Some(j) => j,
        None => {
            return Err(ApiError::NotFound);
        },
    };
    proof {
        let t = user_email_index(store.users@, login_data.email@);
        if t != j as int {
            assert(store.users@[t].email@ == store.users@[j as int].email@);
        }
    }
    let is_password_valid = match bcrypt_verify(
        login_data.password.as_str(),
        store.users[j].password_hash.as_str(),
    ) {
        Ok(b) => b,
        Err(_) => {
            return Err(ApiError::InternalServerError);
        },
    };
    if !is_password_valid {
        return Err(ApiError::Unauthorized);
    }
    let claims = Claims::new(store.users[j].id, clone_opt_string(&store.users[j].role), now);
    let token = match jwt_encode_hs512(&claims, jwt_secret) {
        Ok(t) => t,
        Err(_) => {
            return Err(ApiError::InternalServerError);
        },
    };
    Ok(
        LoginResponse {
            id: store.users[j].id,
            username: store.users[j].username.clone(),
            email: store.users[j].email.clone(),
            token,
        },
    )
}

/// Reads the authenticated user's profile; absent fields come back
/// empty. A missing account is a storage failure, as the single-row
/// read would report it.
pub fn get_profile(store: &Store, claims: Claims) -> (r: Result<UserProfile, ApiError>)
    requires
        store.wf(),
    ensures
        r is Ok <==> has_user(store.users@, claims.sub),
        match r {
            Ok(p) => {
                let u = store.users@[user_index(store.users@, claims.sub)];
                &&& p.id == Some(u.id)
                &&& p.username@ == u.username@
                &&& p.email@ == u.email@
                &&& p.first_name@ == (if u.first_name is Some {
                    u.first_name->0@
                } else {
                    Seq::<char>::empty()
                })
                &&& p.last_name@ == (if u.last_name is Some {
                    u.last_name->0@
                } else {
                    Seq::<char>::empty()
                })
                &&& p.phone_number@ == (if u.phone_number is Some {
                    u.phone_number->0@
                } else {
                    Seq::<char>::empty()
                })
                &&& p.address@ == (if u.address is Some {
                    u.address->0@
                } else {
                    Seq::<char>::empty()
                })
            },
            Err(e) => e == ApiError::DatabaseError,
        },
{
    let j = match store.find_user(claims.sub) {
        Some(j) => j,
        None => {
            return Err(ApiError::DatabaseError);
        },
    };
    proof {
        let t = user_index(store.users@, claims.sub);
        if t != j as int {
            assert(store.users@[t].id == store.users@[j as int].id);
        }
    }
    let u = &store.users[j];
    Ok(
        UserProfile {
            id: Some(u.id),
            username: u.username.clone(),
            email: u.email.clone(),
            first_name: unwrap_or_empty(&u.first_name),
            last_name: unwrap_or_empty(&u.last_name),
            phone_number: unwrap_or_empty(&u.phone_number),
            address: unwrap_or_empty(&u.address),
        },
    )
}

/// The held string, or an empty one.
fn unwrap_or_empty(x: &Option<String>) -> (r: String)
    ensures
        r@ == (if *x is Some {
            x->0@
        } else {
            Seq::<char>::empty()
        }),
{
    match x {
        Some(s) => s.clone(),
        None => String::new(),
    }
}

/// Stores a new account. The password is hashed by the hashing
/// library; the role defaults to `"USER"`; username, email and phone
/// number must be free, as the storage constraints demand.
pub fn registration(store: &mut Store, user_data: TempUser) -> (r: Result<(), ApiError>)
    requires
        old(store).wf(),
        user_data.password is Some,
    ensures
        final(store).wf(),
        identity_taken(
            old(store).users@,
            user_data.username@,
            user_data.email@,
            opt_view(user_data.phone_number),
            None,
        ) || old(store).next_user_id == i32::MAX ==> r == Err::<(), ApiError>(
            ApiError::DatabaseError,
        ),
        match r {
            Ok(_) => {
                &&& !identity_taken(
                    old(store).users@,
                    user_data.username@,
                    user_data.email@,
                    opt_view(user_data.phone_number),
                    None,
                )
                &&& final(store).users@.len() == old(store).users@.len() + 1
                &&& final(store).users@.drop_last() == old(store).users@
                &&& {
                    let u = final(store).users@.last();
                    &&& u.id == old(store).next_user_id
                    &&& u.username == user_data.username
                    &&& u.email == user_data.email
                    &&& u.first_name == user_data.first_name
                    &&& u.last_name == user_data.last_name
                    &&& u.phone_number == user_data.phone_number
                    &&& u.address is None
                    &&& u.role is Some
                    &&& u.role->0@ == (if user_data.role is Some {
                        user_data.role->0@
                    } else {
                        "USER"@
                    })
                    &&& bcrypt_verifies(user_data.password->0@, u.password_hash@)
                    &&& bcrypt_hash_parses(u.password_hash@)
                }
                &&& final(store).next_user_id == old(store).next_user_id + 1
                &&& final(store).catalog_unchanged(*old(store))
                &&& final(store).orders_unchanged(*old(store))
            },
            Err(e) => {
                &&& *final(store) == *old(store)
                &&& (e == ApiError::DatabaseError || e == ApiError::InternalServerError)
                &&& (e == ApiError::DatabaseError <==> identity_taken(
                    old(store).users@,
                    user_data.username@,
                    user_data.email@,
                    opt_view(user_data.phone_number),
                    None,
                ) || old(store).next_user_id == i32::MAX)
                &&& (e == ApiError::InternalServerError ==> !identity_taken(
                    old(store).users@,
                    user_data.username@,
                    user_data.email@,
                    opt_view(user_data.phone_number),
                    None,
                ) && old(store).next_user_id < i32::MAX)
            },
        },
{
    if !identity_free(
        store,
        &user_data.username,
        &user_data.email,
        &user_data.phone_number,
        None,
    ) {
        return Err(ApiError::DatabaseError);
    }
    if store.next_user_id == i32::MAX {
        return Err(ApiError::DatabaseError);
    }
    let password = match user_data.password {
        Some(p) => p,
        None => {
            return Err(ApiError::InternalServerError);
        },  // unreachable: a password is required
    };
    let password_hash = match bcrypt_hash(password.as_str()) {
        Ok(h) => h,
        Err(_) => {
            return Err(ApiError::InternalServerError);
        },
    };
    let role = match user_data.role {
        Some(r) => r,
        None => String::from_str("USER"),
    };
    let id = store.next_user_id;
    store.users.push(
        User {
            id,
            username: user_data.username,
            email: user_data.email,
            password_hash,
            first_name: user_data.first_name,
            last_name: user_data.last_name,
            phone_number: user_data.phone_number,
            address: None,
            role: Some(role),
        },
    );
    store.next_user_id = id + 1;
    proof {
        assert(store.users@.drop_last() =~= old(store).users@);
        assert(crate::store::users_wf(store.users@, store.next_user_id));
    }
    Ok(())
}

/// Whether the claimed role survives a profile update: only the
/// administrator role is kept, anything else becomes `"USER"`.
pub open spec fn role_kept(claims: Claims, admin_role: Seq<char>) -> bool {
    claims.role is Some && claims.role->0@ == admin_role
}

/// Updates the authenticated user's profile. The stored role is set
/// from the claimed role, demoted to `"USER"` unless it is exactly
/// the administrator role; the password hash is untouched; username,
/// email and phone number must stay unique.
pub fn update_profile(
    store: &mut Store,
    claims: Claims,
    admin_role: &str,
    user_data: TempUser,
) -> (r: Result<(), ApiError>)
    requires
        old(store).wf(),
    ensures
        final(store).wf(),
        r is Ok <==> has_user(old(store).users@, claims.sub) && !identity_taken(
            old(store).users@,
            user_data.username@,
            user_data.email@,
            opt_view(user_data.phone_number),
            Some(claims.sub),
        ),
        match r {
            Ok(_) => {
                &&& final(store).users@.len() == old(store).users@.len()
                &&& forall|k: int|
                    0 <= k < final(store).users@.len() && k != user_index(
                        old(store).users@,
                        claims.sub,
                    ) ==> final(store).users@[k] == old(store).users@[k]
                &&& {
                    let t = user_index(old(store).users@, claims.sub);
                    let u = final(store).users@[t];
                    &&& u.id == claims.sub
                    &&& u.username == user_data.username
                    &&& u.email == user_data.email
                    &&& u.first_name == user_data.first_name
                    &&& u.last_name == user_data.last_name
                    &&& u.phone_number == user_data.phone_number
                    &&& u.address == user_data.address
                    &&& u.password_hash == old(store).users@[t].password_hash
                    &&& u.role is Some
                    &&& u.role->0@ == (if role_kept(claims, admin_role@) {
                        claims.role->0@
                    } else {
                        "USER"@
                    })
                }
                &&& final(store).next_user_id == old(store).next_user_id
                &&& final(store).catalog_unchanged(*old(store))
                &&& final(store).orders_unchanged(*old(store))
            },
            Err(e) => {
                &&& *final(store) == *old(store)
                &&& (!has_user(old(store).users@, claims.sub) ==> e == ApiError::Unauthorized)
                &&& (has_user(old(store).users@, claims.sub) ==> e == ApiError::DatabaseError)
            },
        },
{
    let new_role: String = match &claims.role {
        Some(rl) => {
            if str_eq(rl.as_str(), admin_role) {
                rl.clone()
            } else {
                String::from_str("USER")
            }
        },
        None => String::from_str("USER"),
    };
    let j = match store.find_user(claims.sub) {
        Some(j) => j,
        None => {
            return Err(ApiError::Unauthorized);
        },
    };
    if !identity_free(
        store,
        &user_data.username,
        &user_data.email,
        &user_data.phone_number,
        Some(claims.sub),
    ) {
        return Err(ApiError::DatabaseError);
    }
    proof {
        let t = user_index(store.users@, claims.sub);
        if t != j as int {
            assert(store.users@[t].id == store.users@[j as int].id);
        }
    }
    let id = store.users[j].id;
    let password_hash = store.users[j].password_hash.clone();
    store.users[j] = User {
        id,
        username: user_data.username,
        email: user_data.email,
        password_hash,
        first_name: user_data.first_name,
        last_name: user_data.last_name,
        phone_number: user_data.phone_number,
        address: user_data.address,
        role: Some(new_role),
    };
    proof {
        assert forall|a: int, b: int| 0 <= a < b < store.users@.len() implies {
            let x = #[trigger] store.users@[a];
            let y = #[trigger] store.users@[b];
            x.id != y.id && x.username@ != y.username@ && x.email@ != y.email@ && !(x.phone_number
                is Some && y.phone_number is Some && x.phone_number->0@ == y.phone_number->0@)
        } by {
            let pre = old(store).users@;
            if a != j as int && b != j as int {
                assert(store.users@[a] == pre[a] && store.users@[b] == pre[b]);
            }
        }
        assert(crate::store::users_wf(store.users@, store.next_user_id));
    }
    Ok(())
}

/// One stored account collides with a registration request: same
/// email, same (present) phone number, or same username.
pub open spec fn user_conflicts(u: User, t: TempUser) -> bool {
    u.email@ == t.email@ || (u.phone_number is Some && t.phone_number is Some && u.phone_number->0@
        == t.phone_number->0@) || u.username@ == t.username@
}

/// The uniqueness error the first colliding account produces, in the
/// order the checks are made: email, then phone, then username.
pub open spec fn conflict_error(u: User, t: TempUser) -> ApiError {
    if u.email@ == t.email@ {
        ApiError::EmailError
    } else if u.phone_number is Some && t.phone_number is Some && u.phone_number->0@
        == t.phone_number->0@ {
        ApiError::PhoneError
    } else {
        ApiError::UsernameError
    }
}

/// Screens a registration request and builds the activation-token
/// payload. The first stored account sharing the email, phone number
/// or username decides the uniqueness error; otherwise the payload
/// carries the request with role `"USER"` and an expiry one
/// activation lifetime past `now`.
pub fn try_registration(store: &Store, user_data: TempUser, now: u64) -> (r: Result<
    JwtUser,
    ApiError,
>)
    ensures
        match r {
            Ok(ju) => {
                &&& forall|k: int|
                    0 <= k < store.users@.len() ==> !user_conflicts(
                        #[trigger] store.users@[k],
                        user_data,
                    )
                &&& ju.username == user_data.username
                &&& ju.email == user_data.email
                &&& ju.password == user_data.password
                &&& ju.first_name == user_data.first_name
                &&& ju.last_name == user_data.last_name
                &&& ju.phone_number == user_data.phone_number
                &&& ju.role is Some && ju.role->0@ == "USER"@
                &&& ju.address is None
                &&& ju.exp == (if now <= u64::MAX - REGISTRATION_TOKEN_LIFETIME_SECS {
                    (now + REGISTRATION_TOKEN_LIFETIME_SECS) as u64
                } else {
                    u64::MAX
                })
            },
            Err(e) => exists|j: int|
                #![auto]
                0 <= j < store.users@.len() && user_conflicts(store.users@[j], user_data) && (
                forall|k: int| 0 <= k < j ==> !user_conflicts(store.users@[k], user_data)) && e
                    == conflict_error(store.users@[j], user_data),
        },
{
    let mut i: usize = 0;
    while i < store.users.len()
        invariant
            i <= store.users@.len(),
            forall|k: int| 0 <= k < i ==> !user_conflicts(#[trigger] store.users@[k], user_data),
        decreases store.users@.len() - i,
    {
        let u = &store.users[i];
        if string_eq(&u.email, &user_data.email) {
            return Err(ApiError::EmailError);
        }
        let phone_eq = match (&u.phone_number, &user_data.phone_number) {
            (Some(a), Some(b)) => string_eq(a, b),
            _ => false,
        };
        if phone_eq {
            return Err(ApiError::PhoneError);
        }
        if string_eq(&u.username, &user_data.username) {
            return Err(ApiError::UsernameError);
        }
        i += 1;
    }
    let exp = if now <= u64::MAX - REGISTRATION_TOKEN_LIFETIME_SECS {
        now + REGISTRATION_TOKEN_LIFETIME_SECS
    } else {
        u64::MAX
    };
    Ok(
        JwtUser {
            username: user_data.username,
            email: user_data.email,
            password: user_data.password,
            first_name: user_data.first_name,
            last_name: user_data.last_name,
            phone_number: user_data.phone_number,
            role: Some(String::from_str("USER")),
            address: None,
            exp,
        },
    )
}

/// Completes a registration that arrives through an activation
/// token. A payload whose expiry lies before `now` is refused; a
/// live one is stored like any registration, the password hashed so
/// that the stored hash verifies it.
pub fn registration_by_token(store: &mut Store, user: JwtUser, now: u64) -> (r: Result<
    (),
    ApiError,
>)
    requires
        old(store).wf(),
        user.password is Some,
    ensures
        final(store).wf(),
        user.exp < now ==> r == Err::<(), ApiError>(ApiError::Unauthorized) && *final(store)
            == *old(store),
        r matches Err(e) && e == ApiError::Unauthorized ==> user.exp < now,
        user.exp >= now ==> (r == Err::<(), ApiError>(ApiError::DatabaseError) <==> identity_taken(
            old(store).users@,
            user.username@,
            user.email@,
            opt_view(user.phone_number),
            None,
        ) || old(store).next_user_id == i32::MAX),
        user.exp >= now ==> (r matches Ok(_) ==> final(store).users@.len() == old(
            store,
        ).users@.len() + 1 && final(store).users@.drop_last() == old(store).users@ && {
            let u = final(store).users@.last();
            &&& u.id == old(store).next_user_id
            &&& u.username == user.username
            &&& u.email == user.email
            &&& u.first_name == user.first_name
            &&& u.last_name == user.last_name
            &&& u.phone_number == user.phone_number
            &&& u.role is Some
            &&& u.role->0@ == (if user.role is Some {
                user.role->0@
            } else {
                "USER"@
            })
            &&& bcrypt_verifies(user.password->0@, u.password_hash@)
            &&& bcrypt_hash_parses(u.password_hash@)
        }),
        r is Err ==> *final(store) == *old(store),
{
    if user.exp < now {
        return Err(ApiError::Unauthorized);
    }
    let result = registration(
        store,
        TempUser {
            username: user.username,
            email: user.email,
            password: user.password,
            first_name: user.first_name,
            last_name: user.last_name,
            phone_number: user.phone_number,
            role: user.role,
            address: user.address,
        },
    );
    result
}

/// Changes the authenticated user's password: both passwords must be
/// present, the account must exist, and the old password must verify
/// against the stored hash; then only the stored hash changes, and
/// the new stored hash verifies the new password. `Unauthorized`
/// comes exactly for a missing account or a failed check; an internal
/// error is left only for the hashing library's own failures.
pub fn update_password(
    store: &mut Store,
    claims: Claims,
    old_password: Option<String>,
    new_password: Option<String>,
) -> (r: Result<(), ApiError>)
    requires
        old(store).wf(),
    ensures
        final(store).wf(),
        old_password is None || new_password is None ==> r == Err::<(), ApiError>(
            ApiError::BadRequest,
        ),
        match r {
            Ok(_) => {
                &&& old_password is Some && new_password is Some
                &&& has_user(old(store).users@, claims.sub)
                &&& {
                    let t = user_index(old(store).users@, claims.sub);
                    let u = final(store).users@[t];
                    let pre = old(store).users@[t];
                    &&& bcrypt_hash_parses(pre.password_hash@)
                    &&& bcrypt_verifies(old_password->0@, pre.password_hash@)
                    &&& bcrypt_verifies(new_password->0@, u.password_hash@)
                    &&& bcrypt_hash_parses(u.password_hash@)
                    &&& final(store).users@.len() == old(store).users@.len()
                    &&& (forall|k: int|
                        0 <= k < final(store).users@.len() && k != t ==> final(store).users@[k]
                            == old(store).users@[k])
                    &&& u.id == pre.id
                    &&& u.username == pre.username
                    &&& u.email == pre.email
                    &&& u.first_name == pre.first_name
                    &&& u.last_name == pre.last_name
                    &&& u.phone_number == pre.phone_number
                    &&& u.address == pre.address
                    &&& u.role == pre.role
                }
                &&& final(store).next_user_id == old(store).next_user_id
                &&& final(store).catalog_unchanged(*old(store))
                &&& final(store).orders_unchanged(*old(store))
            },
            Err(e) => {
                let u = old(store).users@[user_index(old(store).users@, claims.sub)];
                &&& *final(store) == *old(store)
                &&& (e == ApiError::BadRequest <==> old_password is None || new_password is None)
                &&& (e == ApiError::Unauthorized <==> old_password is Some && new_password is Some
                    && (!has_user(old(store).users@, claims.sub) || (has_user(
                    old(store).users@,
                    claims.sub,
                ) && bcrypt_hash_parses(u.password_hash@) && !bcrypt_verifies(
                    old_password->0@,
                    u.password_hash@,
                ))))
                &&& (e == ApiError::InternalServerError ==> old_password is Some && new_password
                    is Some && has_user(old(store).users@, claims.sub) && (!bcrypt_hash_parses(
                    u.password_hash@,
                ) || bcrypt_verifies(old_password->0@, u.password_hash@)))
            },
        },
{
    let old_password = match old_password {
        Some(p) => p,
        None => {
            return Err(ApiError::BadRequest);
        },
    };
    let new_password = match new_password {
        Some(p) => p,
        None => {
            return Err(ApiError::BadRequest);
        },
    };
    let j = match store.find_user(claims.sub) {
        Some(j) => j,
        None => {
            return Err(ApiError::Unauthorized);
        },
    };
    proof {
        let t = user_index(store.users@, claims.sub);
        if t != j as int {
            assert(store.users@[t].id == store.users@[j as int].id);
        }
    }
    let is_valid = match bcrypt_verify(
        old_password.as_str(),
        store.users[j].password_hash.as_str(),
    ) {
        Ok(b) => b,
        Err(_) => {
            return Err(ApiError::InternalServerError);
        },
    };
    if !is_valid {
        return Err(ApiError::Unauthorized);
    }
    let new_password_hash = match bcrypt_hash(new_password.as_str()) {
        Ok(h) => h,
        Err(_) => {
            return Err(ApiError::InternalServerError);
        },
    };
    store.users[j].password_hash = new_password_hash;
    proof {
        assert forall|a: int, b: int| 0 <= a < b < store.users@.len() implies {
            let x = #[trigger] store.users@[a];
            let y = #[trigger] store.users@[b];
            x.id != y.id && x.username@ != y.username@ && x.email@ != y.email@ && !(x.phone_number
                is Some && y.phone_number is Some && x.phone_number->0@ == y.phone_number->0@)
        } by {
            let pre = old(store).users@;
            assert(store.users@[a].username@ == pre[a].username@ && store.users@[b].username@
                == pre[b].username@);
            assert(store.users@[a].email@ == pre[a].email@ && store.users@[b].email@
                == pre[b].email@);
        }
        assert(crate::store::users_wf(store.users@, store.next_user_id));
    }
    Ok(())
}

} // verus!
