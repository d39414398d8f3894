//! Accounts: argon2id password hashing and checking, and the rules of the
//! authentication service — minimum password length, registration under
//! the instance policy (the first account bootstraps as administrator),
//! login checks, and the guard that keeps the last administrator.

use argon2::password_hash::rand_core::OsRng;
use argon2::password_hash::{PasswordHash, PasswordHasher, PasswordVerifier, SaltString};
use vstd::prelude::*;
use vstd::string::StringSliceAdditionalSpecFns;

use crate::entities::{RegistrationPolicy, Role, User, UserStatus};
use crate::errors::StorageError;

verus! {

// --- Password hashing --------------------------------------------------------

/// Whether `argon2` accepts `plain` against the PHC hash string `phc`
/// (`PasswordHash::new` then `Argon2::verify_password`). The result is a
/// function of the two texts.
pub uninterp spec fn argon2_accepts(plain: Seq<char>, phc: Seq<char>) -> bool;

/// Hashing failure.
#[derive(Debug, Clone, PartialEq, Eq)]
pub enum PasswordError {
    /// The hasher refused the input, with its message.
    Hash(String),
}

/// `Argon2::default().hash_password` with a fresh random salt
/// (`SaltString::generate(&mut OsRng)`), rendered as a PHC string. The
/// salt is random, so of the hash only what holds of every outcome is
/// stated: a PHC string of the `argon2id` algorithm that `verify_password`
/// accepts for the same plaintext. With the default parameters and the
/// 16-byte generated salt, hashing fails only for a password longer than
/// `0xFFFF_FFFF` bytes (`verify_inputs`, `MAX_PWD_LEN`).
#[verifier::external_body]
fn argon2_hash(plain: &str) -> (r: Result<String, String>)
    ensures
        plain.spec_bytes().len() <= 0xffff_ffff ==> r is Ok,
        r is Ok ==> argon2_accepts(plain@, r->Ok_0@),
        r is Ok ==> "$argon2id$"@.is_prefix_of(r->Ok_0@),
{
    let salt = SaltString::generate(&mut OsRng);
    argon2::Argon2::default().hash_password(plain.as_bytes(), &salt).map(|h| h.to_string()).map_err(
        |e| e.to_string(),
    )
}

/// `PasswordHash::new(phc)` then `Argon2::default().verify_password`:
/// `false` when the hash is unreadable or does not match.
#[verifier::external_body]
fn argon2_check(plain: &str, phc: &str) -> (r: bool)
    ensures
        r == argon2_accepts(plain@, phc@),
{
    match PasswordHash::new(phc) {
        Ok(parsed) => argon2::Argon2::default().verify_password(plain.as_bytes(), &parsed).is_ok(),
        Err(_) => false,
    }
}

/// What hashing answers for what the hasher returned: the PHC string
/// itself, or its failure message as [`PasswordError::Hash`].
pub fn hash_outcome(outcome: Result<String, String>) -> (r: Result<String, PasswordError>)
    ensures
        match outcome {
            Ok(h) => r matches Ok(x) && x@ == h@,
            Err(e) => r matches Err(PasswordError::Hash(m)) && m@ == e@,
        },
{
    match outcome {
        Ok(h) => Ok(h),
        Err(e) => Err(PasswordError::Hash(e)),
    }
}

/// Hashes a password with argon2id (random salt, PHC format). A hash it
/// returns is accepted by [`verify_password`] for the same password. The
/// plaintext is handed to the hasher unchanged; it succeeds for every
/// password of at most `0xFFFF_FFFF` bytes (see [`hash_outcome`] for how the
/// hasher's answer is reported).
pub fn hash_password(plaintext: &str) -> (r: Result<String, PasswordError>)
    ensures
        plaintext.spec_bytes().len() <= 0xffff_ffff ==> r is Ok,
        r is Ok ==> argon2_accepts(plaintext@, r->Ok_0@),
        r is Ok ==> "$argon2id$"@.is_prefix_of(r->Ok_0@),
{
    hash_outcome(argon2_hash(plaintext))
}

/// Checks a password against a PHC hash; `false` for an unreadable hash or
/// a wrong password (never an error).
pub fn verify_password(plaintext: &str, phc_hash: &str) -> (r: bool)
    ensures
        r == argon2_accepts(plaintext@, phc_hash@),
{
    argon2_check(plaintext, phc_hash)
}

// --- Service rules -----------------------------------------------------------

/// Authentication failure.
#[derive(Debug, Clone, PartialEq, Eq)]
pub enum AuthError {
    /// Password shorter than 8 bytes.
    WeakPassword,
    /// E-mail already in use.
    EmailTaken,
    /// Registration is closed.
    RegistrationClosed,
    /// Missing, invalid or expired invitation.
    InvalidInvitation,
    /// Unknown e-mail or wrong password.
    InvalidCredentials,
    /// Account disabled.
    AccountDisabled,
    /// Account not found.
    NotFound,
    /// The last administrator cannot be removed.
    LastAdmin,
    /// Hashing failure.
    Password(PasswordError),
    /// Storage failure, with its message.
    Storage(String),
}

impl AuthError {
    /// Storage error seen while creating an account: a uniqueness conflict
    /// is a taken e-mail, anything else a storage failure with its message.
    pub fn from_storage(e: StorageError) -> (r: AuthError)
        ensures
            match e {
                StorageError::Conflict(_) => r == AuthError::EmailTaken,
                _ => r matches AuthError::Storage(m) && m@ == e.spec_message(),
            },
    {
        match e {
            StorageError::Conflict(_) => AuthError::EmailTaken,
            other => AuthError::Storage(other.message()),
        }
    }

    /// Storage error seen while loading an account by id: `NotFound` stays
    /// `NotFound`, anything else is a storage failure with its message.
    pub fn from_lookup(e: StorageError) -> (r: AuthError)
        ensures
            match e {
                StorageError::NotFound => r == AuthError::NotFound,
                _ => r matches AuthError::Storage(m) && m@ == e.spec_message(),
            },
    {
        match e {
            StorageError::NotFound => AuthError::NotFound,
            other => AuthError::Storage(other.message()),
        }
    }
}

/// Minimum password length, in bytes.
pub const MIN_PASSWORD_LEN: usize = 8;

/// Rejects a password shorter than 8 bytes.
pub fn check_password_strength(password: &str) -> (r: Result<(), AuthError>)
    ensures
        r is Ok <==> password.len() >= 8,
        r is Err ==> r == Err::<(), AuthError>(AuthError::WeakPassword),
{
    if password.len() < MIN_PASSWORD_LEN {
        Err(AuthError::WeakPassword)
    } else {
        Ok(())
    }
}

/// Data of a new account (the argon2 hash is computed here).
#[derive(Debug, Clone, PartialEq, Eq)]
pub struct NewUser {
    pub email: String,
    pub password_hash: String,
    pub role: Role,
}

/// Prepares a new account: checks the password length, then hashes it.
pub fn prepare_account(email: &str, password: &str, role: Role) -> (r: Result<NewUser, AuthError>)
    ensures
        password.len() < 8 ==> r == Err::<NewUser, AuthError>(
            AuthError::WeakPassword,
        ),
        (r matches Err(AuthError::WeakPassword)) <==> password.len() < 8,
        password.len() >= 8 && password.spec_bytes().len() <= 0xffff_ffff ==> r is Ok,
        r is Ok ==> r->Ok_0.email@ == email@ && r->Ok_0.role == role && argon2_accepts(
            password@,
            r->Ok_0.password_hash@,
        ),
        r is Err ==> (r->Err_0 == AuthError::WeakPassword || r->Err_0 is Password),
{
    check_password_strength(password)?;
    match hash_password(password) {
        Ok(h) => Ok(NewUser { email: email.to_owned(), password_hash: h, role }),
        Err(e) => Err(AuthError::Password(e)),
    }
}

/// How a registration proceeds once the password is accepted.
#[derive(Debug, Clone, PartialEq, Eq)]
pub enum RegistrationStep {
    /// First account of the instance: administrator, policy bypassed.
    Bootstrap,
    /// Open registration: ordinary user.
    Open,
    /// Invitation policy: the token must be redeemed first.
    RedeemInvitation(String),
}

/// Registration decision from the number of existing accounts, the
/// instance policy and the invitation token: the first account bootstraps;
/// then `open` admits, `closed` refuses, `invite` needs a token to redeem.
pub fn registration_step(
    existing_accounts: i64,
    policy: RegistrationPolicy,
    invite_token: Option<&str>,
) -> (r: Result<RegistrationStep, AuthError>)
    ensures
        existing_accounts == 0 ==> r == Ok::<RegistrationStep, AuthError>(
            RegistrationStep::Bootstrap,
        ),
        existing_accounts != 0 ==> match policy {
            RegistrationPolicy::Open => r == Ok::<RegistrationStep, AuthError>(
                RegistrationStep::Open,
            ),
            RegistrationPolicy::Closed => r == Err::<RegistrationStep, AuthError>(
                AuthError::RegistrationClosed,
            ),
            RegistrationPolicy::Invite => match invite_token {
                None => r == Err::<RegistrationStep, AuthError>(AuthError::InvalidInvitation),
                Some(t) => r matches Ok(RegistrationStep::RedeemInvitation(s)) && s@ == t@,
            },
        },
{
    if existing_accounts == 0 {
        return Ok(RegistrationStep::Bootstrap);
    }
    match policy {
        RegistrationPolicy::Open => Ok(RegistrationStep::Open),
        RegistrationPolicy::Closed => Err(AuthError::RegistrationClosed),
        RegistrationPolicy::Invite => match invite_token {
            None => Err(AuthError::InvalidInvitation),
            Some(t) => Ok(RegistrationStep::RedeemInvitation(t.to_owned())),
        },
    }
}

/// Role granted by a registration step: only the bootstrap account is an
/// administrator.
pub fn registration_role(step: &RegistrationStep) -> (r: Role)
    ensures
        r == (if *step == RegistrationStep::Bootstrap {
            Role::Admin
        } else {
            Role::User
        }),
{
    match step {
        RegistrationStep::Bootstrap => Role::Admin,
        _ => Role::User,
    }
}

/// Number of administrators among `users`.
pub open spec fn admins_in(users: Seq<User>) -> nat
    decreases users.len(),
{
    if users.len() == 0 {
        0
    } else {
        admins_in(users.drop_last()) + if users.last().role == Role::Admin {
            1nat
        } else {
            0nat
        }
    }
}

/// Counts the administrators of a user list.
pub fn count_admins(users: &Vec<User>) -> (r: usize)
    ensures
        r == admins_in(users@),
{
    let mut n: usize = 0;
    let mut i: usize = 0;
    while i < users.len()
        invariant
            i <= users.len(),
            n == admins_in(users@.take(i as int)),
            n <= i,
        decreases users.len() - i,
    {
        assert(users@.take(i + 1).drop_last() =~= users@.take(i as int));
        if users[i].role == Role::Admin {
            n = n + 1;
        }
        i = i + 1;
    }
    assert(users@.take(users.len() as int) =~= users@);
    n
}

/// Account deletion guard: an administrator can be removed only while
/// another administrator remains.
pub fn check_deletion(target: &User, admins: usize) -> (r: Result<(), AuthError>)
    ensures
        r is Err <==> (target.role == Role::Admin && admins <= 1),
        r is Err ==> r == Err::<(), AuthError>(AuthError::LastAdmin),
{
    if target.role == Role::Admin && admins <= 1 {
        Err(AuthError::LastAdmin)
    } else {
        Ok(())
    }
}

/// Login check of the account found for an e-mail: unknown e-mail or
/// wrong password → `InvalidCredentials`; disabled account →
/// `AccountDisabled`; otherwise the account.
pub fn check_login(found: Option<User>, password: &str) -> (r: Result<User, AuthError>)
    ensures
        match found {
            None => r == Err::<User, AuthError>(AuthError::InvalidCredentials),
            Some(u) => if !argon2_accepts(password@, u.password_hash@) {
                r == Err::<User, AuthError>(AuthError::InvalidCredentials)
            } else if u.status == UserStatus::Disabled {
                r == Err::<User, AuthError>(AuthError::AccountDisabled)
            } else {
                r == Ok::<User, AuthError>(u)
            },
        },
{
    let user = match found {
        None => return Err(AuthError::InvalidCredentials),
        Some(u) => u,
    };
    if !verify_password(password, user.password_hash.as_str()) {
        return Err(AuthError::InvalidCredentials);
    }
    if user.status == UserStatus::Disabled {
        return Err(AuthError::AccountDisabled);
    }
    Ok(user)
}

/// Validity of a new invitation in days: at least one day.
pub fn invitation_validity_days(valid_days: i64) -> (r: i64)
    ensures
        r == (if valid_days < 1 {
            1
        } else {
            valid_days
        }),
{
    if valid_days < 1 {
        1
    } else {
        valid_days
    }
}

} // verus!
