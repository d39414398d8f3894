use backend::auth::{hash_outcome, PasswordError};
use backend::auth::{
    check_deletion, check_login, check_password_strength, count_admins, hash_password,
    invitation_validity_days, prepare_account, registration_role, registration_step,
    verify_password, AuthError, RegistrationStep,
};
use backend::entities::{RegistrationPolicy, Role, User, UserStatus};
use backend::errors::StorageError;
use backend::ids::UserId;

fn user(role: Role, status: UserStatus, password: &str) -> User {
    User {
        id: UserId::new(),
        email: "a@example.org".to_string(),
        password_hash: hash_password(password).unwrap(),
        role,
        status,
        created_at_unix_ns: 0,
        updated_at_unix_ns: 0,
    }
}

#[test]
fn hash_is_argon2id_and_never_contains_the_plaintext() {
    let hash = hash_password("correct horse battery").unwrap();
    assert!(hash.starts_with("$argon2id$"));
    assert!(!hash.contains("correct horse battery"));
}

#[test]
fn verify_accepts_the_right_password_and_rejects_others() {
    let hash = hash_password("s3cret-pass").unwrap();
    assert!(verify_password("s3cret-pass", &hash));
    assert!(!verify_password("wrong", &hash));
    assert!(!verify_password("s3cret-pass", "pas-un-hash"));
}

#[test]
fn same_password_yields_distinct_hashes() {
    let a = hash_password("identique").unwrap();
    let b = hash_password("identique").unwrap();
    assert_ne!(a, b);
}

#[test]
fn short_passwords_are_refused() {
    assert_eq!(check_password_strength("1234567"), Err(AuthError::WeakPassword));
    assert_eq!(check_password_strength("12345678"), Ok(()));
    assert!(matches!(
        prepare_account("a@b.c", "short", Role::User),
        Err(AuthError::WeakPassword)
    ));
    let account = prepare_account("a@b.c", "long enough", Role::Admin).unwrap();
    assert_eq!(account.email, "a@b.c");
    assert_eq!(account.role, Role::Admin);
    assert!(verify_password("long enough", &account.password_hash));
}

#[test]
fn first_account_bootstraps_as_administrator() {
    let step = registration_step(0, RegistrationPolicy::Closed, None).unwrap();
    assert_eq!(step, RegistrationStep::Bootstrap);
    assert_eq!(registration_role(&step), Role::Admin);
}

#[test]
fn registration_follows_the_instance_policy() {
    assert_eq!(
        registration_step(3, RegistrationPolicy::Open, None),
        Ok(RegistrationStep::Open)
    );
    assert_eq!(registration_role(&RegistrationStep::Open), Role::User);
    assert_eq!(
        registration_step(3, RegistrationPolicy::Closed, Some("tok")),
        Err(AuthError::RegistrationClosed)
    );
    assert_eq!(
        registration_step(3, RegistrationPolicy::Invite, None),
        Err(AuthError::InvalidInvitation)
    );
    assert_eq!(
        registration_step(3, RegistrationPolicy::Invite, Some("tok")),
        Ok(RegistrationStep::RedeemInvitation("tok".to_string()))
    );
}

#[test]
fn the_last_administrator_cannot_be_deleted() {
    let admin = user(Role::Admin, UserStatus::Active, "password1");
    let other = user(Role::User, UserStatus::Active, "password2");
    let users = vec![admin.clone(), other.clone()];
    assert_eq!(count_admins(&users), 1);
    assert_eq!(check_deletion(&admin, 1), Err(AuthError::LastAdmin));
    assert_eq!(check_deletion(&admin, 2), Ok(()));
    assert_eq!(check_deletion(&other, 1), Ok(()));
}

#[test]
fn login_checks_password_then_status() {
    let active = user(Role::User, UserStatus::Active, "password1");
    assert_eq!(check_login(None, "password1"), Err(AuthError::InvalidCredentials));
    assert_eq!(
        check_login(Some(active.clone()), "wrong-password"),
        Err(AuthError::InvalidCredentials)
    );
    assert_eq!(check_login(Some(active.clone()), "password1"), Ok(active));
    let disabled = user(Role::User, UserStatus::Disabled, "password1");
    assert_eq!(
        check_login(Some(disabled), "password1"),
        Err(AuthError::AccountDisabled)
    );
}

#[test]
fn storage_errors_map_to_auth_errors() {
    assert_eq!(AuthError::from_lookup(StorageError::NotFound), AuthError::NotFound);
    assert_eq!(
        AuthError::from_storage(StorageError::Conflict("email".to_string())),
        AuthError::EmailTaken
    );
    match AuthError::from_storage(StorageError::Backend("disque".to_string())) {
        AuthError::Storage(m) => assert_eq!(m, "erreur de stockage : disque"),
        other => panic!("{other:?}"),
    }
}

#[test]
fn invitations_last_at_least_one_day() {
    assert_eq!(invitation_validity_days(0), 1);
    assert_eq!(invitation_validity_days(-5), 1);
    assert_eq!(invitation_validity_days(7), 7);
}

#[test]
fn hash_outcome_keeps_the_hash_or_the_message() {
    assert_eq!(hash_outcome(Ok("$argon2id$x".to_string())), Ok("$argon2id$x".to_string()));
    assert_eq!(
        hash_outcome(Err("password too long".to_string())),
        Err(PasswordError::Hash("password too long".to_string()))
    );
}
