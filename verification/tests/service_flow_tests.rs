//! The full sign-up / sign-in / sign-out flow, as the request-handling layer
//! drives the two directories.

use auth_service::sessions::{Sessions, SessionsImpl};
use auth_service::users::{Users, UsersImpl};

#[test]
fn sign_in_sign_out_scenario() {
    let mut users = UsersImpl::default();
    let mut sessions = SessionsImpl::default();

    // Sign up.
    users
        .create_user("alice".to_owned(), "pw1".to_owned())
        .expect("should create user");

    // Sign in: verify the credentials, then mint a token.
    let account_id = users
        .get_user_uuid("alice".to_owned(), "pw1".to_owned())
        .expect("credentials should resolve");
    let token = sessions.create_session(&account_id);
    assert_eq!(sessions.is_valid(&token), Some(account_id.clone()));

    // Sign out.
    sessions.delete_session(&token);
    assert_eq!(sessions.is_valid(&token), None);

    // Sign in again: same credentials still work and mint a fresh token.
    let account_id_again = users
        .get_user_uuid("alice".to_owned(), "pw1".to_owned())
        .expect("credentials should still resolve");
    assert_eq!(account_id_again, account_id);
    let second_token = sessions.create_session(&account_id_again);
    assert_ne!(second_token, token);
    assert_eq!(sessions.is_valid(&second_token), Some(account_id));
    assert_eq!(sessions.is_valid(&token), None);
}
