use auth_service::sessions::{Sessions, SessionsImpl};

#[test]
fn should_create_session() {
    let mut session_service = SessionsImpl::default();
    assert_eq!(session_service.session_count(), 0);
    let session = session_service.create_session("123456");
    assert_eq!(session_service.session_count(), 1);
    assert_eq!(session_service.is_valid(&session).unwrap(), "123456");
}

#[test]
fn should_delete_session() {
    let mut session_service = SessionsImpl::default();
    let session = session_service.create_session("123456");
    session_service.delete_session(&session);
    assert_eq!(session_service.session_count(), 0);
}

#[test]
fn session_round_trip() {
    let mut session_service = SessionsImpl::default();
    let token = session_service.create_session("account-1");
    assert_eq!(session_service.is_valid(&token), Some("account-1".to_string()));
    session_service.delete_session(&token);
    assert_eq!(session_service.is_valid(&token), None);
}

#[test]
fn revoking_unknown_token_is_a_noop() {
    let mut session_service = SessionsImpl::default();
    let token = session_service.create_session("account-1");
    session_service.delete_session("no-such-token");
    assert_eq!(session_service.session_count(), 1);
    assert_eq!(session_service.is_valid(&token), Some("account-1".to_string()));
}

#[test]
fn revoking_twice_never_affects_other_tokens() {
    let mut session_service = SessionsImpl::default();
    let token_a = session_service.create_session("account-1");
    let token_b = session_service.create_session("account-2");
    session_service.delete_session(&token_a);
    assert_eq!(session_service.is_valid(&token_a), None);
    assert_eq!(session_service.is_valid(&token_b), Some("account-2".to_string()));
    session_service.delete_session(&token_a);
    assert_eq!(session_service.is_valid(&token_a), None);
    assert_eq!(session_service.is_valid(&token_b), Some("account-2".to_string()));
}

#[test]
fn two_sessions_for_one_account_are_distinct_and_both_valid() {
    let mut session_service = SessionsImpl::default();
    let first = session_service.create_session("account-1");
    let second = session_service.create_session("account-1");
    assert_ne!(first, second);
    assert_eq!(session_service.is_valid(&first), Some("account-1".to_string()));
    assert_eq!(session_service.is_valid(&second), Some("account-1".to_string()));
    session_service.delete_session(&first);
    assert_eq!(session_service.is_valid(&first), None);
    assert_eq!(session_service.is_valid(&second), Some("account-1".to_string()));
    session_service.delete_session(&second);
    assert_eq!(session_service.is_valid(&second), None);
}

#[test]
fn tokens_are_hyphenated_identifiers() {
    let mut session_service = SessionsImpl::default();
    let token = session_service.create_session("account-1");
    assert_eq!(token.len(), 36);
}
