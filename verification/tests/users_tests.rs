use auth_service::users::{Users, UsersImpl};

#[test]
fn should_create_user() {
    let mut user_service = UsersImpl::default();
    user_service
        .create_user("username".to_owned(), "password".to_owned())
        .expect("should create user");

    assert_eq!(user_service.user_count(), 1);
}

#[test]
fn should_fail_creating_user_with_existing_username() {
    let mut user_service = UsersImpl::default();
    user_service
        .create_user("username".to_owned(), "password".to_owned())
        .expect("should create user");

    let result = user_service.create_user("username".to_owned(), "password".to_owned());

    assert!(result.is_err());
}

#[test]
fn should_retrieve_user_uuid() {
    let mut user_service = UsersImpl::default();
    user_service
        .create_user("username".to_owned(), "password".to_owned())
        .expect("should create user");

    assert!(user_service
        .get_user_uuid("username".to_owned(), "password".to_owned())
        .is_some());
}

#[test]
fn should_fail_to_retrieve_user_uuid_with_incorrect_password() {
    let mut user_service = UsersImpl::default();
    user_service
        .create_user("username".to_owned(), "password".to_owned())
        .expect("should create user");

    assert!(user_service
        .get_user_uuid("username".to_owned(), "incorrect password".to_owned())
        .is_none());
}

#[test]
fn should_delete_user() {
    let mut user_service = UsersImpl::default();
    user_service
        .create_user("username".to_owned(), "password".to_owned())
        .expect("should create user");

    let user_uuid = user_service
        .get_user_uuid("username".to_owned(), "password".to_owned())
        .unwrap();

    user_service.delete_user(user_uuid);

    assert_eq!(user_service.user_count(), 0);
}

#[test]
fn duplicate_username_reports_the_exact_error() {
    let mut user_service = UsersImpl::default();
    user_service
        .create_user("username".to_owned(), "password".to_owned())
        .expect("should create user");

    let result = user_service.create_user("username".to_owned(), "another password".to_owned());

    assert_eq!(result.unwrap_err(), "Username already exists.");
}

#[test]
fn unknown_username_is_indistinguishable_from_wrong_password() {
    let mut user_service = UsersImpl::default();
    user_service
        .create_user("username".to_owned(), "password".to_owned())
        .expect("should create user");

    let unknown = user_service.get_user_uuid("no such user".to_owned(), "password".to_owned());
    let wrong = user_service.get_user_uuid("username".to_owned(), "wrong".to_owned());

    assert_eq!(unknown, None);
    assert_eq!(wrong, None);
    assert_eq!(unknown, wrong);
}

#[test]
fn authenticate_returns_the_allocated_account_id() {
    let mut user_service = UsersImpl::default();
    user_service
        .create_user("username".to_owned(), "password".to_owned())
        .expect("should create user");

    let first = user_service
        .get_user_uuid("username".to_owned(), "password".to_owned())
        .unwrap();
    let second = user_service
        .get_user_uuid("username".to_owned(), "password".to_owned())
        .unwrap();

    assert_eq!(first, second);
}

#[test]
fn deleted_account_resolves_in_neither_view_and_delete_is_idempotent() {
    let mut user_service = UsersImpl::default();
    user_service
        .create_user("one".to_owned(), "pw-one".to_owned())
        .expect("should create user");
    user_service
        .create_user("two".to_owned(), "pw-two".to_owned())
        .expect("should create user");

    let uuid_one = user_service
        .get_user_uuid("one".to_owned(), "pw-one".to_owned())
        .unwrap();

    user_service.delete_user(uuid_one.clone());
    assert_eq!(user_service.user_count(), 1);
    assert!(user_service
        .get_user_uuid("one".to_owned(), "pw-one".to_owned())
        .is_none());

    user_service.delete_user(uuid_one);
    assert_eq!(user_service.user_count(), 1);
    assert!(user_service
        .get_user_uuid("two".to_owned(), "pw-two".to_owned())
        .is_some());
}
