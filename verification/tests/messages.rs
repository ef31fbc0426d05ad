//! Tests of the error kinds and their detail strings.
use uuid_pool::registry::Registry;
use uuid_pool::token::Token;
use uuid_pool::UuidPoolError;

#[test]
fn exhausted_error_names_the_attempt_count() {
    let mut reg = Registry::new();
    let err = reg.reserve_with("ctx", 64, 0).unwrap_err();
    match &err {
        UuidPoolError::FailedToGenerateUniqueUuidError(msg) => {
            assert_eq!(msg, "Failed to generate unique UUID after 0 attempts");
        },
        other => panic!("wrong error kind: {:?}", other),
    }
    assert_eq!(err.message(), "Failed to generate unique UUID after 0 attempts");
}

#[test]
fn already_present_error_names_context_and_token() {
    let mut reg = Registry::new();
    let t = Token { value: 5 };
    reg.add("ctx", t).unwrap();
    let err = reg.add("ctx", t).unwrap_err();
    let expected = format!(
        "UUID already exists in pool for context 'ctx': {}",
        uuid::Uuid::from_u128(5)
    );
    match &err {
        UuidPoolError::FailedToSetUuidInPoolError(msg) => assert_eq!(msg, &expected),
        other => panic!("wrong error kind: {:?}", other),
    }
}

#[test]
fn remove_error_message_is_fixed() {
    let mut reg = Registry::new();
    let err = reg.remove("ctx", Token { value: 9 }).unwrap_err();
    match &err {
        UuidPoolError::FailedToFindUuidInPoolError(msg) => {
            assert_eq!(msg, "Failed to locate/remove UUID in pool");
        },
        other => panic!("wrong error kind: {:?}", other),
    }
}

#[test]
fn replace_set_failed_error_names_old_token() {
    let mut reg = Registry::new();
    let a = Token { value: 10 };
    let b = Token { value: 20 };
    reg.add("ctx", a).unwrap();
    reg.add("ctx", b).unwrap();
    let err = reg.replace("ctx", a, b).unwrap_err();
    let expected = format!(
        "Failed to find UUID in pool for context 'ctx': {}",
        uuid::Uuid::from_u128(10)
    );
    match &err {
        UuidPoolError::FailedToSetUuidInPoolError(msg) => assert_eq!(msg, &expected),
        other => panic!("wrong error kind: {:?}", other),
    }
}

#[test]
fn replace_not_found_error_names_old_token() {
    let mut reg = Registry::new();
    let a = Token { value: 3 };
    let b = Token { value: 4 };
    let err = reg.replace("ctx", a, b).unwrap_err();
    let expected = format!(
        "Failed to find UUID in pool for context 'ctx': {}",
        uuid::Uuid::from_u128(3)
    );
    match &err {
        UuidPoolError::FailedToFindUuidInPoolError(msg) => assert_eq!(msg, &expected),
        other => panic!("wrong error kind: {:?}", other),
    }
}

#[test]
fn get_error_names_the_context() {
    let reg = Registry::new();
    let err = reg.get("nope").unwrap_err();
    match &err {
        UuidPoolError::FailedToFindUuidInPoolError(msg) => {
            assert_eq!(msg, "Failed to find UUIDs in pool for context 'nope'");
        },
        other => panic!("wrong error kind: {:?}", other),
    }
}
