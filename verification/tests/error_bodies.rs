use bublik::errors::{ErrorParam, ValidationError};

#[test]
fn codes_are_upper_snake_case() {
    assert_eq!(ValidationError::Unknown.code(), "UNKNOWN");
    assert_eq!(
        ValidationError::MinLength { field: "firstName".to_string(), min: 3 }.code(),
        "MIN_LENGTH"
    );
    assert_eq!(
        ValidationError::MaxLength { field: "firstName".to_string(), max: 64 }.code(),
        "MAX_LENGTH"
    );
    assert_eq!(
        ValidationError::Pattern {
            field: "number".to_string(),
            value: "12a3".to_string()
        }
        .code(),
        "PATTERN"
    );
    assert_eq!(
        ValidationError::EntityNotExists("User".to_string()).code(),
        "ENTITY_NOT_EXISTS"
    );
    assert_eq!(
        ValidationError::UserEmailAlreadyExists("a@mail.com".to_string()).code(),
        "USER_EMAIL_ALREADY_EXISTS"
    );
    assert_eq!(
        ValidationError::CardNumberAlreadyExists("411".to_string()).code(),
        "CARD_NUMBER_ALREADY_EXISTS"
    );
}

#[test]
fn every_kind_is_a_client_error() {
    assert_eq!(ValidationError::Unknown.status(), 400);
    assert_eq!(
        ValidationError::EntityNotExists("Bank".to_string()).status(),
        400
    );
}

#[test]
fn unknown_kind_has_no_parameters() {
    assert_eq!(ValidationError::Unknown.parameters(), None);
    let body = ValidationError::Unknown.as_response();
    assert_eq!(body.code, "UNKNOWN");
    assert_eq!(body.parameters, None);
}

#[test]
fn parameters_are_positional() {
    let e = ValidationError::MinLength { field: "firstName".to_string(), min: 3 };
    assert_eq!(
        e.parameters(),
        Some(vec![
            Some(ErrorParam::Str("firstName".to_string())),
            Some(ErrorParam::Num(3)),
        ])
    );
    let e = ValidationError::Pattern {
        field: "number".to_string(),
        value: "12a3".to_string(),
    };
    assert_eq!(
        e.parameters(),
        Some(vec![
            Some(ErrorParam::Str("number".to_string())),
            Some(ErrorParam::Str("12a3".to_string())),
        ])
    );
}

#[test]
fn not_exists_body_carries_the_entity_name() {
    let body = ValidationError::EntityNotExists("User".to_string()).as_response();
    assert_eq!(body.code, "ENTITY_NOT_EXISTS");
    assert_eq!(
        body.parameters,
        Some(vec![Some(ErrorParam::Str("User".to_string()))])
    );
}

#[test]
fn conflict_bodies_carry_the_offending_value() {
    let body = ValidationError::UserEmailAlreadyExists("a@mail.com".to_string()).as_response();
    assert_eq!(body.code, "USER_EMAIL_ALREADY_EXISTS");
    assert_eq!(
        body.parameters,
        Some(vec![Some(ErrorParam::Str("a@mail.com".to_string()))])
    );
    let body = ValidationError::CardNumberAlreadyExists("411".to_string()).as_response();
    assert_eq!(body.code, "CARD_NUMBER_ALREADY_EXISTS");
    assert_eq!(
        body.parameters,
        Some(vec![Some(ErrorParam::Str("411".to_string()))])
    );
}
