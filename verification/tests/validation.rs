use bublik::errors::ValidationError;
use bublik::date::Date;
use bublik::user::{CreateUser, UserType};
use bublik::card::{CardType, CreateCard};
use bublik::bank::CreateBank;

fn user_payload(first: &str, last: &str, email: &str, phone: &str) -> CreateUser {
    CreateUser {
        first_name: first.to_string(),
        last_name: last.to_string(),
        email: email.to_string(),
        phone: phone.to_string(),
        birthday: Date::new(1990, 4, 12),
        user_type: UserType::Customer,
    }
}

fn card_payload(number: &str, expiration: &str, owner: &str) -> CreateCard {
    CreateCard {
        card_type: CardType::Visa,
        number: number.to_string(),
        expiration: expiration.to_string(),
        owner: owner.to_string(),
    }
}

fn bank_payload(country: &str, city: &str, zipcode: &str, street: &str, building: &str) -> CreateBank {
    CreateBank {
        country: country.to_string(),
        city: city.to_string(),
        zipcode: zipcode.to_string(),
        street: street.to_string(),
        building_number: building.to_string(),
    }
}

#[test]
fn valid_user_passes_and_is_trimmed() {
    let mut p = user_payload("  Alice ", "Smith", " alice@mail.com ", " 123456 ");
    assert!(p.validate().is_ok());
    assert_eq!(p.first_name, "Alice");
    assert_eq!(p.last_name, "Smith");
    assert_eq!(p.email, "alice@mail.com");
    assert_eq!(p.phone, "123456");
}

#[test]
fn short_first_name_fails_min_length() {
    let mut p = user_payload("Al", "Smith", "al@mail.com", "123456");
    let e = p.validate().unwrap_err();
    assert_eq!(
        e,
        ValidationError::MinLength { field: "firstName".to_string(), min: 3 }
    );
    // every field is still trimmed when validation fails
    let mut p2 = user_payload("Al", "  Smith  ", "al@mail.com", "123456");
    assert!(p2.validate().is_err());
    assert_eq!(p2.last_name, "Smith");
}

#[test]
fn long_field_fails_max_length() {
    let long = "x".repeat(65);
    let mut p = user_payload(&long, "Smith", "al@mail.com", "123456");
    let e = p.validate().unwrap_err();
    assert_eq!(
        e,
        ValidationError::MaxLength { field: "firstName".to_string(), max: 64 }
    );
}

#[test]
fn first_violation_wins_in_field_order() {
    // both lastName and phone are too short; lastName is declared first
    let mut p = user_payload("Alice", "S", "alice@mail.com", "1");
    let e = p.validate().unwrap_err();
    assert_eq!(
        e,
        ValidationError::MinLength { field: "lastName".to_string(), min: 3 }
    );
}

#[test]
fn whitespace_only_field_is_too_short() {
    let mut p = user_payload("      ", "Smith", "al@mail.com", "123456");
    let e = p.validate().unwrap_err();
    assert_eq!(
        e,
        ValidationError::MinLength { field: "firstName".to_string(), min: 3 }
    );
}

#[test]
fn email_accepts_common_shapes() {
    for email in [
        "abc@def.gh",
        "a@bc.de",
        "john.doe@mail.example.com",
        "john_doe+tag@my-mail.example.co",
        "x9@a1-b2.c3.museum",
    ] {
        let mut p = user_payload("Alice", "Smith", email, "123456");
        assert!(p.validate().is_ok(), "expected {email:?} to pass");
    }
}

#[test]
fn email_rejects_bad_shapes() {
    for email in [
        "Alice@mail.com",   // upper case local part
        "alice@mail",       // no top-level domain
        "alice@mail.c",     // top-level domain too short
        "alicemail.com",    // no at sign
        ".alice@mail.com",  // local part starts with a dot
        "alice.@mail.com",  // local part ends with a dot
        "alice@-mail.com",  // label starts with a separator
        "alice@ma..il.com", // doubled separator
        "alice@mail.com7",  // trailing digit in the top-level domain
        "al ice@mail.com",  // inner space
    ] {
        let mut p = user_payload("Alice", "Smith", email, "123456");
        let e = p.validate().unwrap_err();
        assert_eq!(
            e,
            ValidationError::Pattern {
                field: "email".to_string(),
                value: email.to_string()
            },
            "expected {email:?} to fail the pattern"
        );
    }
}

#[test]
fn card_number_must_be_digits() {
    let mut p = card_payload("12a3", "12/24", "Alice Smith");
    let e = p.validate().unwrap_err();
    assert_eq!(
        e,
        ValidationError::Pattern { field: "number".to_string(), value: "12a3".to_string() }
    );
}

#[test]
fn card_expiration_shapes() {
    for exp in ["12/24", "01/2027", "0124", "122027"] {
        let mut p = card_payload("4111111111111111", exp, "Alice Smith");
        assert!(p.validate().is_ok(), "expected {exp:?} to pass");
    }
    for exp in ["13/24", "00/24", "1/24", "12-24", "12/245", "12/", "124"] {
        let mut p = card_payload("4111111111111111", exp, "Alice Smith");
        let e = p.validate().unwrap_err();
        assert_eq!(
            e,
            ValidationError::Pattern {
                field: "expiration".to_string(),
                value: exp.to_string()
            },
            "expected {exp:?} to fail the pattern"
        );
    }
}

#[test]
fn bank_building_number_has_own_bounds() {
    let mut ok = bank_payload("Poland", "Warsaw", "00-001", "Main Street", "7");
    assert!(ok.validate().is_ok());
    let mut bad = bank_payload("Poland", "Warsaw", "00-001", "Main Street", "  ");
    let e = bad.validate().unwrap_err();
    assert_eq!(
        e,
        ValidationError::MinLength { field: "buildingNumber".to_string(), min: 1 }
    );
    let mut long = bank_payload("Poland", "Warsaw", "00-001", "Main Street", &"9".repeat(33));
    let e = long.validate().unwrap_err();
    assert_eq!(
        e,
        ValidationError::MaxLength { field: "buildingNumber".to_string(), max: 32 }
    );
}

#[test]
fn field_length_constants() {
    assert_eq!(bublik::user::field_length(), (3, 64));
    assert_eq!(bublik::card::field_length(), (3, 64));
    assert_eq!(bublik::bank::field_length(), (3, 64));
    assert_eq!(bublik::bank::building_field_length(), (1, 32));
}

#[test]
fn unknown_card_type_decodes_to_visa() {
    assert_eq!(CardType::from(99), CardType::Visa);
    assert_eq!(CardType::from(0), CardType::Visa);
    assert_eq!(CardType::from(2), CardType::VisaRetired);
    assert_eq!(CardType::from(5), CardType::AmericanExpress);
}

#[test]
fn unknown_user_type_decodes_to_worker() {
    assert_eq!(UserType::from(99), UserType::Worker);
    assert_eq!(UserType::from(1), UserType::Worker);
    assert_eq!(UserType::from(2), UserType::Manager);
    assert_eq!(UserType::from(3), UserType::Customer);
}

#[test]
fn enum_int_round_trip() {
    for t in [UserType::Worker, UserType::Manager, UserType::Customer] {
        assert_eq!(UserType::from(t.int_value()), t);
    }
    for t in [
        CardType::Visa,
        CardType::VisaRetired,
        CardType::MasterCard,
        CardType::DiscoverCard,
        CardType::AmericanExpress,
    ] {
        assert_eq!(CardType::from(t.int_value()), t);
    }
}

#[test]
fn card_type_labels() {
    assert_eq!(CardType::Visa.label(), "Visa");
    assert_eq!(CardType::VisaRetired.label(), "Visa Retired");
    assert_eq!(CardType::MasterCard.label(), "MasterCard");
    assert_eq!(CardType::DiscoverCard.label(), "Discover Card");
    assert_eq!(CardType::AmericanExpress.label(), "American Express");
}

#[test]
fn date_default_is_epoch() {
    let d = Date::default();
    assert_eq!((d.year, d.month, d.day), (1970, 1, 1));
}
