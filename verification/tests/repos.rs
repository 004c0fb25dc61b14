use bublik::bank::{Bank, BankRepo, CreateBank};
use bublik::browse::Browse;
use bublik::card::{Card, CardRepo, CardType, CreateCard};
use bublik::date::Date;
use bublik::errors::ValidationError;
use bublik::user::{CreateUser, User, UserRepo, UserType};

fn user_payload(first: &str, email: &str) -> CreateUser {
    CreateUser {
        first_name: first.to_string(),
        last_name: "Smith".to_string(),
        email: email.to_string(),
        phone: "123456".to_string(),
        birthday: Date::new(1990, 4, 12),
        user_type: UserType::Customer,
    }
}

fn card_payload(number: &str) -> CreateCard {
    CreateCard {
        card_type: CardType::MasterCard,
        number: number.to_string(),
        expiration: "12/24".to_string(),
        owner: "Alice Smith".to_string(),
    }
}

fn bank_payload(city: &str) -> CreateBank {
    CreateBank {
        country: "Poland".to_string(),
        city: city.to_string(),
        zipcode: "00-001".to_string(),
        street: "Main Street".to_string(),
        building_number: "7".to_string(),
    }
}

#[test]
fn create_then_get_returns_trimmed_payload() {
    let mut repo = UserRepo::new();
    let id = repo
        .create(user_payload("  Alice ", " alice@mail.com "))
        .unwrap();
    assert_eq!(id, 1);
    let u = repo.get(id).unwrap();
    assert_eq!(u.id, 1);
    assert_eq!(u.first_name, "Alice");
    assert_eq!(u.last_name, "Smith");
    assert_eq!(u.email, "alice@mail.com");
    assert_eq!(u.phone, "123456");
    assert_eq!(u.birthday, Date::new(1990, 4, 12));
    assert_eq!(u.user_type, UserType::Customer);
}

#[test]
fn identifiers_strictly_increase() {
    let mut repo = UserRepo::new();
    let a = repo.create(user_payload("Alice", "alice@mail.com")).unwrap();
    let b = repo.create(user_payload("Bobby", "bobby@mail.com")).unwrap();
    let c = repo.create(user_payload("Carol", "carol@mail.com")).unwrap();
    assert!(a < b && b < c);
    // a deleted identifier is never handed out again
    assert!(repo.delete(c).is_ok());
    let d = repo.create(user_payload("David", "david@mail.com")).unwrap();
    assert!(d > c);
}

#[test]
fn delete_then_get_fails_entity_not_exists() {
    let mut repo = UserRepo::new();
    let id = repo.create(user_payload("Alice", "alice@mail.com")).unwrap();
    assert!(repo.delete(id).is_ok());
    let e = repo.get(id).unwrap_err();
    assert_eq!(e, ValidationError::EntityNotExists("User".to_string()));
    // deleting again also fails
    let e = repo.delete(id).unwrap_err();
    assert_eq!(e, ValidationError::EntityNotExists("User".to_string()));
}

#[test]
fn count_tracks_creates_and_deletes() {
    let mut repo = BankRepo::new();
    assert_eq!(repo.count(), 0);
    let mut ids = Vec::new();
    for city in ["Warsaw", "Krakow", "Gdansk", "Poznan"] {
        ids.push(repo.create(bank_payload(city)).unwrap());
    }
    assert_eq!(repo.count(), 4);
    assert!(repo.delete(ids[1]).is_ok());
    assert!(repo.delete(ids[3]).is_ok());
    assert_eq!(repo.count(), 2);
    // 4 creates and 2 deletes: the count moved by exactly 4 - 2
}

#[test]
fn browse_pages_partition_the_table() {
    let mut repo = BankRepo::new();
    for i in 0..5 {
        repo.create(bank_payload(&format!("City number {i}"))).unwrap();
    }
    let mut seen: Vec<Bank> = Vec::new();
    let mut page = 0;
    loop {
        let rows = repo.browse(&Browse::new(page, Some(2)));
        assert!(rows.len() <= 2);
        if page < 2 {
            assert_eq!(rows.len(), 2);
        }
        if rows.is_empty() {
            break;
        }
        seen.extend(rows);
        page += 1;
    }
    assert_eq!(seen.len(), 5);
    let all = repo.browse(&Browse::new(0, Some(100)));
    assert_eq!(seen, all);
}

#[test]
fn browse_default_count_is_ten() {
    let b = Browse::new(3, None);
    assert_eq!(b.page_number(), 3);
    assert_eq!(b.count(), 10);
    let mut repo = UserRepo::new();
    for i in 0..12 {
        repo.create(user_payload("Alice", &format!("alice{i}@mail.com")))
            .unwrap();
    }
    assert_eq!(repo.browse(&Browse::new(0, None)).len(), 10);
    assert_eq!(repo.browse(&Browse::new(1, None)).len(), 2);
    assert_eq!(repo.browse(&Browse::new(2, None)).len(), 0);
}

#[test]
fn duplicate_email_fails_with_conflict() {
    let mut repo = UserRepo::new();
    repo.create(user_payload("Alice", "alice@mail.com")).unwrap();
    let e = repo
        .create(user_payload("Other", "  alice@mail.com "))
        .unwrap_err();
    assert_eq!(
        e,
        ValidationError::UserEmailAlreadyExists("alice@mail.com".to_string())
    );
    assert_eq!(repo.count(), 1);
    // once the first owner is deleted the email is free again
    assert!(repo.delete(1).is_ok());
    assert!(repo.create(user_payload("Other", "alice@mail.com")).is_ok());
}

#[test]
fn duplicate_card_number_fails_with_conflict() {
    let mut repo = CardRepo::new();
    repo.create(card_payload("4111111111111111")).unwrap();
    let e = repo.create(card_payload("4111111111111111")).unwrap_err();
    assert_eq!(
        e,
        ValidationError::CardNumberAlreadyExists("4111111111111111".to_string())
    );
    let other = repo.create(card_payload("5500000000000004")).unwrap();
    assert_eq!(other, 2);
}

#[test]
fn invalid_payload_stores_nothing() {
    let mut repo = CardRepo::new();
    assert!(repo.create(card_payload("12a3")).is_err());
    assert_eq!(repo.count(), 0);
    assert_eq!(
        repo.get(1).unwrap_err(),
        ValidationError::EntityNotExists("Card".to_string())
    );
}

#[test]
fn get_missing_identifier_fails() {
    let repo = UserRepo::new();
    let e = repo.get(999999).unwrap_err();
    assert_eq!(e, ValidationError::EntityNotExists("User".to_string()));
}

#[test]
fn seed_fills_empty_repository_and_sets_next_identifier() {
    let mut repo = CardRepo::new();
    let rows = vec![
        Card {
            id: 3,
            card_type: CardType::Visa,
            number: "111".to_string(),
            expiration: "12/24".to_string(),
            owner: "Alice".to_string(),
        },
        Card {
            id: 8,
            card_type: CardType::MasterCard,
            number: "222".to_string(),
            expiration: "12/25".to_string(),
            owner: "Bobby".to_string(),
        },
    ];
    assert!(repo.seed(rows).is_ok());
    assert_eq!(repo.count(), 2);
    assert_eq!(repo.get(8).unwrap().number, "222");
    // creation continues past the highest seeded identifier
    let id = repo.create(card_payload("333")).unwrap();
    assert_eq!(id, 9);
}

#[test]
fn seed_skips_populated_repository() {
    let mut repo = UserRepo::new();
    repo.create(user_payload("Alice", "alice@mail.com")).unwrap();
    let rows = vec![User {
        id: 50,
        first_name: "Seeded".to_string(),
        last_name: "Person".to_string(),
        email: "seed@mail.com".to_string(),
        phone: "123456".to_string(),
        birthday: Date::default(),
        user_type: UserType::Worker,
    }];
    assert!(repo.seed(rows).is_ok());
    assert_eq!(repo.count(), 1);
    assert!(repo.get(50).is_err());
}

#[test]
fn seed_refuses_rows_the_store_cannot_hold() {
    let mut repo = BankRepo::new();
    let mk = |id: u32| Bank {
        id,
        country: "Poland".to_string(),
        city: "Warsaw".to_string(),
        zipcode: "00-001".to_string(),
        street: "Main Street".to_string(),
        building_number: "7".to_string(),
    };
    // identifiers must rise strictly
    assert!(repo.seed(vec![mk(2), mk(2)]).is_err());
    assert_eq!(repo.count(), 0);
    assert!(repo.seed(vec![mk(5), mk(3)]).is_err());
    // identifiers must be positive
    assert!(repo.seed(vec![mk(0)]).is_err());
    // a valid load still works afterwards
    assert!(repo.seed(vec![mk(1), mk(2)]).is_ok());
    assert_eq!(repo.count(), 2);
}

#[test]
fn seed_refuses_duplicate_unique_keys() {
    let mut repo = UserRepo::new();
    let mk = |id: u32, email: &str| User {
        id,
        first_name: "Alice".to_string(),
        last_name: "Smith".to_string(),
        email: email.to_string(),
        phone: "123456".to_string(),
        birthday: Date::default(),
        user_type: UserType::Worker,
    };
    assert!(repo
        .seed(vec![mk(1, "a@mail.com"), mk(2, "a@mail.com")])
        .is_err());
    assert_eq!(repo.count(), 0);
    assert!(repo
        .seed(vec![mk(1, "a@mail.com"), mk(2, "b@mail.com")])
        .is_ok());
    assert_eq!(repo.count(), 2);
}

#[test]
fn browse_beyond_the_end_is_empty() {
    let mut repo = UserRepo::new();
    repo.create(user_payload("Alice", "alice@mail.com")).unwrap();
    assert!(repo.browse(&Browse::new(7, Some(3))).is_empty());
    assert!(repo.browse(&Browse::new(0, Some(0))).is_empty());
    // huge page sizes and numbers do not overflow
    assert!(repo.browse(&Browse::new(u32::MAX, Some(u32::MAX))).is_empty());
}
