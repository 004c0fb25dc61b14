use vstd::prelude::*;

use crate::browse::Browse;
use crate::date::Date;
use crate::errors::ErrorView;
use crate::errors::ValidationError;
use crate::store::Entity;
use crate::store::SeedError;
use crate::store::Table;
use crate::store::TableModel;
use crate::text::trim;
use crate::text::trim_spec;
use crate::validate::check_rules;
use crate::validate::field_error;
use crate::validate::PatternRule;

verus! {

/// The kind of a user; an unknown persisted value decodes to the default
/// kind rather than failing.
#[derive(Clone, Copy, Debug, PartialEq, Eq, Structural)]
pub enum UserType {
    Worker,
    Manager,
    Customer,
}

impl UserType {
    /// The integer each kind is persisted as.
    pub open spec fn spec_int(self) -> u32 {
        match self {
            UserType::Worker => 1,
            UserType::Manager => 2,
            UserType::Customer => 3,
        }
    }

    /// The kind a persisted integer decodes to; every unmapped value
    /// falls back to the worker kind.
    pub open spec fn spec_from(value: u32) -> UserType {
        if value == 2 {
            UserType::Manager
        } else if value == 3 {
            UserType::Customer
        } else {
            UserType::Worker
        }
    }

    /// Lenient decoding at the store-read boundary.
    pub fn from(value: u32) -> (r: UserType)
        ensures
            r == UserType::spec_from(value),
    {
        if value == 2 {
            UserType::Manager
        } else if value == 3 {
            UserType::Customer
        } else {
            UserType::Worker
        }
    }

    /// The integer this kind is written as.
    pub fn int_value(self) -> (r: u32)
        ensures
            r == self.spec_int(),
    {
        match self {
            UserType::Worker => 1,
            UserType::Manager => 2,
            UserType::Customer => 3,
        }
    }

    /// Lenient decoding never touches valid kinds: decoding what a kind
    /// is written as yields the kind back.
    pub proof fn lemma_round_trip(self)
        ensures
            UserType::spec_from(self.spec_int()) == self,
    {
    }
}

/// A live user row, as get and browse return it.
#[derive(Debug, PartialEq, Eq)]
pub struct User {
    pub id: u32,
    pub first_name: String,
    pub last_name: String,
    pub email: String,
    pub phone: String,
    pub birthday: Date,
    pub user_type: UserType,
}

impl Entity for User {
    open spec fn spec_id(&self) -> u32 {
        self.id
    }

    /// The email is unique across all live users.
    open spec fn spec_key(&self) -> Option<Seq<char>> {
        Some(self.email@)
    }

    fn id(&self) -> (i: u32) {
        self.id
    }

    fn key(&self) -> (k: Option<String>) {
        Some(self.email.clone())
    }

    fn dup(&self) -> (r: Self) {
        User {
            id: self.id,
            first_name: self.first_name.clone(),
            last_name: self.last_name.clone(),
            email: self.email.clone(),
            phone: self.phone.clone(),
            birthday: self.birthday,
            user_type: self.user_type,
        }
    }
}

/// The length bounds every validated user field shares.
pub fn field_length() -> (r: (usize, usize))
    ensures
        r == (3usize, 64usize),
{
    (3, 64)
}

/// A user creation payload, before the store assigns an identifier.
#[derive(Debug, PartialEq, Eq)]
pub struct CreateUser {
    pub first_name: String,
    pub last_name: String,
    pub email: String,
    pub phone: String,
    pub birthday: Date,
    pub user_type: UserType,
}

impl CreateUser {
    /// The first violated rule of this payload in field-declaration
    /// order, each field judged on its trimmed value, if any rule fails.
    pub open spec fn spec_validate_error(self) -> Option<ErrorView> {
        let e1 = field_error("firstName"@, trim_spec(self.first_name@), 3, 64, None);
        let e2 = field_error("lastName"@, trim_spec(self.last_name@), 3, 64, None);
        let e3 = field_error(
            "email"@,
            trim_spec(self.email@),
            3,
            64,
            Some(PatternRule::Email),
        );
        let e4 = field_error("phone"@, trim_spec(self.phone@), 3, 64, None);
        if e1 is Some {
            e1
        } else if e2 is Some {
            e2
        } else if e3 is Some {
            e3
        } else {
            e4
        }
    }

    /// Trims every string field in place, then evaluates each field's
    /// rules in declaration order and reports the first violation.
    pub fn validate(&mut self) -> (r: Result<(), ValidationError>)
        ensures
            final(self).first_name@ == trim_spec(old(self).first_name@),
            final(self).last_name@ == trim_spec(old(self).last_name@),
            final(self).email@ == trim_spec(old(self).email@),
            final(self).phone@ == trim_spec(old(self).phone@),
            final(self).birthday == old(self).birthday,
            final(self).user_type == old(self).user_type,
            match r {
                Ok(()) => old(self).spec_validate_error() is None,
                Err(e) => Some(e@) == old(self).spec_validate_error(),
            },
    {
        let t = trim(self.first_name.as_str());
        self.first_name = t;
        let t = trim(self.last_name.as_str());
        self.last_name = t;
        let t = trim(self.email.as_str());
        self.email = t;
        let t = trim(self.phone.as_str());
        self.phone = t;
        let (mn, mx) = field_length();
        let r = check_rules("firstName", self.first_name.as_str(), mn, mx, None);
        if let Err(e) = r {
            return Err(e);
        }
        let r = check_rules("lastName", self.last_name.as_str(), mn, mx, None);
        if let Err(e) = r {
            return Err(e);
        }
        let r = check_rules("email", self.email.as_str(), mn, mx, Some(PatternRule::Email));
        if let Err(e) = r {
            return Err(e);
        }
        let r = check_rules("phone", self.phone.as_str(), mn, mx, None);
        if let Err(e) = r {
            return Err(e);
        }
        Ok(())
    }
}

/// Whether a stored row is exactly the given payload, trimmed, under the
/// given identifier.
pub open spec fn row_matches_user(u: User, id: u32, p: CreateUser) -> bool {
    &&& u.id == id
    &&& u.first_name@ == trim_spec(p.first_name@)
    &&& u.last_name@ == trim_spec(p.last_name@)
    &&& u.email@ == trim_spec(p.email@)
    &&& u.phone@ == trim_spec(p.phone@)
    &&& u.birthday == p.birthday
    &&& u.user_type == p.user_type
}

/// A created user is immediately readable: under the state and result a
/// successful create promises, the new identifier differs from every
/// previously live identifier, and a get with it returns exactly the
/// stored row: the payload trimmed, under that identifier.
pub proof fn lemma_user_create_then_get(
    pre: TableModel<User>,
    post: TableModel<User>,
    data: CreateUser,
    id: u32,
)
    requires
        pre.wf(),
        pre.next_id < u32::MAX as int,
        id as int == pre.next_id,
        post == pre.insert(post.rows.last()),
        row_matches_user(post.rows.last(), id, data),
        !pre.key_taken(Some(trim_spec(data.email@))),
    ensures
        forall|i: int| 0 <= i < pre.rows.len() ==> (#[trigger] pre.rows[i]).spec_id() != id,
        post.spec_get(id) == Some(post.rows.last()),
        row_matches_user(post.spec_get(id)->Some_0, id, data),
{
    let u = post.rows.last();
    pre.lemma_create_then_get(u);
}

/// The user repository: validated create, get and delete by identifier,
/// count, and paginated browse over one user table.
pub struct UserRepo {
    table: Table<User>,
}

impl View for UserRepo {
    type V = TableModel<User>;

    closed spec fn view(&self) -> TableModel<User> {
        self.table@
    }
}

impl UserRepo {
    pub fn new() -> (r: Self)
        ensures
            r@.wf(),
            r@.rows == Seq::<User>::empty(),
            r@.next_id == 1,
    {
        UserRepo { table: Table::new() }
    }

    /// Fetches the user with this identifier, or reports that no user
    /// exists under it.
    pub fn get(&self, id: u32) -> (r: Result<User, ValidationError>)
        requires
            self@.wf(),
        ensures
            match r {
                Ok(u) => self@.spec_get(id) == Some(u),
                Err(e) => self@.spec_get(id) is None && e@ == ErrorView::EntityNotExists("User"@),
            },
    {
        match self.table.get(id) {
            Some(u) => Ok(u),
            None => Err(ValidationError::EntityNotExists(String::from_str("User"))),
        }
    }

    /// The number of live users.
    pub fn count(&self) -> (n: u32)
        requires
            self@.wf(),
        ensures
            n as int == self@.rows.len(),
    {
        self.table.count()
    }

    /// One page of users in storage order.
    pub fn browse(&self, b: &Browse) -> (r: Vec<User>)
        requires
            self@.wf(),
        ensures
            r@ == self@.spec_browse(b.spec_page_number(), b.spec_count()),
    {
        self.table.browse(b.page_number(), b.count())
    }

    /// Validates the payload, then inserts a new user under the next free
    /// identifier. A duplicate live email is classified as the email
    /// conflict error carrying the trimmed email; the first violated rule
    /// is reported as its structured error; nothing is stored in either
    /// case.
    pub fn create(&mut self, data: CreateUser) -> (r: Result<u32, ValidationError>)
        requires
            old(self)@.wf(),
            old(self)@.next_id < u32::MAX as int,
        ensures
            final(self)@.wf(),
            match r {
                Ok(id) => {
                    &&& data.spec_validate_error() is None
                    &&& !old(self)@.key_taken(Some(trim_spec(data.email@)))
                    &&& id as int == old(self)@.next_id
                    &&& final(self)@ == old(self)@.insert(final(self)@.rows.last())
                    &&& row_matches_user(final(self)@.rows.last(), id, data)
                },
                Err(e) => {
                    &&& final(self)@ == old(self)@
                    &&& match data.spec_validate_error() {
                        Some(v) => e@ == v,
                        None => {
                            &&& e@ == ErrorView::UserEmailAlreadyExists(trim_spec(data.email@))
                            &&& old(self)@.key_taken(Some(trim_spec(data.email@)))
                        },
                    }
                },
            },
    {
        let mut d = data;
        if let Err(e) = d.validate() {
            return Err(e);
        }
        let id = self.table.next_id();
        let u = User {
            id,
            first_name: d.first_name,
            last_name: d.last_name,
            email: d.email,
            phone: d.phone,
            birthday: d.birthday,
            user_type: d.user_type,
        };
        match self.table.insert(u) {
            Ok(nid) => {
                proof {
                    assert(self@.rows.last() == u);
                }
                Ok(nid)
            },
            Err(v) => Err(ValidationError::UserEmailAlreadyExists(v.key)),
        }
    }

    /// Deletes the user with this identifier, or reports that no user
    /// exists under it; a deleted identifier is never assigned again.
    pub fn delete(&mut self, id: u32) -> (r: Result<(), ValidationError>)
        requires
            old(self)@.wf(),
        ensures
            final(self)@.wf(),
            old(self)@.has_id(id) ==> r is Ok && final(self)@ == old(self)@.delete(id),
            !old(self)@.has_id(id) ==> final(self)@ == old(self)@ && (r matches Err(e) && e@
                == ErrorView::EntityNotExists("User"@)),
    {
        if self.table.delete(id) {
            Ok(())
        } else {
            Err(ValidationError::EntityNotExists(String::from_str("User")))
        }
    }

    /// Bulk-loads seed users at first boot; a repository that already
    /// holds rows is left unchanged.
    pub fn seed(&mut self, entries: Vec<User>) -> (r: Result<(), SeedError>)
        requires
            old(self)@.wf(),
        ensures
            final(self)@.wf(),
            old(self)@.rows.len() > 0 ==> r is Ok && final(self)@ == old(self)@,
            old(self)@.rows.len() == 0 && TableModel::<User>::seed_ok(entries@) ==> r is Ok
                && final(self)@ == old(self)@.seeded(entries@),
            old(self)@.rows.len() == 0 && !TableModel::<User>::seed_ok(entries@) ==> r is Err
                && final(self)@ == old(self)@,
    {
        self.table.seed(entries)
    }
}

} // verus!
