use vstd::prelude::*;

use crate::browse::Browse;
use crate::errors::ErrorView;
use crate::errors::ValidationError;
use crate::store::Entity;
use crate::store::SeedError;
use crate::store::Table;
use crate::store::TableModel;
use crate::text::trim;
use crate::text::trim_spec;
use crate::validate::check_rules;
use crate::validate::field_error;

verus! {

/// A live bank row, as get and browse return it. Banks carry no unique
/// field beyond the identifier.
#[derive(Debug, PartialEq, Eq)]
pub struct Bank {
    pub id: u32,
    pub country: String,
    pub city: String,
    pub zipcode: String,
    pub street: String,
    pub building_number: String,
}

impl Entity for Bank {
    open spec fn spec_id(&self) -> u32 {
        self.id
    }

    open spec fn spec_key(&self) -> Option<Seq<char>> {
        None
    }

    fn id(&self) -> (i: u32) {
        self.id
    }

    fn key(&self) -> (k: Option<String>) {
        None
    }

    fn dup(&self) -> (r: Self) {
        Bank {
            id: self.id,
            country: self.country.clone(),
            city: self.city.clone(),
            zipcode: self.zipcode.clone(),
            street: self.street.clone(),
            building_number: self.building_number.clone(),
        }
    }
}

/// The length bounds most validated bank fields share.
pub fn field_length() -> (r: (usize, usize))
    ensures
        r == (3usize, 64usize),
{
    (3, 64)
}

/// The tighter length bounds of the building number.
pub fn building_field_length() -> (r: (usize, usize))
    ensures
        r == (1usize, 32usize),
{
    (1, 32)
}

/// A bank creation payload, before the store assigns an identifier.
#[derive(Debug, PartialEq, Eq)]
pub struct CreateBank {
    pub country: String,
    pub city: String,
    pub zipcode: String,
    pub street: String,
    pub building_number: String,
}

impl CreateBank {
    /// The first violated rule of this payload in field-declaration
    /// order, each field judged on its trimmed value, if any rule fails.
    pub open spec fn spec_validate_error(self) -> Option<ErrorView> {
        let e1 = field_error("country"@, trim_spec(self.country@), 3, 64, None);
        let e2 = field_error("city"@, trim_spec(self.city@), 3, 64, None);
        let e3 = field_error("zipcode"@, trim_spec(self.zipcode@), 3, 64, None);
        let e4 = field_error("street"@, trim_spec(self.street@), 3, 64, None);
        let e5 = field_error(
            "buildingNumber"@,
            trim_spec(self.building_number@),
            1,
            32,
            None,
        );
        if e1 is Some {
            e1
        } else if e2 is Some {
            e2
        } else if e3 is Some {
            e3
        } else if e4 is Some {
            e4
        } else {
            e5
        }
    }

    /// Trims every string field in place, then evaluates each field's
    /// rules in declaration order and reports the first violation.
    pub fn validate(&mut self) -> (r: Result<(), ValidationError>)
        ensures
            final(self).country@ == trim_spec(old(self).country@),
            final(self).city@ == trim_spec(old(self).city@),
            final(self).zipcode@ == trim_spec(old(self).zipcode@),
            final(self).street@ == trim_spec(old(self).street@),
            final(self).building_number@ == trim_spec(old(self).building_number@),
            match r {
                Ok(()) => old(self).spec_validate_error() is None,
                Err(e) => Some(e@) == old(self).spec_validate_error(),
            },
    {
        let t = trim(self.country.as_str());
        self.country = t;
        let t = trim(self.city.as_str());
        self.city = t;
        let t = trim(self.zipcode.as_str());
        self.zipcode = t;
        let t = trim(self.street.as_str());
        self.street = t;
        let t = trim(self.building_number.as_str());
        self.building_number = t;
        let (mn, mx) = field_length();
        let r = check_rules("country", self.country.as_str(), mn, mx, None);
        if let Err(e) = r {
            return Err(e);
        }
        let r = check_rules("city", self.city.as_str(), mn, mx, None);
        if let Err(e) = r {
            return Err(e);
        }
        let r = check_rules("zipcode", self.zipcode.as_str(), mn, mx, None);
        if let Err(e) = r {
            return Err(e);
        }
        let r = check_rules("street", self.street.as_str(), mn, mx, None);
        if let Err(e) = r {
            return Err(e);
        }
        let (bmn, bmx) = building_field_length();
        let r = check_rules("buildingNumber", self.building_number.as_str(), bmn, bmx, None);
        if let Err(e) = r {
            return Err(e);
        }
        Ok(())
    }
}

/// Whether a stored row is exactly the given payload, trimmed, under the
/// given identifier.
pub open spec fn row_matches_bank(b: Bank, id: u32, p: CreateBank) -> bool {
    &&& b.id == id
    &&& b.country@ == trim_spec(p.country@)
    &&& b.city@ == trim_spec(p.city@)
    &&& b.zipcode@ == trim_spec(p.zipcode@)
    &&& b.street@ == trim_spec(p.street@)
    &&& b.building_number@ == trim_spec(p.building_number@)
}

/// A created bank is immediately readable: under the state and result a
/// successful create promises, the new identifier differs from every
/// previously live identifier, and a get with it returns exactly the
/// stored row: the payload trimmed, under that identifier.
pub proof fn lemma_bank_create_then_get(
    pre: TableModel<Bank>,
    post: TableModel<Bank>,
    data: CreateBank,
    id: u32,
)
    requires
        pre.wf(),
        pre.next_id < u32::MAX as int,
        id as int == pre.next_id,
        post == pre.insert(post.rows.last()),
        row_matches_bank(post.rows.last(), id, data),
    ensures
        forall|i: int| 0 <= i < pre.rows.len() ==> (#[trigger] pre.rows[i]).spec_id() != id,
        post.spec_get(id) == Some(post.rows.last()),
        row_matches_bank(post.spec_get(id)->Some_0, id, data),
{
    let b = post.rows.last();
    pre.lemma_create_then_get(b);
}

/// The bank repository: validated create, get and delete by identifier,
/// count, and paginated browse over one bank table.
pub struct BankRepo {
    table: Table<Bank>,
}

impl View for BankRepo {
    type V = TableModel<Bank>;

    closed spec fn view(&self) -> TableModel<Bank> {
        self.table@
    }
}

impl BankRepo {
    pub fn new() -> (r: Self)
        ensures
            r@.wf(),
            r@.rows == Seq::<Bank>::empty(),
            r@.next_id == 1,
    {
        BankRepo { table: Table::new() }
    }

    /// Fetches the bank with this identifier, or reports that no bank
    /// exists under it.
    pub fn get(&self, id: u32) -> (r: Result<Bank, ValidationError>)
        requires
            self@.wf(),
        ensures
            match r {
                Ok(b) => self@.spec_get(id) == Some(b),
                Err(e) => self@.spec_get(id) is None && e@ == ErrorView::EntityNotExists("Bank"@),
            },
    {
        match self.table.get(id) {
            Some(b) => Ok(b),
            None => Err(ValidationError::EntityNotExists(String::from_str("Bank"))),
        }
    }

    /// The number of live banks.
    pub fn count(&self) -> (n: u32)
        requires
            self@.wf(),
        ensures
            n as int == self@.rows.len(),
    {
        self.table.count()
    }

    /// One page of banks in storage order.
    pub fn browse(&self, b: &Browse) -> (r: Vec<Bank>)
        requires
            self@.wf(),
        ensures
            r@ == self@.spec_browse(b.spec_page_number(), b.spec_count()),
    {
        self.table.browse(b.page_number(), b.count())
    }

    /// Validates the payload, then inserts a new bank under the next free
    /// identifier. Banks have no unique field, so a valid payload is
    /// always stored; the first violated rule is reported as its
    /// structured error and nothing is stored.
    pub fn create(&mut self, data: CreateBank) -> (r: Result<u32, ValidationError>)
        requires
            old(self)@.wf(),
            old(self)@.next_id < u32::MAX as int,
        ensures
            final(self)@.wf(),
            match r {
                Ok(id) => {
                    &&& data.spec_validate_error() is None
                    &&& id as int == old(self)@.next_id
                    &&& final(self)@ == old(self)@.insert(final(self)@.rows.last())
                    &&& row_matches_bank(final(self)@.rows.last(), id, data)
                },
                Err(e) => {
                    &&& final(self)@ == old(self)@
                    &&& Some(e@) == data.spec_validate_error()
                },
            },
    {
        let mut d = data;
        if let Err(e) = d.validate() {
            return Err(e);
        }
        let id = self.table.next_id();
        let b = Bank {
            id,
            country: d.country,
            city: d.city,
            zipcode: d.zipcode,
            street: d.street,
            building_number: d.building_number,
        };
        match self.table.insert(b) {
            Ok(nid) => {
                proof {
                    assert(self@.rows.last() == b);
                }
                Ok(nid)
            },
            Err(v) => {
                proof {
                    assert(false);
                }
                Err(ValidationError::Unknown)
            },
        }
    }

    /// Deletes the bank with this identifier, or reports that no bank
    /// exists under it; a deleted identifier is never assigned again.
    pub fn delete(&mut self, id: u32) -> (r: Result<(), ValidationError>)
        requires
            old(self)@.wf(),
        ensures
            final(self)@.wf(),
            old(self)@.has_id(id) ==> r is Ok && final(self)@ == old(self)@.delete(id),
            !old(self)@.has_id(id) ==> final(self)@ == old(self)@ && (r matches Err(e) && e@
                == ErrorView::EntityNotExists("Bank"@)),
    {
        if self.table.delete(id) {
            Ok(())
        } else {
            Err(ValidationError::EntityNotExists(String::from_str("Bank")))
        }
    }

    /// Bulk-loads seed banks at first boot; a repository that already
    /// holds rows is left unchanged.
    pub fn seed(&mut self, entries: Vec<Bank>) -> (r: Result<(), SeedError>)
        requires
            old(self)@.wf(),
        ensures
            final(self)@.wf(),
            old(self)@.rows.len() > 0 ==> r is Ok && final(self)@ == old(self)@,
            old(self)@.rows.len() == 0 && TableModel::<Bank>::seed_ok(entries@) ==> r is Ok
                && final(self)@ == old(self)@.seeded(entries@),
            old(self)@.rows.len() == 0 && !TableModel::<Bank>::seed_ok(entries@) ==> r is Err
                && final(self)@ == old(self)@,
    {
        self.table.seed(entries)
    }
}

} // verus!
