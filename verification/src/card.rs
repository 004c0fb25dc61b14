use vstd::prelude::*;

use crate::browse::Browse;
use crate::errors::ErrorView;
use crate::errors::ValidationError;
use crate::store::Entity;
use crate::store::SeedError;
use crate::store::Table;
use crate::store::TableModel;
use crate::text::trim;
use crate::text::trim_spec;
use crate::validate::check_rules;
use crate::validate::field_error;
use crate::validate::PatternRule;

verus! {

/// The kind of a payment card; an unknown persisted value decodes to the
/// default kind rather than failing.
#[derive(Clone, Copy, Debug, PartialEq, Eq, Structural)]
pub enum CardType {
    Visa,
    VisaRetired,
    MasterCard,
    DiscoverCard,
    AmericanExpress,
}

impl CardType {
    /// The integer each kind is persisted as.
    pub open spec fn spec_int(self) -> u32 {
        match self {
            CardType::Visa => 1,
            CardType::VisaRetired => 2,
            CardType::MasterCard => 3,
            CardType::DiscoverCard => 4,
            CardType::AmericanExpress => 5,
        }
    }

    /// The kind a persisted integer decodes to; every unmapped value
    /// falls back to the Visa kind.
    pub open spec fn spec_from(value: u32) -> CardType {
        if value == 2 {
            CardType::VisaRetired
        } else if value == 3 {
            CardType::MasterCard
        } else if value == 4 {
            CardType::DiscoverCard
        } else if value == 5 {
            CardType::AmericanExpress
        } else {
            CardType::Visa
        }
    }

    /// The string label each kind is exposed under.
    pub open spec fn spec_label(self) -> Seq<char> {
        match self {
            CardType::Visa => "Visa"@,
            CardType::VisaRetired => "Visa Retired"@,
            CardType::MasterCard => "MasterCard"@,
            CardType::DiscoverCard => "Discover Card"@,
            CardType::AmericanExpress => "American Express"@,
        }
    }

    /// Lenient decoding at the store-read boundary.
    pub fn from(value: u32) -> (r: CardType)
        ensures
            r == CardType::spec_from(value),
    {
        if value == 2 {
            CardType::VisaRetired
        } else if value == 3 {
            CardType::MasterCard
        } else if value == 4 {
            CardType::DiscoverCard
        } else if value == 5 {
            CardType::AmericanExpress
        } else {
            CardType::Visa
        }
    }

    /// The integer this kind is written as.
    pub fn int_value(self) -> (r: u32)
        ensures
            r == self.spec_int(),
    {
        match self {
            CardType::Visa => 1,
            CardType::VisaRetired => 2,
            CardType::MasterCard => 3,
            CardType::DiscoverCard => 4,
            CardType::AmericanExpress => 5,
        }
    }

    /// The label this kind is exposed under.
    pub fn label(self) -> (r: String)
        ensures
            r@ == self.spec_label(),
    {
        match self {
            CardType::Visa => String::from_str("Visa"),
            CardType::VisaRetired => String::from_str("Visa Retired"),
            CardType::MasterCard => String::from_str("MasterCard"),
            CardType::DiscoverCard => String::from_str("Discover Card"),
            CardType::AmericanExpress => String::from_str("American Express"),
        }
    }

    /// Lenient decoding never touches valid kinds: decoding what a kind
    /// is written as yields the kind back.
    pub proof fn lemma_round_trip(self)
        ensures
            CardType::spec_from(self.spec_int()) == self,
    {
    }
}

/// A live card row, as get and browse return it.
#[derive(Debug, PartialEq, Eq)]
pub struct Card {
    pub id: u32,
    pub card_type: CardType,
    pub number: String,
    pub expiration: String,
    pub owner: String,
}

impl Entity for Card {
    open spec fn spec_id(&self) -> u32 {
        self.id
    }

    /// The number is unique across all live cards.
    open spec fn spec_key(&self) -> Option<Seq<char>> {
        Some(self.number@)
    }

    fn id(&self) -> (i: u32) {
        self.id
    }

    fn key(&self) -> (k: Option<String>) {
        Some(self.number.clone())
    }

    fn dup(&self) -> (r: Self) {
        Card {
            id: self.id,
            card_type: self.card_type,
            number: self.number.clone(),
            expiration: self.expiration.clone(),
            owner: self.owner.clone(),
        }
    }
}

/// The length bounds every validated card field shares.
pub fn field_length() -> (r: (usize, usize))
    ensures
        r == (3usize, 64usize),
{
    (3, 64)
}

/// A card creation payload, before the store assigns an identifier.
#[derive(Debug, PartialEq, Eq)]
pub struct CreateCard {
    pub card_type: CardType,
    pub number: String,
    pub expiration: String,
    pub owner: String,
}

impl CreateCard {
    /// The first violated rule of this payload in field-declaration
    /// order, each field judged on its trimmed value, if any rule fails.
    pub open spec fn spec_validate_error(self) -> Option<ErrorView> {
        let e1 = field_error(
            "number"@,
            trim_spec(self.number@),
            3,
            64,
            Some(PatternRule::Digits),
        );
        let e2 = field_error(
            "expiration"@,
            trim_spec(self.expiration@),
            3,
            64,
            Some(PatternRule::Expiration),
        );
        let e3 = field_error("owner"@, trim_spec(self.owner@), 3, 64, None);
        if e1 is Some {
            e1
        } else if e2 is Some {
            e2
        } else {
            e3
        }
    }

    /// Trims every string field in place, then evaluates each field's
    /// rules in declaration order and reports the first violation.
    pub fn validate(&mut self) -> (r: Result<(), ValidationError>)
        ensures
            final(self).number@ == trim_spec(old(self).number@),
            final(self).expiration@ == trim_spec(old(self).expiration@),
            final(self).owner@ == trim_spec(old(self).owner@),
            final(self).card_type == old(self).card_type,
            match r {
                Ok(()) => old(self).spec_validate_error() is None,
                Err(e) => Some(e@) == old(self).spec_validate_error(),
            },
    {
        let t = trim(self.number.as_str());
        self.number = t;
        let t = trim(self.expiration.as_str());
        self.expiration = t;
        let t = trim(self.owner.as_str());
        self.owner = t;
        let (mn, mx) = field_length();
        let r = check_rules("number", self.number.as_str(), mn, mx, Some(PatternRule::Digits));
        if let Err(e) = r {
            return Err(e);
        }
        let r = check_rules(
            "expiration",
            self.expiration.as_str(),
            mn,
            mx,
            Some(PatternRule::Expiration),
        );
        if let Err(e) = r {
            return Err(e);
        }
        let r = check_rules("owner", self.owner.as_str(), mn, mx, None);
        if let Err(e) = r {
            return Err(e);
        }
        Ok(())
    }
}

/// Whether a stored row is exactly the given payload, trimmed, under the
/// given identifier.
pub open spec fn row_matches_card(c: Card, id: u32, p: CreateCard) -> bool {
    &&& c.id == id
    &&& c.card_type == p.card_type
    &&& c.number@ == trim_spec(p.number@)
    &&& c.expiration@ == trim_spec(p.expiration@)
    &&& c.owner@ == trim_spec(p.owner@)
}

/// A created card is immediately readable: under the state and result a
/// successful create promises, the new identifier differs from every
/// previously live identifier, and a get with it returns exactly the
/// stored row: the payload trimmed, under that identifier.
pub proof fn lemma_card_create_then_get(
    pre: TableModel<Card>,
    post: TableModel<Card>,
    data: CreateCard,
    id: u32,
)
    requires
        pre.wf(),
        pre.next_id < u32::MAX as int,
        id as int == pre.next_id,
        post == pre.insert(post.rows.last()),
        row_matches_card(post.rows.last(), id, data),
        !pre.key_taken(Some(trim_spec(data.number@))),
    ensures
        forall|i: int| 0 <= i < pre.rows.len() ==> (#[trigger] pre.rows[i]).spec_id() != id,
        post.spec_get(id) == Some(post.rows.last()),
        row_matches_card(post.spec_get(id)->Some_0, id, data),
{
    let c = post.rows.last();
    pre.lemma_create_then_get(c);
}

/// The card repository: validated create, get and delete by identifier,
/// count, and paginated browse over one card table.
pub struct CardRepo {
    table: Table<Card>,
}

impl View for CardRepo {
    type V = TableModel<Card>;

    closed spec fn view(&self) -> TableModel<Card> {
        self.table@
    }
}

impl CardRepo {
    pub fn new() -> (r: Self)
        ensures
            r@.wf(),
            r@.rows == Seq::<Card>::empty(),
            r@.next_id == 1,
    {
        CardRepo { table: Table::new() }
    }

    /// Fetches the card with this identifier, or reports that no card
    /// exists under it.
    pub fn get(&self, id: u32) -> (r: Result<Card, ValidationError>)
        requires
            self@.wf(),
        ensures
            match r {
                Ok(c) => self@.spec_get(id) == Some(c),
                Err(e) => self@.spec_get(id) is None && e@ == ErrorView::EntityNotExists("Card"@),
            },
    {
        match self.table.get(id) {
            Some(c) => Ok(c),
            None => Err(ValidationError::EntityNotExists(String::from_str("Card"))),
        }
    }

    /// The number of live cards.
    pub fn count(&self) -> (n: u32)
        requires
            self@.wf(),
        ensures
            n as int == self@.rows.len(),
    {
        self.table.count()
    }

    /// One page of cards in storage order.
    pub fn browse(&self, b: &Browse) -> (r: Vec<Card>)
        requires
            self@.wf(),
        ensures
            r@ == self@.spec_browse(b.spec_page_number(), b.spec_count()),
    {
        self.table.browse(b.page_number(), b.count())
    }

    /// Validates the payload, then inserts a new card under the next free
    /// identifier. A duplicate live number is classified as the number
    /// conflict error carrying the trimmed number; the first violated
    /// rule is reported as its structured error; nothing is stored in
    /// either case.
    pub fn create(&mut self, data: CreateCard) -> (r: Result<u32, ValidationError>)
        requires
            old(self)@.wf(),
            old(self)@.next_id < u32::MAX as int,
        ensures
            final(self)@.wf(),
            match r {
                Ok(id) => {
                    &&& data.spec_validate_error() is None
                    &&& !old(self)@.key_taken(Some(trim_spec(data.number@)))
                    &&& id as int == old(self)@.next_id
                    &&& final(self)@ == old(self)@.insert(final(self)@.rows.last())
                    &&& row_matches_card(final(self)@.rows.last(), id, data)
                },
                Err(e) => {
                    &&& final(self)@ == old(self)@
                    &&& match data.spec_validate_error() {
                        Some(v) => e@ == v,
                        None => {
                            &&& e@ == ErrorView::CardNumberAlreadyExists(trim_spec(data.number@))
                            &&& old(self)@.key_taken(Some(trim_spec(data.number@)))
                        },
                    }
                },
            },
    {
        let mut d = data;
        if let Err(e) = d.validate() {
            return Err(e);
        }
        let id = self.table.next_id();
        let c = Card {
            id,
            card_type: d.card_type,
            number: d.number,
            expiration: d.expiration,
            owner: d.owner,
        };
        match self.table.insert(c) {
            Ok(nid) => {
                proof {
                    assert(self@.rows.last() == c);
                }
                Ok(nid)
            },
            Err(v) => Err(ValidationError::CardNumberAlreadyExists(v.key)),
        }
    }

    /// Deletes the card with this identifier, or reports that no card
    /// exists under it; a deleted identifier is never assigned again.
    pub fn delete(&mut self, id: u32) -> (r: Result<(), ValidationError>)
        requires
            old(self)@.wf(),
        ensures
            final(self)@.wf(),
            old(self)@.has_id(id) ==> r is Ok && final(self)@ == old(self)@.delete(id),
            !old(self)@.has_id(id) ==> final(self)@ == old(self)@ && (r matches Err(e) && e@
                == ErrorView::EntityNotExists("Card"@)),
    {
        if self.table.delete(id) {
            Ok(())
        } else {
            Err(ValidationError::EntityNotExists(String::from_str("Card")))
        }
    }

    /// Bulk-loads seed cards at first boot; a repository that already
    /// holds rows is left unchanged.
    pub fn seed(&mut self, entries: Vec<Card>) -> (r: Result<(), SeedError>)
        requires
            old(self)@.wf(),
        ensures
            final(self)@.wf(),
            old(self)@.rows.len() > 0 ==> r is Ok && final(self)@ == old(self)@,
            old(self)@.rows.len() == 0 && TableModel::<Card>::seed_ok(entries@) ==> r is Ok
                && final(self)@ == old(self)@.seeded(entries@),
            old(self)@.rows.len() == 0 && !TableModel::<Card>::seed_ok(entries@) ==> r is Err
                && final(self)@ == old(self)@,
    {
        self.table.seed(entries)
    }
}

} // verus!
