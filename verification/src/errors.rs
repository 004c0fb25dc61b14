use vstd::prelude::*;

verus! {

/// The closed set of business and validation error kinds. Every kind is
/// surfaced to clients as a stable code string plus positional parameters;
/// anything outside this set propagates as an opaque failure.
#[derive(Debug, Clone, PartialEq, Eq)]
pub enum ValidationError {
    /// Catch-all for unexpected failures; carries no parameters.
    Unknown,
    /// A trimmed field is shorter than the rule's minimum length.
    MinLength { field: String, min: usize },
    /// A trimmed field is longer than the rule's maximum length.
    MaxLength { field: String, max: usize },
    /// A trimmed field does not match the rule's pattern; carries the
    /// offending value.
    Pattern { field: String, value: String },
    /// A get or delete target is absent; carries the entity name.
    EntityNotExists(String),
    /// Creating a user whose email equals a live user's email.
    UserEmailAlreadyExists(String),
    /// Creating a card whose number equals a live card's number.
    CardNumberAlreadyExists(String),
}

/// The mathematical value of an error: field names and offending values as
/// character sequences, bounds as integers.
pub enum ErrorView {
    Unknown,
    MinLength { field: Seq<char>, min: int },
    MaxLength { field: Seq<char>, max: int },
    Pattern { field: Seq<char>, value: Seq<char> },
    EntityNotExists(Seq<char>),
    UserEmailAlreadyExists(Seq<char>),
    CardNumberAlreadyExists(Seq<char>),
}

impl View for ValidationError {
    type V = ErrorView;

    open spec fn view(&self) -> ErrorView {
        match *self {
            ValidationError::Unknown => ErrorView::Unknown,
            ValidationError::MinLength { field, min } => ErrorView::MinLength {
                field: field@,
                min: min as int,
            },
            ValidationError::MaxLength { field, max } => ErrorView::MaxLength {
                field: field@,
                max: max as int,
            },
            ValidationError::Pattern { field, value } => ErrorView::Pattern {
                field: field@,
                value: value@,
            },
            ValidationError::EntityNotExists(name) => ErrorView::EntityNotExists(name@),
            ValidationError::UserEmailAlreadyExists(email) => ErrorView::UserEmailAlreadyExists(
                email@,
            ),
            ValidationError::CardNumberAlreadyExists(number) => ErrorView::CardNumberAlreadyExists(
                number@,
            ),
        }
    }
}

/// One positional parameter of an error body: a string or a number, so a
/// client can rebuild a localized message from the code and parameters.
#[derive(Debug, Clone, PartialEq, Eq)]
pub enum ErrorParam {
    Str(String),
    Num(usize),
}

/// The fixed response body shape for every error kind: the kind's code
/// string and its ordered, possibly-absent positional parameters.
#[derive(Debug, Clone, PartialEq, Eq)]
pub struct ValidationErrorBody {
    pub code: String,
    pub parameters: Option<Vec<Option<ErrorParam>>>,
}

/// The parameter list of a body, as a mathematical value.
pub open spec fn params_view(r: Option<Vec<Option<ErrorParam>>>) -> Option<Seq<Option<ErrorParam>>> {
    match r {
        None => None,
        Some(v) => Some(v@),
    }
}

impl ValidationError {
    /// The stable code string of this kind: its name in upper snake case.
    pub open spec fn spec_code(&self) -> Seq<char> {
        match *self {
            ValidationError::Unknown => "UNKNOWN"@,
            ValidationError::MinLength { .. } => "MIN_LENGTH"@,
            ValidationError::MaxLength { .. } => "MAX_LENGTH"@,
            ValidationError::Pattern { .. } => "PATTERN"@,
            ValidationError::EntityNotExists(_) => "ENTITY_NOT_EXISTS"@,
            ValidationError::UserEmailAlreadyExists(_) => "USER_EMAIL_ALREADY_EXISTS"@,
            ValidationError::CardNumberAlreadyExists(_) => "CARD_NUMBER_ALREADY_EXISTS"@,
        }
    }

    /// The ordered positional parameters of this kind; the catch-all kind
    /// has none at all.
    pub open spec fn spec_parameters(&self) -> Option<Seq<Option<ErrorParam>>> {
        match *self {
            ValidationError::Unknown => None,
            ValidationError::MinLength { field, min } => Some(
                seq![Some(ErrorParam::Str(field)), Some(ErrorParam::Num(min))],
            ),
            ValidationError::MaxLength { field, max } => Some(
                seq![Some(ErrorParam::Str(field)), Some(ErrorParam::Num(max))],
            ),
            ValidationError::Pattern { field, value } => Some(
                seq![Some(ErrorParam::Str(field)), Some(ErrorParam::Str(value))],
            ),
            ValidationError::EntityNotExists(name) => Some(seq![Some(ErrorParam::Str(name))]),
            ValidationError::UserEmailAlreadyExists(email) => Some(
                seq![Some(ErrorParam::Str(email))],
            ),
            ValidationError::CardNumberAlreadyExists(number) => Some(
                seq![Some(ErrorParam::Str(number))],
            ),
        }
    }

    /// Every kind in this taxonomy is a client error.
    pub fn status(&self) -> (s: u16)
        ensures
            s == 400u16,
    {
        400
    }

    pub fn code(&self) -> (r: String)
        ensures
            r@ == self.spec_code(),
    {
        match self {
            ValidationError::Unknown => String::from_str("UNKNOWN"),
            ValidationError::MinLength { .. } => String::from_str("MIN_LENGTH"),
            ValidationError::MaxLength { .. } => String::from_str("MAX_LENGTH"),
            ValidationError::Pattern { .. } => String::from_str("PATTERN"),
            ValidationError::EntityNotExists(_) => String::from_str("ENTITY_NOT_EXISTS"),
            ValidationError::UserEmailAlreadyExists(_) => String::from_str(
                "USER_EMAIL_ALREADY_EXISTS",
            ),
            ValidationError::CardNumberAlreadyExists(_) => String::from_str(
                "CARD_NUMBER_ALREADY_EXISTS",
            ),
        }
    }

    pub fn parameters(&self) -> (r: Option<Vec<Option<ErrorParam>>>)
        ensures
            params_view(r) == self.spec_parameters(),
    {
        match self {
            ValidationError::Unknown => None,
            ValidationError::MinLength { field, min } => {
                let v: Vec<Option<ErrorParam>> = vec![
                    Some(ErrorParam::Str(field.clone())),
                    Some(ErrorParam::Num(*min)),
                ];
                proof {
                    assert(v@ =~= self.spec_parameters()->Some_0);
                }
                Some(v)
            },
            ValidationError::MaxLength { field, max } => {
                let v: Vec<Option<ErrorParam>> = vec![
                    Some(ErrorParam::Str(field.clone())),
                    Some(ErrorParam::Num(*max)),
                ];
                proof {
                    assert(v@ =~= self.spec_parameters()->Some_0);
                }
                Some(v)
            },
            ValidationError::Pattern { field, value } => {
                let v: Vec<Option<ErrorParam>> = vec![
                    Some(ErrorParam::Str(field.clone())),
                    Some(ErrorParam::Str(value.clone())),
                ];
                proof {
                    assert(v@ =~= self.spec_parameters()->Some_0);
                }
                Some(v)
            },
            ValidationError::EntityNotExists(name) => {
                let v: Vec<Option<ErrorParam>> = vec![Some(ErrorParam::Str(name.clone()))];
                proof {
                    assert(v@ =~= self.spec_parameters()->Some_0);
                }
                Some(v)
            },
            ValidationError::UserEmailAlreadyExists(email) => {
                let v: Vec<Option<ErrorParam>> = vec![Some(ErrorParam::Str(email.clone()))];
                proof {
                    assert(v@ =~= self.spec_parameters()->Some_0);
                }
                Some(v)
            },
            ValidationError::CardNumberAlreadyExists(number) => {
                let v: Vec<Option<ErrorParam>> = vec![Some(ErrorParam::Str(number.clone()))];
                proof {
                    assert(v@ =~= self.spec_parameters()->Some_0);
                }
                Some(v)
            },
        }
    }

    /// Renders this kind as the fixed body shape a client sees.
    pub fn as_response(&self) -> (b: ValidationErrorBody)
        ensures
            b.code@ == self.spec_code(),
            params_view(b.parameters) == self.spec_parameters(),
    {
        ValidationErrorBody { code: self.code(), parameters: self.parameters() }
    }
}

} // verus!
