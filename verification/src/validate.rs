use vstd::prelude::*;

use crate::errors::ErrorView;
use crate::errors::ValidationError;
use crate::patterns::digits_pattern;
use crate::patterns::email_pattern;
use crate::patterns::expiration_pattern;
use crate::patterns::is_digits;
use crate::patterns::is_email;
use crate::patterns::is_expiration;

verus! {

/// The pattern rules a field can carry, beyond trimming and length bounds.
#[derive(Clone, Copy, Debug, PartialEq, Eq, Structural)]
pub enum PatternRule {
    /// Digits only, as a card number.
    Digits,
    /// A month, an optional slash and a year, as a card expiration.
    Expiration,
    /// A full email address.
    Email,
}

pub open spec fn pattern_holds(p: PatternRule, s: Seq<char>) -> bool {
    match p {
        PatternRule::Digits => digits_pattern(s),
        PatternRule::Expiration => expiration_pattern(s),
        PatternRule::Email => email_pattern(s),
    }
}

/// The violation that one field's rules signal on a trimmed value, if any:
/// first the minimum length, then the maximum, then the pattern.
pub open spec fn field_error(
    field: Seq<char>,
    t: Seq<char>,
    min: int,
    max: int,
    pat: Option<PatternRule>,
) -> Option<ErrorView> {
    if t.len() < min {
        Some(ErrorView::MinLength { field, min })
    } else if t.len() > max {
        Some(ErrorView::MaxLength { field, max })
    } else if pat is Some && !pattern_holds(pat->Some_0, t) {
        Some(ErrorView::Pattern { field, value: t })
    } else {
        None
    }
}

fn match_pattern(p: PatternRule, s: &str) -> (r: bool)
    ensures
        r == pattern_holds(p, s@),
{
    match p {
        PatternRule::Digits => is_digits(s),
        PatternRule::Expiration => is_expiration(s),
        PatternRule::Email => is_email(s),
    }
}

/// The shared rule interpreter for one already-trimmed field: checks the
/// length bounds and the pattern in that order and reports the first
/// violated rule as a structured error. Trimming itself runs over every
/// string field of a payload before any rule is evaluated.
pub fn check_rules(
    field_name: &str,
    t: &str,
    min: usize,
    max: usize,
    pat: Option<PatternRule>,
) -> (r: Result<(), ValidationError>)
    ensures
        match r {
            Ok(()) => field_error(field_name@, t@, min as int, max as int, pat) is None,
            Err(e) => Some(e@) == field_error(field_name@, t@, min as int, max as int, pat),
        },
{
    let len = t.unicode_len();
    if len < min {
        return Err(ValidationError::MinLength { field: field_name.to_owned(), min });
    }
    if len > max {
        return Err(ValidationError::MaxLength { field: field_name.to_owned(), max });
    }
    match pat {
        Some(p) => {
            if !match_pattern(p, t) {
                return Err(
                    ValidationError::Pattern { field: field_name.to_owned(), value: t.to_owned() },
                );
            }
        },
        None => {},
    }
    Ok(())
}

} // verus!
