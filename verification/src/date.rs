use vstd::prelude::*;

verus! {

/// A calendar date as plain fields. Birthdays are carried through the
/// service without validation beyond their shape, so the fields hold
/// whatever the caller supplied.
#[derive(Clone, Copy, Debug, PartialEq, Eq, Structural)]
pub struct Date {
    pub year: i32,
    pub month: u8,
    pub day: u8,
}

impl Date {
    pub fn new(year: i32, month: u8, day: u8) -> (d: Date)
        ensures
            d == (Date { year, month, day }),
    {
        Date { year, month, day }
    }
}

impl Default for Date {
    /// The epoch date, used when a creation payload omits the birthday.
    fn default() -> (d: Date)
        ensures
            d == (Date { year: 1970i32, month: 1u8, day: 1u8 }),
    {
        Date { year: 1970, month: 1, day: 1 }
    }
}

} // verus!
