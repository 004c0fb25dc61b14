use vstd::prelude::*;

verus! {

/// The resource groups the service exposes, one per entity plus the
/// validation demonstration group.
#[derive(Clone, Copy, Debug, PartialEq, Eq, Structural)]
pub enum Tags {
    Validation,
    User,
    Card,
    Bank,
}

} // verus!
