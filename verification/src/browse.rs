use vstd::prelude::*;

verus! {

/// Paging parameters for the browse operation: a zero-based page number and
/// the number of rows per page.
pub struct Browse {
    page_number: u32,
    count: u32,
}

/// The page size used when a caller does not give one.
pub fn default_count() -> (c: u32)
    ensures
        c == 10u32,
{
    10
}

impl Browse {
    /// The page number this request asks for.
    pub closed spec fn spec_page_number(&self) -> u32 {
        self.page_number
    }

    /// The page size this request asks for.
    pub closed spec fn spec_count(&self) -> u32 {
        self.count
    }

    /// Builds a request; a missing page size falls back to the default of 10.
    pub fn new(page_number: u32, count: Option<u32>) -> (b: Browse)
        ensures
            b.spec_page_number() == page_number,
            b.spec_count() == (match count {
                Some(c) => c,
                None => 10u32,
            }),
    {
        let c: u32 = match count {
            Some(c) => c,
            None => default_count(),
        };
        Browse { page_number, count: c }
    }

    pub fn page_number(&self) -> (r: u32)
        ensures
            r == self.spec_page_number(),
    {
        self.page_number
    }

    pub fn count(&self) -> (r: u32)
        ensures
            r == self.spec_count(),
    {
        self.count
    }
}

} // verus!
