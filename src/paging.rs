//! The pagination a listing request carries.
use vstd::prelude::*;

verus! {

/// The page shown when a request names none.
pub const DEFAULT_PAGE: i64 = 1;

/// The page size used when a request names none.
pub const DEFAULT_LIMIT: i64 = 25;

/// A listing request's page (counted from 1) and page size.
#[derive(Debug, Clone, Copy, PartialEq, Eq, Structural)]
pub struct PaginationQuery {
    pub page: Option<i64>,
    pub limit: Option<i64>,
}

impl PaginationQuery {
    pub open spec fn page_spec(&self) -> int {
        match self.page {
            Some(p) => p as int,
            None => DEFAULT_PAGE as int,
        }
    }

    pub open spec fn limit_spec(&self) -> int {
        match self.limit {
            Some(l) => l as int,
            None => DEFAULT_LIMIT as int,
        }
    }

    /// The number of rows skipped before the page: `(page - 1) * limit`.
    pub open spec fn offset_spec(&self) -> int {
        (self.page_spec() - 1) * self.limit_spec()
    }

    /// The requested page, 1 by default.
    pub fn page_or_default(&self) -> (r: i64)
        ensures
            r == self.page_spec(),
    {
        match self.page {
            Some(p) => p,
            None => DEFAULT_PAGE,
        }
    }

    /// The requested page size, 25 by default.
    pub fn limit_or_default(&self) -> (r: i64)
        ensures
            r == self.limit_spec(),
    {
        match self.limit {
            Some(l) => l,
            None => DEFAULT_LIMIT,
        }
    }

    /// The offset of the page, or `None` where it does not fit in an `i64`.
    pub fn offset(&self) -> (r: Option<i64>)
        ensures
            i64::MIN <= self.offset_spec() <= i64::MAX ==> r == Some(self.offset_spec() as i64),
            !(i64::MIN <= self.offset_spec() <= i64::MAX) ==> r is None,
    {
        let page = self.page_or_default() as i128;
        let limit = self.limit_or_default() as i128;
        let before = page - 1;
        assert(-0x8000_0000_0000_0001 <= before <= 0x7fff_ffff_ffff_fffe);
        assert(before * limit <= 0x8000_0000_0000_0001 * 0x8000_0000_0000_0000) by (nonlinear_arith)
            requires
                -0x8000_0000_0000_0001 <= before <= 0x7fff_ffff_ffff_fffe,
                -0x8000_0000_0000_0000 <= limit <= 0x7fff_ffff_ffff_ffff,
        ;
        assert(before * limit >= -(0x8000_0000_0000_0001 * 0x8000_0000_0000_0000)) by (nonlinear_arith)
            requires
                -0x8000_0000_0000_0001 <= before <= 0x7fff_ffff_ffff_fffe,
                -0x8000_0000_0000_0000 <= limit <= 0x7fff_ffff_ffff_ffff,
        ;
        let off = before * limit;
        if off < i64::MIN as i128 || off > i64::MAX as i128 {
            None
        } else {
            Some(off as i64)
        }
    }
}

} // verus!
