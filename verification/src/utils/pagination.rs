//! Page arithmetic for paged query results.

use vstd::prelude::*;

verus! {

/// The row offset of a 1-based page: `(page - 1) * page_size`, saturating
/// at both ends (page 0 reads as page 1; an offset past `u64::MAX` stops
/// there).
pub open spec fn offset_spec(page: u64, page_size: u64) -> u64 {
    let before: int = if page == 0 {
        0
    } else {
        page - 1
    };
    if before * page_size > u64::MAX {
        u64::MAX
    } else {
        (before * page_size) as u64
    }
}

pub fn offset_for(page: u64, page_size: u64) -> (r: u64)
    ensures
        r == offset_spec(page, page_size),
{
    let before = page.saturating_sub(1);
    match before.checked_mul(page_size) {
        Some(n) => n,
        None => u64::MAX,
    }
}

/// Pages are contiguous: page `page + 1` starts exactly `page_size` rows
/// after page `page` (for a 1-based page whose end fits in a `u64`).
pub proof fn lemma_pages_contiguous(page: u64, page_size: u64)
    requires
        page >= 1,
        page * page_size <= u64::MAX,
        page < u64::MAX,
    ensures
        offset_spec((page + 1) as u64, page_size) == offset_spec(page, page_size) + page_size,
{
    assert((page - 1) * page_size + page_size == page * page_size) by (nonlinear_arith);
    assert((page - 1) * page_size <= page * page_size) by (nonlinear_arith)
        requires
            page >= 1,
    ;
}

} // verus!
