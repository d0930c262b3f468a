//! Paging metadata of list responses.
use vstd::prelude::*;

verus! {

/// The number of pages of `size` items that hold `total` items: `total / size`
/// rounded up.
pub open spec fn page_count(total: int, size: int) -> int {
    (total + size - 1) / size
}

/// Paging metadata sent with a list: items on this page, items in all, the
/// page number and size, and the number of pages.
#[derive(Debug)]
pub struct ListMeta {
    pub count: usize,
    pub total: i64,
    pub page: i64,
    pub size: i64,
    pub total_pages: i64,
}

proof fn lemma_page_count_parts(total: int, size: int)
    requires
        total >= 0,
        size >= 1,
    ensures
        page_count(total, size) == total / size + (if total % size != 0 { 1int } else { 0int }),
        0 <= page_count(total, size) <= total,
{
    assert(page_count(total, size) == total / size + (if total % size != 0 { 1int } else { 0int }))
        by (nonlinear_arith)
        requires
            total >= 0,
            size >= 1,
    {
        let q = total / size;
        let r = total % size;
        assert(total == q * size + r);
        assert(0 <= r < size);
        if r == 0 {
            assert(total + size - 1 == q * size + (size - 1));
        } else {
            assert(total + size - 1 == (q + 1) * size + (r - 1));
        }
    }
    assert(0 <= page_count(total, size) <= total) by (nonlinear_arith)
        requires
            total >= 0,
            size >= 1,
            page_count(total, size) == (total + size - 1) / size,
    {
        if total > 0 {
            assert((total + size - 1) / size <= total);
        }
    }
}

/// The metadata of a page: `total_pages` is `total / size` rounded up.
pub fn list_meta(count: usize, total: i64, page: i64, size: i64) -> (r: ListMeta)
    requires
        total >= 0,
        size >= 1,
    ensures
        r.count == count,
        r.total == total,
        r.page == page,
        r.size == size,
        r.total_pages == page_count(total as int, size as int),
{
    proof {
        lemma_page_count_parts(total as int, size as int);
    }
    let whole = total / size;
    let total_pages = if total % size != 0 { whole + 1 } else { whole };
    ListMeta { count, total, page, size, total_pages }
}

/// The page count is the least number of pages of `size` items that hold
/// `total` items: enough pages, and one fewer would not be.
pub proof fn lemma_page_count_is_least(total: int, size: int)
    requires
        total >= 0,
        size >= 1,
    ensures
        page_count(total, size) * size >= total,
        page_count(total, size) >= 1 ==> (page_count(total, size) - 1) * size < total,
        total == 0 ==> page_count(total, size) == 0,
{
    lemma_page_count_parts(total, size);
    let p = page_count(total, size);
    assert(p * size >= total && (p >= 1 ==> (p - 1) * size < total)) by (nonlinear_arith)
        requires
            total >= 0,
            size >= 1,
            p == total / size + (if total % size != 0 { 1int } else { 0int }),
    {
        let q = total / size;
        let r = total % size;
        assert(total == q * size + r);
        assert(0 <= r < size);
        assert(q >= 0);
    }
}

} // verus!
