//! Paging arithmetic and the summary that the structured output carries:
//! counts, the page window, the page count, and the file's byte length.
use vstd::prelude::*;
use crate::rx::Record;

verus! {

/// `n / d`, rounded up.
pub open spec fn spec_ceil_div(n: int, d: int) -> int {
    (n + d - 1) / d
}

/// Rounding up really rounds up: the quotient covers `n`, and one page
/// fewer would not.
pub proof fn lemma_ceil_div_bounds(n: int, d: int)
    requires
        n >= 0,
        d > 0,
    ensures
        spec_ceil_div(n, d) * d >= n,
        spec_ceil_div(n, d) * d <= n + d - 1,
        spec_ceil_div(n, d) >= 0,
        n > 0 ==> spec_ceil_div(n, d) >= 1,
        n == 0 ==> spec_ceil_div(n, d) == 0,
{
    let m = n + d - 1;
    vstd::arithmetic::div_mod::lemma_fundamental_div_mod(m, d);
    vstd::arithmetic::div_mod::lemma_mod_bound(m, d);
    vstd::arithmetic::div_mod::lemma_div_pos_is_pos(m, d);
    assert(d * (m / d) == m - m % d);
    assert(spec_ceil_div(n, d) == m / d);
    assert((m / d) * d == d * (m / d)) by (nonlinear_arith);
    if n == 0 {
        vstd::arithmetic::div_mod::lemma_basic_div(d - 1, d);
    } else {
        assert(d * (m / d) >= n);
        assert(m / d >= 1) by (nonlinear_arith)
            requires
                d > 0,
                n > 0,
                d * (m / d) >= n,
        ;
    }
}

/// Ceiling division on machine integers.
pub fn ceil_div(n: usize, d: usize) -> (r: usize)
    requires
        d > 0,
        n + d <= usize::MAX,
    ensures
        r == spec_ceil_div(n as int, d as int),
{
    (n + d - 1) / d
}

/// The 1-based index of the last page of a file of `total_lines` lines —
/// the page count of the whole, unfiltered file — never less than 1, so
/// that an empty file still addresses a (empty) first page.
pub fn last_page_index(total_lines: usize, page_size: usize) -> (r: usize)
    requires
        page_size > 0,
        total_lines + page_size <= usize::MAX,
    ensures
        total_lines > 0 ==> r == spec_ceil_div(total_lines as int, page_size as int),
        total_lines == 0 ==> r == 1,
        r >= 1,
        r * page_size <= total_lines + page_size,
{
    proof {
        lemma_ceil_div_bounds(total_lines as int, page_size as int);
    }
    let c = ceil_div(total_lines, page_size);
    if c == 0 {
        1
    } else {
        c
    }
}

/// The summary of a structured query: the exact total of filter-passing
/// lines, the page window that was applied, the count of pages the total
/// fills, the file's byte length, and the selected records.
#[derive(Debug)]
pub struct QueryReport {
    /// Total filter-passing lines in the file.
    pub items_count: usize,
    /// The 1-based page index that was applied.
    pub page_index: usize,
    /// Lines per page.
    pub page_size: usize,
    /// How many pages the total fills: `ceil(items_count / page_size)`.
    pub pages_count: usize,
    /// The file's length in bytes.
    pub file_size: u64,
    /// One record per selected line.
    pub lines: Vec<Record>,
}

/// Builds the summary; the page count is derived from the total and the
/// page size, and is zero when the page size is zero.
pub fn build_report(
    items_count: usize,
    page_index: usize,
    page_size: usize,
    file_size: u64,
    lines: Vec<Record>,
) -> (r: QueryReport)
    requires
        items_count + page_size <= usize::MAX,
    ensures
        r.items_count == items_count,
        r.page_index == page_index,
        r.page_size == page_size,
        r.file_size == file_size,
        r.lines == lines,
        page_size > 0 ==> r.pages_count == spec_ceil_div(items_count as int, page_size as int),
        page_size == 0 ==> r.pages_count == 0,
{
    let pages_count = if page_size == 0 {
        0
    } else {
        ceil_div(items_count, page_size)
    };
    QueryReport { items_count, page_index, page_size, pages_count, file_size, lines }
}

} // verus!
