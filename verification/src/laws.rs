//! General properties of the paging window, proved once and for all.
use vstd::prelude::*;
use crate::query::spec_effective_index;
use crate::report::lemma_ceil_div_bounds;
use crate::report::spec_ceil_div;
use crate::scan::spec_clip;
use crate::scan::spec_passing;
use crate::scan::spec_window;

verus! {

/// Page `idx` (1-based) of `s`: the window of its `idx`-th `size` elements.
pub open spec fn spec_page(s: Seq<Seq<char>>, idx: int, size: int) -> Seq<Seq<char>> {
    spec_window(s, (idx - 1) * size, idx * size)
}

proof fn lemma_pages_prefix(s: Seq<Seq<char>>, size: int, m: int)
    requires
        size > 0,
        m >= 0,
    ensures
        Seq::new(m as nat, |k: int| spec_page(s, k + 1, size)).flatten() == s.take(
            spec_clip(m * size, s.len() as int),
        ),
    decreases m,
{
    let pages = Seq::new(m as nat, |k: int| spec_page(s, k + 1, size));
    if m == 0 {
        assert(pages =~= Seq::<Seq<Seq<char>>>::empty());
        assert(pages.flatten() =~= s.take(0));
    } else {
        lemma_pages_prefix(s, size, m - 1);
        let prev = Seq::new((m - 1) as nat, |k: int| spec_page(s, k + 1, size));
        assert(pages =~= prev.push(spec_page(s, m, size)));
        vstd::seq_lib::lemma_flatten_concat(prev, seq![spec_page(s, m, size)]);
        assert(prev + seq![spec_page(s, m, size)] =~= pages);
        seq![spec_page(s, m, size)].lemma_flatten_one_element();
        assert(pages.flatten() == prev.flatten() + spec_page(s, m, size));
        assert((m - 1) * size == m * size - size) by (nonlinear_arith);
        assert(s.take(spec_clip((m - 1) * size, s.len() as int)) + spec_page(s, m, size) =~= s.take(
            spec_clip(m * size, s.len() as int),
        ));
    }
}

/// The pages `1 ..= ceil(len / size)` of a sequence, concatenated in order,
/// are exactly the sequence: every element appears once, in order, and no
/// page holds anything else. Applied to the filter-passing lines of a file,
/// this is the guarantee that walking the pages of a query yields the full
/// filtered sequence with no duplicates and no omissions.
pub proof fn lemma_pages_cover(s: Seq<Seq<char>>, size: int)
    requires
        size > 0,
    ensures
        Seq::new(spec_ceil_div(s.len() as int, size) as nat, |k: int| spec_page(s, k + 1, size))
            .flatten() == s,
{
    let n = spec_ceil_div(s.len() as int, size);
    lemma_ceil_div_bounds(s.len() as int, size);
    lemma_pages_prefix(s, size, n);
    assert(spec_clip(n * size, s.len() as int) == s.len() as int);
    assert(s.take(s.len() as int) =~= s);
}

/// The same, stated for the filter-passing lines of a file: the pages of
/// the filtered sequence, walked in order, recover it exactly.
pub proof fn lemma_query_pages_cover(lines: Seq<Seq<char>>, filter: Seq<char>, size: int)
    requires
        size > 0,
    ensures
        ({
            let pass = spec_passing(lines, filter);
            Seq::new(
                spec_ceil_div(pass.len() as int, size) as nat,
                |k: int| spec_page(pass, k + 1, size),
            ).flatten() == pass
        }),
{
    lemma_pages_cover(spec_passing(lines, filter), size);
}

/// In last-page mode, for a file with at least one line, the page index
/// the scan applies is the ceiling of the file's total line count over the
/// page size — and, by the contract of `run_query`, the window selected is
/// that page index applied to the filter-passing subsequence. (An empty
/// file is addressed as page 1, whatever the page size.)
pub proof fn lemma_last_page_index(total: int, page_index: int, page_size: int)
    requires
        page_size > 0,
        total >= 1,
    ensures
        spec_effective_index(total, page_index, page_size, true) == spec_ceil_div(
            total,
            page_size,
        ),
{
}

} // verus!
