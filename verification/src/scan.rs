//! The streaming scan engine: one forward pass over the lines of a file,
//! filtering by substring, windowing the filter-passing lines into the
//! requested page, and — in structured mode — extracting a record from each
//! selected line.
use vstd::prelude::*;
use vstd::pervasive::unreached;
use crate::QueryError;
use crate::rx::CompiledRegex;
use crate::rx::Record;
use crate::rx::spec_record_of;
use crate::text::contains_substring;
use crate::text::spec_contains;
use crate::text::spec_trim;
use crate::text::trim_str;

verus! {

/// Whether a line passes the substring filter: every line passes the empty
/// filter, otherwise the line must contain the filter text.
pub open spec fn spec_passes(line: Seq<char>, filter: Seq<char>) -> bool {
    filter.len() == 0 || spec_contains(line, filter)
}

/// The filter predicate as a function value, for filtering sequences.
pub open spec fn passes_pred(filter: Seq<char>) -> spec_fn(Seq<char>) -> bool {
    |l: Seq<char>| spec_passes(l, filter)
}

/// The subsequence of lines that pass the filter, in file order.
pub open spec fn spec_passing(lines: Seq<Seq<char>>, filter: Seq<char>) -> Seq<Seq<char>> {
    lines.filter(passes_pred(filter))
}

/// `x`, bounded above by `n`.
pub open spec fn spec_clip(x: int, n: int) -> int {
    if x <= n {
        x
    } else {
        n
    }
}

/// The half-open window `[begin, end)` of `s`, clipped to its length.
pub open spec fn spec_window(s: Seq<Seq<char>>, begin: int, end: int) -> Seq<Seq<char>>
    recommends
        0 <= begin <= end,
{
    s.subrange(spec_clip(begin, s.len() as int), spec_clip(end, s.len() as int))
}

/// The count the scan reports: the number of filter-passing lines seen up
/// to the point the pass stopped — all of them when the pass runs to the
/// end, and at most `end` otherwise.
pub open spec fn spec_reported_count(pass_len: int, end: int, to_end: bool) -> int {
    if to_end {
        pass_len
    } else {
        spec_clip(pass_len, end)
    }
}

/// Whether a line passes the substring filter, as executable code.
pub fn passes(line: &str, filter: &str) -> (r: bool)
    ensures
        r == spec_passes(line@, filter@),
{
    if filter.is_empty() {
        true
    } else {
        contains_substring(line, filter)
    }
}

/// What the scan materializes per selected line.
#[derive(Clone, Copy, Debug, PartialEq, Eq, Structural)]
pub enum ScanMode {
    /// Only the total matched count; no line is materialized.
    CountOnly,
    /// The selected lines themselves, trimmed.
    RawLines,
    /// A record of named capture groups per selected line.
    StructuredRecords,
}

/// One scan query: the filter, the page window, the mode, whether the pass
/// must run to the end of the file for an exact total, and — for structured
/// mode — the resolved expression.
pub struct ScanRequest {
    /// Lines must contain this text; empty means every line passes.
    pub filter: String,
    /// 1-based page index over the filter-passing lines.
    pub page_index: usize,
    /// Lines per page; zero disables the scan entirely.
    pub page_size: usize,
    /// What to materialize.
    pub mode: ScanMode,
    /// Run to the end of the file even once the page is full, so that the
    /// reported count is the exact total.
    pub count_to_end: bool,
    /// The expression for structured extraction, when one is resolved.
    pub regex: Option<CompiledRegex>,
}

impl ScanRequest {
    /// Whether the pass runs to the end of the file: counting always does.
    pub open spec fn to_end(&self) -> bool {
        self.count_to_end || self.mode is CountOnly
    }

    /// The zero-based start of the selection window.
    pub open spec fn begin(&self) -> int {
        (self.page_index - 1) * self.page_size
    }

    /// The zero-based end (exclusive) of the selection window.
    pub open spec fn end(&self) -> int {
        self.page_index * self.page_size
    }
}

/// The materialized items of a scan.
pub enum ScanItems {
    /// Trimmed raw lines (empty in count-only mode).
    Lines(Vec<String>),
    /// One record per selected line.
    Records(Vec<Record>),
}

impl ScanItems {
    /// Whether no item was materialized.
    pub open spec fn is_empty(&self) -> bool {
        match self {
            ScanItems::Lines(v) => v@.len() == 0,
            ScanItems::Records(v) => v@.len() == 0,
        }
    }
}

/// What a scan returns: the count of filter-passing lines seen, and the
/// materialized items.
pub struct ScanResult {
    pub matched_count: usize,
    pub items: ScanItems,
}

/// One streaming pass over `lines`, as the request directs.
///
/// With a page size of zero nothing is scanned at all and the result is
/// empty with a zero count, by design. Structured mode without a resolved
/// expression is a fatal error, as is a selected line that does not yield a
/// full record.
pub fn scan(lines: &Vec<String>, req: &ScanRequest) -> (r: Result<ScanResult, QueryError>)
    requires
        req.page_size > 0 ==> req.page_index >= 1,
        req.page_index * req.page_size <= usize::MAX,
    ensures
        req.page_size == 0 ==> (r matches Ok(res) && res.matched_count == 0
            && res.items.is_empty()),
        req.page_size > 0 && req.mode is StructuredRecords && req.regex is None ==> (r matches Err(
            e,
        ) && e == QueryError::UnresolvedFileType),
        r matches Ok(res) ==> res.matched_count <= lines@.len(),
        r matches Ok(res) ==> (match res.items {
            ScanItems::Lines(_) => !(req.mode is StructuredRecords),
            ScanItems::Records(_) => req.mode is StructuredRecords,
        }),
        req.page_size > 0 ==> (r matches Ok(res) ==> res.matched_count == spec_reported_count(
            spec_passing(lines.deep_view(), req.filter@).len() as int,
            req.end(),
            req.to_end(),
        )),
        req.page_size > 0 && req.mode is CountOnly ==> (r matches Ok(res) && res.items matches
            ScanItems::Lines(v) && v@.len() == 0),
        req.page_size > 0 && req.mode is RawLines ==> (r matches Ok(res) && res.items matches
            ScanItems::Lines(v) && ({
            let win = spec_window(
                spec_passing(lines.deep_view(), req.filter@),
                req.begin(),
                req.end(),
            );
            v.deep_view().len() == win.len() && (forall|k: int|
                0 <= k < win.len() ==> v.deep_view()[k] == spec_trim(#[trigger] win[k]))
        })),
        req.page_size > 0 && req.mode is StructuredRecords ==> (req.regex matches Some(rx) ==> ({
            let win = spec_window(
                spec_passing(lines.deep_view(), req.filter@),
                req.begin(),
                req.end(),
            );
            let pat = rx.pattern_view();
            &&& (r is Err) == (exists|k: int|
                0 <= k < win.len() && (#[trigger] spec_record_of(pat, win[k])) is None)
            &&& (r matches Err(qe) ==> qe matches QueryError::LineExtractionFailure { line } && ({
                let mi = spec_passing(lines.deep_view().take(line as int), req.filter@).len();
                &&& line < lines@.len()
                &&& req.begin() <= mi < req.end()
                &&& mi - req.begin() < win.len()
                &&& win[mi - req.begin()] == lines.deep_view()[line as int]
                &&& spec_record_of(pat, win[mi - req.begin()]) is None
                &&& (forall|k: int|
                    0 <= k < mi - req.begin() ==> (#[trigger] spec_record_of(pat, win[k])) is Some)
            }))
            &&& (r matches Ok(res) ==> res.items matches ScanItems::Records(v) && v.deep_view().len()
                == win.len() && (forall|k: int|
                0 <= k < win.len() ==> #[trigger] spec_record_of(pat, win[k]) == Some(
                    v.deep_view()[k],
                )))
        })),
{
    let ghost ldv = lines.deep_view();
    let ghost f = req.filter@;
    if req.page_size == 0 {
        let items = match req.mode {
            ScanMode::StructuredRecords => ScanItems::Records(Vec::new()),
            _ => ScanItems::Lines(Vec::new()),
        };
        return Ok(ScanResult { matched_count: 0, items });
    }
    let structured = match req.mode {
        ScanMode::StructuredRecords => true,
        _ => false,
    };
    let raw = match req.mode {
        ScanMode::RawLines => true,
        _ => false,
    };
    let rx_opt: Option<&CompiledRegex> = req.regex.as_ref();
    if structured && rx_opt.is_none() {
        return Err(QueryError::UnresolvedFileType);
    }
    let ghost pat = match &req.regex {
        Some(rx) => rx.pattern_view(),
        None => Seq::<char>::empty(),
    };
    let to_end = req.count_to_end || match req.mode {
        ScanMode::CountOnly => true,
        _ => false,
    };
    proof {
        assert((req.page_index - 1) * req.page_size + req.page_size == req.page_index
            * req.page_size) by (nonlinear_arith)
            requires
                req.page_index >= 1,
        ;
    }
    let begin: usize = (req.page_index - 1) * req.page_size;
    let end: usize = req.page_index * req.page_size;
    let mut out_lines: Vec<String> = Vec::new();
    let mut out_recs: Vec<Record> = Vec::new();
    let mut match_idx: usize = 0;
    let mut i: usize = 0;
    proof {
        assert(ldv.take(0) =~= Seq::<Seq<char>>::empty());
        reveal(Seq::filter);
        assert(spec_passing(ldv.take(0), f) =~= Seq::<Seq<char>>::empty());
    }
    while i < lines.len() && (to_end || match_idx < end)
        invariant
            i <= lines.len(),
            ldv == lines.deep_view(),
            f == req.filter@,
            begin == req.begin(),
            end == req.end(),
            begin <= end,
            to_end == req.to_end(),
            structured == (req.mode is StructuredRecords),
            raw == (req.mode is RawLines),
            structured ==> (rx_opt matches Some(rx) && rx.pattern_view() == pat),
            structured ==> (req.regex matches Some(rr) && rr.pattern_view() == pat),
            match_idx == spec_passing(ldv.take(i as int), f).len(),
            match_idx <= i,
            !to_end ==> match_idx <= end,
            raw ==> ({
                let pwin = spec_window(spec_passing(ldv.take(i as int), f), begin as int, end as int);
                out_lines.deep_view().len() == pwin.len() && (forall|k: int|
                    0 <= k < pwin.len() ==> out_lines.deep_view()[k] == spec_trim(
                        #[trigger] pwin[k],
                    ))
            }),
            !raw ==> out_lines@.len() == 0,
            structured ==> ({
                let pwin = spec_window(spec_passing(ldv.take(i as int), f), begin as int, end as int);
                out_recs.deep_view().len() == pwin.len() && (forall|k: int|
                    0 <= k < pwin.len() ==> #[trigger] spec_record_of(pat, pwin[k]) == Some(
                        out_recs.deep_view()[k],
                    ))
            }),
            !structured ==> out_recs@.len() == 0,
        decreases lines.len() - i,
    {
        let line = &lines[i];
        proof {
            assert(ldv[i as int] == lines[i as int]@);
            assert(ldv.take(i + 1) =~= ldv.take(i as int).push(ldv[i as int]));
            ldv.take(i as int).lemma_filter_push(ldv[i as int], passes_pred(f));
        }
        let ghost prev = spec_passing(ldv.take(i as int), f);
        if passes(line.as_str(), req.filter.as_str()) {
            if match_idx >= begin && match_idx < end {
                proof {
                    assert(spec_window(prev.push(ldv[i as int]), begin as int, end as int)
                        =~= spec_window(prev, begin as int, end as int).push(ldv[i as int]));
                }
                if structured {
                    let rx = match rx_opt {
                        Some(rx) => rx,
                        None => unreached(),
                    };
                    match rx.extract(line.as_str(), i) {
                        Ok(rec) => {
                            let ghost pre = out_recs.deep_view();
                            out_recs.push(rec);
                            proof {
                                assert(out_recs.deep_view()[pre.len() as int]
                                    == out_recs@[pre.len() as int].deep_view());
                                assert(forall|k: int|
                                    0 <= k < pre.len() ==> #[trigger] out_recs.deep_view()[k]
                                        == pre[k]);
                            }
                        },
                        Err(qe) => {
                            proof {
                                ldv.take(i + 1).lemma_filter_monotone(ldv, passes_pred(f));
                                let pass = spec_passing(ldv, f);
                                let prefix2 = spec_passing(ldv.take(i + 1), f);
                                assert(prefix2 == prev.push(ldv[i as int]));
                                assert(prefix2.is_prefix_of(pass));
                                assert(pass.len() >= prefix2.len());
                                assert(forall|k: int|
                                    0 <= k < prefix2.len() ==> pass[k] == #[trigger] prefix2[k]);
                                assert(pass[match_idx as int] == prev.push(
                                    ldv[i as int],
                                )[match_idx as int]);
                                let win = spec_window(pass, begin as int, end as int);
                                assert(win[match_idx - begin] == pass[match_idx as int]);
                                let pwin = spec_window(prev, begin as int, end as int);
                                assert(pwin.len() == match_idx - begin);
                                assert forall|k: int| 0 <= k < pwin.len() implies win[k]
                                    == #[trigger] pwin[k] by {
                                    assert(pwin[k] == prev[begin + k]);
                                    assert(prefix2[begin + k] == prev.push(
                                        ldv[i as int],
                                    )[begin + k]);
                                    assert(prev[begin + k] == prefix2[begin + k]);
                                    assert(prefix2[begin + k] == pass[begin + k]);
                                    assert(win[k] == pass[begin + k]);
                                }
                                assert(win[match_idx - begin] == ldv[i as int]);
                                assert(spec_record_of(pat, win[match_idx - begin]) is None);
                                assert forall|k: int| 0 <= k < match_idx - begin implies (
                                #[trigger] spec_record_of(pat, win[k])) is Some by {
                                    assert(win[k] == pwin[k]);
                                    assert(spec_record_of(pat, pwin[k]) == Some(
                                        out_recs.deep_view()[k],
                                    ));
                                }
                            }
                            return Err(qe);
                        },
                    }
                } else if raw {
                    let t = trim_str(line.as_str());
                    let ghost pre = out_lines.deep_view();
                    out_lines.push(t);
                    proof {
                        assert(out_lines.deep_view()[pre.len() as int]
                            == out_lines@[pre.len() as int].deep_view());
                        assert(forall|k: int|
                            0 <= k < pre.len() ==> #[trigger] out_lines.deep_view()[k] == pre[k]);
                    }
                }
            } else {
                proof {
                    assert(spec_window(prev.push(ldv[i as int]), begin as int, end as int)
                        =~= spec_window(prev, begin as int, end as int));
                }
            }
            match_idx += 1;
        }
        i += 1;
    }
    proof {
        let pass = spec_passing(ldv, f);
        if i == lines.len() {
            assert(ldv.take(i as int) =~= ldv);
        } else {
            assert(!to_end && match_idx == end);
            ldv.take(i as int).lemma_filter_monotone(ldv, passes_pred(f));
            let prefix = spec_passing(ldv.take(i as int), f);
            assert(prefix.is_prefix_of(pass));
            assert(pass.len() >= end);
            assert(forall|k: int| 0 <= k < prefix.len() ==> pass[k] == #[trigger] prefix[k]);
            assert(spec_window(pass, begin as int, end as int) =~= spec_window(
                prefix,
                begin as int,
                end as int,
            ));
        }
    }
    let items = if structured {
        ScanItems::Records(out_recs)
    } else {
        ScanItems::Lines(out_lines)
    };
    Ok(ScanResult { matched_count: match_idx, items })
}

} // verus!
