//! The top-level query: validate the date filter, resolve the file's log
//! type, derive the page index, run the scan, and shape the output for the
//! requested format.
use vstd::prelude::*;
use vstd::pervasive::unreached;
use crate::QueryError;
use crate::config::Resolution;
use crate::config::TypeConfig;
use crate::config::resolve;
use crate::config::spec_resolution;
use crate::dates::parse_date_filter;
use crate::dates::spec_date_filter_ok;
use crate::report::QueryReport;
use crate::report::build_report;
use crate::report::last_page_index;
use crate::report::spec_ceil_div;
use crate::rx::spec_record_of;
use crate::scan::ScanItems;
use crate::scan::ScanMode;
use crate::scan::ScanRequest;
use crate::scan::scan;
use crate::scan::spec_passing;
use crate::scan::spec_window;
use crate::text::join_lines;
use crate::text::spec_join_nl;
use crate::text::spec_trim;

verus! {

/// The shape of the output the caller asked for.
#[derive(Clone, Copy, Debug, PartialEq, Eq, Structural)]
pub enum OutputFormat {
    /// Only the total count of filter-passing lines.
    LinesNumber,
    /// A structured summary with one record per selected line.
    Json,
    /// The selected lines themselves, trimmed and joined with newlines.
    StringList,
}

/// What a query yields, by format.
#[derive(Debug)]
pub enum QueryOutput {
    /// The total count of filter-passing lines.
    Count(usize),
    /// The structured summary.
    Report(QueryReport),
    /// The selected lines, newline-joined.
    Text(String),
}

/// The page index the scan applies: the caller's, or — in last-page mode —
/// the index of the final page of the whole, unfiltered file, which is
/// page 1 for an empty file.
pub open spec fn spec_effective_index(
    total: int,
    page_index: int,
    page_size: int,
    last_page: bool,
) -> int {
    if last_page {
        if total > 0 {
            spec_ceil_div(total, page_size)
        } else {
            1
        }
    } else {
        page_index
    }
}

/// Runs one query over the lines of a file.
///
/// The date filter is validated first (its range is not applied to line
/// selection); then the file's log type is resolved, fatally if the
/// configuration is malformed; then one scan pass runs, directed by the
/// format: `LinesNumber` counts every filter-passing line, `Json` selects
/// a page and extracts a record per selected line, `StringList` selects a
/// page of trimmed raw lines. In last-page mode the page index is derived
/// from the file's total line count instead of the caller's index.
pub fn run_query(
    config: &TypeConfig,
    path: &str,
    lines: &Vec<String>,
    file_size: u64,
    filter: &str,
    date_filter: &str,
    page_index: usize,
    page_size: usize,
    last_page: bool,
    format: OutputFormat,
) -> (r: Result<QueryOutput, QueryError>)
    requires
        page_size > 0 ==> page_index >= 1,
        page_index * page_size <= usize::MAX,
        lines@.len() + page_size <= usize::MAX,
    ensures
        !spec_date_filter_ok(date_filter@) ==> (r matches Err(e) && e
            == QueryError::InvalidDateFilter),
        spec_date_filter_ok(date_filter@) && spec_resolution(
            config.types_view(),
            config.bindings_view(),
            path@,
        ) is BadConfig ==> (r matches Err(e) && e == QueryError::InvalidConfig),
        spec_date_filter_ok(date_filter@) && !(spec_resolution(
            config.types_view(),
            config.bindings_view(),
            path@,
        ) is BadConfig) && page_size == 0 ==> (match format {
            OutputFormat::LinesNumber => r matches Ok(QueryOutput::Count(c)) && c == 0,
            OutputFormat::StringList => r matches Ok(QueryOutput::Text(t)) && t@.len() == 0,
            OutputFormat::Json => r matches Ok(QueryOutput::Report(rep)) && rep.items_count == 0
                && rep.lines@.len() == 0 && rep.pages_count == 0,
        }),
        spec_date_filter_ok(date_filter@) && !(spec_resolution(
            config.types_view(),
            config.bindings_view(),
            path@,
        ) is BadConfig) && page_size > 0 ==> ({
            let pass = spec_passing(lines.deep_view(), filter@);
            let idx = spec_effective_index(
                lines@.len() as int,
                page_index as int,
                page_size as int,
                last_page,
            );
            let win = spec_window(pass, (idx - 1) * page_size, idx * page_size);
            match format {
                OutputFormat::LinesNumber => r matches Ok(QueryOutput::Count(c)) && c
                    == pass.len(),
                OutputFormat::StringList => r matches Ok(QueryOutput::Text(t)) && t@
                    == spec_join_nl(win.map_values(|l: Seq<char>| spec_trim(l))),
                OutputFormat::Json => (match spec_resolution(
                    config.types_view(),
                    config.bindings_view(),
                    path@,
                ) {
                    Resolution::Unbound => r matches Err(e) && e
                        == QueryError::UnresolvedFileType,
                    Resolution::Bound(pat, fmt) => {
                        &&& (r is Err) == (exists|k: int|
                            0 <= k < win.len() && (#[trigger] spec_record_of(pat, win[k])) is None)
                        &&& (r matches Err(e) ==> e matches QueryError::LineExtractionFailure {
                            ..
                        })
                        &&& (r matches Ok(QueryOutput::Report(rep)) ==> {
                            &&& rep.items_count == pass.len()
                            &&& rep.page_index == idx
                            &&& rep.page_size == page_size
                            &&& rep.pages_count == spec_ceil_div(
                                pass.len() as int,
                                page_size as int,
                            )
                            &&& rep.file_size == file_size
                            &&& rep.lines.deep_view().len() == win.len()
                            &&& (forall|k: int|
                                0 <= k < win.len() ==> #[trigger] spec_record_of(pat, win[k])
                                    == Some(rep.lines.deep_view()[k]))
                        })
                        &&& (r is Ok ==> r matches Ok(QueryOutput::Report(_)))
                    },
                    Resolution::BadConfig => false,
                }),
            }
        }),
{
    match parse_date_filter(date_filter) {
        Err(e) => {
            return Err(e);
        },
        Ok(_) => {},
    }
    let resolved = match resolve(config, path) {
        Err(e) => {
            return Err(e);
        },
        Ok(o) => o,
    };
    let idx = if page_size > 0 && last_page {
        last_page_index(lines.len(), page_size)
    } else {
        page_index
    };
    let (mode, count_to_end) = match format {
        OutputFormat::LinesNumber => (ScanMode::CountOnly, true),
        OutputFormat::Json => (ScanMode::StructuredRecords, true),
        OutputFormat::StringList => (ScanMode::RawLines, false),
    };
    let regex = match resolved {
        Some(res) => Some(res.regex),
        None => None,
    };
    let req = ScanRequest {
        filter: filter.to_owned(),
        page_index: idx,
        page_size,
        mode,
        count_to_end,
        regex,
    };
    let result = match scan(lines, &req) {
        Err(e) => {
            return Err(e);
        },
        Ok(x) => x,
    };
    match format {
        OutputFormat::LinesNumber => Ok(QueryOutput::Count(result.matched_count)),
        OutputFormat::StringList => match result.items {
            ScanItems::Lines(v) => {
                proof {
                    if page_size > 0 {
                        let pass = spec_passing(lines.deep_view(), req.filter@);
                        let win = spec_window(pass, req.begin(), req.end());
                        assert(v.deep_view() =~= win.map_values(|l: Seq<char>| spec_trim(l)));
                    } else {
                        assert(v.deep_view() =~= Seq::<Seq<char>>::empty());
                    }
                }
                Ok(QueryOutput::Text(join_lines(&v)))
            },
            ScanItems::Records(_) => unreached(),
        },
        OutputFormat::Json => match result.items {
            ScanItems::Records(v) => {
                let rep = build_report(result.matched_count, idx, page_size, file_size, v);
                Ok(QueryOutput::Report(rep))
            },
            ScanItems::Lines(_) => unreached(),
        },
    }
}

} // verus!
