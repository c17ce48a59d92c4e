//! The date-range filter: parsing a `"<from>@<to>"` string into a pair of
//! timestamps. A segment is parsed as a full date-time first and, failing
//! that, with midnight appended. The parsed range is validated up front but
//! is not consulted during line selection.
use vstd::prelude::*;
use crate::QueryError;
use crate::text::count_char;
use crate::text::find_char;
use crate::text::spec_count_char;
use crate::text::spec_find_char;

verus! {

/// What `chrono` yields for a string parsed with a format: the timestamp,
/// in seconds since the epoch, or nothing when the string does not fit the
/// format.
pub uninterp spec fn datetime_parse(s: Seq<char>, fmt: Seq<char>) -> Option<int>;

/// Relies on `chrono::NaiveDateTime::parse_from_str` (and `and_utc`,
/// `timestamp` of the parsed value): whether `s` fits `fmt` and, when it
/// does, the timestamp it denotes, a function of the two strings alone.
#[verifier::external_body]
fn parse_datetime(s: &str, fmt: &str) -> (r: Option<i64>)
    ensures
        (match r {
            Some(t) => datetime_parse(s@, fmt@) == Some(t as int),
            None => datetime_parse(s@, fmt@) is None,
        }),
{
    match chrono::NaiveDateTime::parse_from_str(s, fmt) {
        Ok(d) => Some(d.and_utc().timestamp()),
        Err(_) => None,
    }
}

/// The date-time format a range segment must fit.
pub open spec fn spec_datetime_format() -> Seq<char> {
    "%Y-%m-%d_%H:%M:%S"@
}

/// `seg` with the midnight time-of-day appended.
pub open spec fn with_midnight(seg: Seq<char>) -> Seq<char> {
    seg + "_00:00:00"@
}

/// What a range segment parses to: tried as a full date-time first, then
/// with midnight appended.
pub open spec fn spec_seg_parse(seg: Seq<char>) -> Option<int> {
    match datetime_parse(seg, spec_datetime_format()) {
        Some(t) => Some(t),
        None => datetime_parse(with_midnight(seg), spec_datetime_format()),
    }
}

/// The two segments of a date-filter string: the halves around a single
/// `@`, or the whole string twice when there is no `@`; more than one `@`
/// is malformed.
pub open spec fn spec_segments(s: Seq<char>) -> Option<(Seq<char>, Seq<char>)> {
    if spec_count_char(s, '@') == 0 {
        Some((s, s))
    } else if spec_count_char(s, '@') == 1 {
        match spec_find_char(s, '@') {
            Some(i) => Some((s.subrange(0, i), s.subrange(i + 1, s.len() as int))),
            None => None,
        }
    } else {
        None
    }
}

/// Whether `s` is a valid date-filter string: empty, or with both segments
/// parsing as date-times.
pub open spec fn spec_date_filter_ok(s: Seq<char>) -> bool {
    s.len() == 0 || (match spec_segments(s) {
        Some((a, b)) => spec_seg_parse(a) is Some && spec_seg_parse(b) is Some,
        None => false,
    })
}

/// An inclusive range of timestamps; an absent bound is unconstrained.
#[derive(Debug)]
pub struct DateRange {
    pub from: Option<i64>,
    pub to: Option<i64>,
}

/// Splits a non-empty date-filter string into its two segments.
fn split_segments(s: &str) -> (r: Option<(String, String)>)
    ensures
        (match r {
            Some((a, b)) => spec_segments(s@) == Some((a@, b@)),
            None => spec_segments(s@) is None,
        }),
{
    let n = count_char(s, '@');
    if n == 0 {
        Some((s.to_owned(), s.to_owned()))
    } else if n == 1 {
        match find_char(s, '@') {
            Some(i) => {
                let n = s.unicode_len();
                let a = s.substring_char(0, i);
                let b = s.substring_char(i + 1, n);
                proof {
                    lemma_find_char_is_index(s@, '@');
                }
                Some((a.to_owned(), b.to_owned()))
            },
            None => {
                proof {
                    lemma_find_char_when_counted(s@, '@');
                    assert(false);
                }
                None
            },
        }
    } else {
        None
    }
}

proof fn lemma_find_char_is_index(s: Seq<char>, c: char)
    ensures
        (match spec_find_char(s, c) {
            Some(i) => 0 <= i < s.len() && s[i] == c,
            None => true,
        }),
    decreases s.len(),
{
    if s.len() > 0 && s[0] != c {
        lemma_find_char_is_index(s.drop_first(), c);
    }
}

proof fn lemma_find_char_when_counted(s: Seq<char>, c: char)
    requires
        spec_count_char(s, c) > 0,
    ensures
        spec_find_char(s, c) is Some,
    decreases s.len(),
{
    if s.len() > 0 {
        if s[0] == c {
        } else {
            lemma_count_drop_first(s, c);
            lemma_find_char_when_counted(s.drop_first(), c);
        }
    }
}

proof fn lemma_count_drop_first(s: Seq<char>, c: char)
    requires
        s.len() > 0,
        s[0] != c,
    ensures
        spec_count_char(s.drop_first(), c) == spec_count_char(s, c),
    decreases s.len(),
{
    if s.len() == 1 {
        assert(s.last() == s[0]);
        assert(s.drop_first() =~= Seq::<char>::empty());
        assert(s.drop_last() =~= Seq::<char>::empty());
        assert(spec_count_char(Seq::<char>::empty(), c) == 0);
        assert(spec_count_char(s.drop_first(), c) == 0);
        assert(spec_count_char(s, c) == 0);
    } else {
        lemma_count_drop_first(s.drop_last(), c);
        assert(s.drop_last()[0] == s[0]);
        assert(s.drop_last().drop_first() =~= s.drop_first().drop_last());
        assert(s.drop_first().len() > 0);
        assert(s.drop_first().last() == s.last());
        assert(spec_count_char(s.drop_first(), c) == spec_count_char(
            s.drop_first().drop_last(),
            c,
        ) + if s.drop_first().last() == c {
            1int
        } else {
            0int
        });
        assert(spec_count_char(s.drop_first().drop_last(), c) == spec_count_char(
            s.drop_last().drop_first(),
            c,
        ));
        assert(spec_count_char(s.drop_last().drop_first(), c) == spec_count_char(
            s.drop_last(),
            c,
        ));
    }
}

/// Parses one range segment: as a full date-time first and, failing that,
/// with a default time of midnight appended.
fn parse_segment(seg: &str) -> (r: Option<i64>)
    ensures
        (match r {
            Some(t) => spec_seg_parse(seg@) == Some(t as int),
            None => spec_seg_parse(seg@) is None,
        }),
{
    match parse_datetime(seg, "%Y-%m-%d_%H:%M:%S") {
        Some(t) => Some(t),
        None => {
            let padded = seg.to_owned().concat("_00:00:00");
            parse_datetime(padded.as_str(), "%Y-%m-%d_%H:%M:%S")
        },
    }
}

/// Parses a date-filter string into a range. The empty string is the
/// unconstrained range; otherwise both segments must parse, and a string
/// with more than one `@` is malformed.
pub fn parse_date_filter(s: &str) -> (r: Result<DateRange, QueryError>)
    ensures
        (r is Ok) == spec_date_filter_ok(s@),
        (r matches Err(e) ==> e == QueryError::InvalidDateFilter),
        s@.len() == 0 ==> (r matches Ok(d) && d.from is None && d.to is None),
        s@.len() > 0 && spec_date_filter_ok(s@) ==> (r matches Ok(d) && (match spec_segments(s@) {
            Some((a, b)) => (match (d.from, d.to) {
                (Some(f), Some(t)) => spec_seg_parse(a) == Some(f as int) && spec_seg_parse(b)
                    == Some(t as int),
                _ => false,
            }),
            None => false,
        })),
{
    if s.is_empty() {
        return Ok(DateRange { from: None, to: None });
    }
    let (a, b) = match split_segments(s) {
        None => {
            return Err(QueryError::InvalidDateFilter);
        },
        Some(p) => p,
    };
    let from = match parse_segment(a.as_str()) {
        None => {
            return Err(QueryError::InvalidDateFilter);
        },
        Some(t) => t,
    };
    let to = match parse_segment(b.as_str()) {
        None => {
            return Err(QueryError::InvalidDateFilter);
        },
        Some(t) => t,
    };
    Ok(DateRange { from: Some(from), to: Some(to) })
}

} // verus!
