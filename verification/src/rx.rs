//! Regular expressions with named capture groups, behind a compiled handle.
//!
//! The regex engine itself is the `regex` crate; what it accepts and what a
//! pattern captures are named by uninterpreted spec functions, and everything
//! that can be checked — pairing captured texts with group names, demanding
//! that every declared group participated — is verified here.
use vstd::prelude::*;
use crate::QueryError;

verus! {

/// Whether the `regex` crate accepts `pat` as a pattern.
pub uninterp spec fn regex_compiles(pat: Seq<char>) -> bool;

/// The named capture groups that `pat` declares, in declaration order.
pub uninterp spec fn group_names(pat: Seq<char>) -> Seq<Seq<char>>;

/// What matching `line` against `pat` yields: `None` when the line does not
/// match; otherwise, for each named group of the pattern in declaration
/// order, the captured text, or `None` for a group that did not participate.
pub uninterp spec fn captures_of(pat: Seq<char>, line: Seq<char>) -> Option<
    Seq<Option<Seq<char>>>,
>;

/// A mapping from capture-group names to captured texts, one entry per
/// declared group, in declaration order.
pub type Record = Vec<(String, String)>;

/// The captured text of `o`, or the empty sequence when there is none.
pub open spec fn text_or_empty(o: Option<Seq<char>>) -> Seq<char> {
    match o {
        Some(t) => t,
        None => Seq::empty(),
    }
}

/// Whether every named group participated in the captures `vals`.
pub open spec fn all_present(vals: Seq<Option<Seq<char>>>) -> bool {
    forall|i: int| 0 <= i < vals.len() ==> vals[i] is Some
}

/// The record that `line` yields under `pat`: the group names paired with
/// the captured texts, or `None` when the line does not match or some
/// declared group did not participate.
pub open spec fn spec_record_of(pat: Seq<char>, line: Seq<char>) -> Option<
    Seq<(Seq<char>, Seq<char>)>,
> {
    match captures_of(pat, line) {
        None => None,
        Some(vals) => if all_present(vals) {
            Some(Seq::new(vals.len(), |i: int| (group_names(pat)[i], text_or_empty(vals[i]))))
        } else {
            None
        },
    }
}

/// A regular expression compiled from a configured pattern, kept together
/// with the pattern text it was compiled from.
pub struct CompiledRegex {
    re: regex::Regex,
    pattern: String,
}

#[verifier::external_type_specification]
#[verifier::external_body]
pub struct ExRegex(regex::Regex);

#[verifier::external_type_specification]
#[verifier::external_body]
pub struct ExRegexError(regex::Error);

impl CompiledRegex {
    /// The text of the pattern this expression was compiled from.
    pub closed spec fn pattern_view(&self) -> Seq<char> {
        self.pattern@
    }

    /// Relies on `regex::Regex::new`: a pattern string either compiles to an
    /// expression or is rejected with an error.
    #[verifier::external_body]
    fn regex_new(pat: &str) -> (r: Result<regex::Regex, regex::Error>)
        ensures
            (r is Ok) == regex_compiles(pat@),
    {
        regex::Regex::new(pat)
    }

    /// Compiles `pat`; a pattern the engine rejects is a configuration error.
    pub fn compile(pat: &str) -> (r: Result<CompiledRegex, QueryError>)
        ensures
            (r is Ok) == regex_compiles(pat@),
            (r matches Ok(c) ==> c.pattern_view() == pat@),
            (r matches Err(e) ==> e == QueryError::InvalidConfig),
    {
        match Self::regex_new(pat) {
            Ok(re) => Ok(CompiledRegex { re, pattern: pat.to_owned() }),
            Err(_) => Err(QueryError::InvalidConfig),
        }
    }

    /// Relies on `regex::Regex::captures`, `regex::Regex::capture_names` and
    /// `regex::Captures::name`: whether the line matches, and the text each
    /// named group captured. `self.re` is compiled from `self.pattern` (the
    /// one constructor, `compile`, guarantees it), so the outcome is a
    /// function of the pattern text and the line.
    #[verifier::external_body]
    fn captures_named(&self, line: &str) -> (r: Option<Vec<(String, Option<String>)>>)
        ensures
            (match r {
                None => captures_of(self.pattern_view(), line@) is None,
                Some(v) => captures_of(self.pattern_view(), line@) matches Some(vals)
                    && vals.len() == group_names(self.pattern_view()).len() && v@.len()
                    == vals.len() && (forall|i: int|
                    0 <= i < vals.len() ==> (#[trigger] v@[i].0)@ == group_names(
                        self.pattern_view(),
                    )[i]) && (forall|i: int|
                    0 <= i < vals.len() ==> (match (#[trigger] v@[i].1, vals[i]) {
                        (Some(t), Some(u)) => t@ == u,
                        (None, None) => true,
                        _ => false,
                    })),
            }),
    {
        let caps = self.re.captures(line)?;
        let mut out: Vec<(String, Option<String>)> = Vec::new();
        for name in self.re.capture_names() {
            if let Some(n) = name {
                let text = caps.name(n).map(|m| m.as_str().to_string());
                out.push((n.to_string(), text));
            }
        }
        Some(out)
    }

    /// Applies this expression to `line` and builds the record of all named
    /// groups. `line_no` is the line's zero-based position in the input, kept
    /// in the error. Fails when the line does not match, and when a declared
    /// group did not participate in the match: a record must carry every
    /// declared group or none.
    pub fn extract(&self, line: &str, line_no: usize) -> (r: Result<Record, QueryError>)
        ensures
            (match spec_record_of(self.pattern_view(), line@) {
                Some(rec) => r matches Ok(v) && v.deep_view() == rec,
                None => r matches Err(e) && e == (QueryError::LineExtractionFailure {
                    line: line_no,
                }),
            }),
    {
        let groups = match self.captures_named(line) {
            None => {
                return Err(QueryError::LineExtractionFailure { line: line_no });
            },
            Some(g) => g,
        };
        let ghost vals = captures_of(self.pattern_view(), line@)->Some_0;
        let mut rec: Record = Vec::new();
        let mut i: usize = 0;
        while i < groups.len()
            invariant
                i <= groups.len(),
                captures_of(self.pattern_view(), line@) == Some(vals),
                vals.len() == group_names(self.pattern_view()).len(),
                groups@.len() == vals.len(),
                forall|k: int|
                    0 <= k < vals.len() ==> (#[trigger] groups@[k].0)@ == group_names(
                        self.pattern_view(),
                    )[k],
                forall|k: int|
                    0 <= k < vals.len() ==> (match (#[trigger] groups@[k].1, vals[k]) {
                        (Some(t), Some(u)) => t@ == u,
                        (None, None) => true,
                        _ => false,
                    }),
                forall|k: int| 0 <= k < i ==> vals[k] is Some,
                rec@.len() == i,
                forall|k: int|
                    0 <= k < i ==> (#[trigger] rec.deep_view()[k]) == (
                    group_names(self.pattern_view())[k],
                    text_or_empty(vals[k]),
                ),
            decreases groups.len() - i,
        {
            let (name, text) = (&groups[i].0, &groups[i].1);
            match text {
                Some(t) => {
                    let entry = (name.clone(), t.clone());
                    let ghost pre = rec.deep_view();
                    rec.push(entry);
                    proof {
                        assert(rec@[i as int] == entry);
                        assert(rec.deep_view()[i as int] == (entry.0@, entry.1@));
                        assert(forall|k: int|
                            0 <= k < i ==> #[trigger] rec.deep_view()[k] == pre[k]);
                    }
                },
                None => {
                    proof {
                        assert(!all_present(vals));
                    }
                    return Err(QueryError::LineExtractionFailure { line: line_no });
                },
            }
            i += 1;
        }
        proof {
            assert(all_present(vals));
            let rdeep = rec.deep_view();
            let srec = spec_record_of(self.pattern_view(), line@)->Some_0;
            assert(rdeep =~= srec);
        }
        Ok(rec)
    }
}

} // verus!
