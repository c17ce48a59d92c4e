//! The configuration table: log types, their patterns, and the binding of
//! file base names to types, with the resolution of a file path to a
//! compiled pattern and an optional date format.
use vstd::prelude::*;
use crate::QueryError;
use crate::rx::CompiledRegex;
use crate::rx::regex_compiles;
use crate::text::base_name;
use crate::text::spec_base_name;
use crate::text::str_eq;

verus! {

/// The association of a file base name with a log type.
pub struct FileBinding {
    /// The name of the log type, a key of the type table.
    pub log_type: String,
    /// The date format for lines of this file, if one is configured.
    pub date_format: Option<String>,
}

/// The mathematical value of a `FileBinding`.
pub struct FileBindingV {
    pub log_type: Seq<char>,
    pub date_format: Option<Seq<char>>,
}

impl View for FileBinding {
    type V = FileBindingV;

    open spec fn view(&self) -> FileBindingV {
        FileBindingV {
            log_type: self.log_type@,
            date_format: match self.date_format {
                Some(ref f) => Some(f@),
                None => None,
            },
        }
    }
}

/// The first value associated with `key` in `entries`, if any.
pub open spec fn spec_assoc<V>(entries: Seq<(Seq<char>, V)>, key: Seq<char>) -> Option<V>
    decreases entries.len(),
{
    if entries.len() == 0 {
        None
    } else if entries[0].0 == key {
        Some(entries[0].1)
    } else {
        spec_assoc(entries.drop_first(), key)
    }
}

proof fn lemma_assoc_found<V>(entries: Seq<(Seq<char>, V)>, key: Seq<char>, i: int)
    requires
        0 <= i < entries.len(),
        entries[i].0 == key,
        forall|k: int| 0 <= k < i ==> (#[trigger] entries[k]).0 != key,
    ensures
        spec_assoc(entries, key) == Some(entries[i].1),
    decreases i,
{
    if i > 0 {
        lemma_assoc_found(entries.drop_first(), key, i - 1);
    }
}

proof fn lemma_assoc_missing<V>(entries: Seq<(Seq<char>, V)>, key: Seq<char>)
    requires
        forall|k: int| 0 <= k < entries.len() ==> (#[trigger] entries[k]).0 != key,
    ensures
        spec_assoc(entries, key) is None,
    decreases entries.len(),
{
    if entries.len() > 0 {
        lemma_assoc_missing(entries.drop_first(), key);
    }
}

/// The configuration: a table of log types (name to pattern text) and a
/// table binding file base names to log types.
pub struct TypeConfig {
    /// Log type name, pattern text.
    pub types: Vec<(String, String)>,
    /// File base name, binding.
    pub bindings: Vec<(String, FileBinding)>,
}

impl TypeConfig {
    /// The type table as an association sequence of mathematical values.
    pub open spec fn types_view(&self) -> Seq<(Seq<char>, Seq<char>)> {
        self.types@.map_values(|p: (String, String)| (p.0@, p.1@))
    }

    /// The binding table as an association sequence of mathematical values.
    pub open spec fn bindings_view(&self) -> Seq<(Seq<char>, FileBindingV)> {
        self.bindings@.map_values(|p: (String, FileBinding)| (p.0@, p.1@))
    }

    /// Looks the pattern text of type `name` up in the type table.
    pub fn lookup_type(&self, name: &str) -> (r: Option<&String>)
        ensures
            (match r {
                Some(p) => spec_assoc(self.types_view(), name@) == Some(p@),
                None => spec_assoc(self.types_view(), name@) is None,
            }),
    {
        let mut i: usize = 0;
        while i < self.types.len()
            invariant
                i <= self.types.len(),
                forall|k: int| 0 <= k < i ==> (#[trigger] self.types_view()[k]).0 != name@,
            decreases self.types.len() - i,
        {
            if str_eq(self.types[i].0.as_str(), name) {
                proof {
                    lemma_assoc_found(self.types_view(), name@, i as int);
                }
                return Some(&self.types[i].1);
            }
            i += 1;
        }
        proof {
            lemma_assoc_missing(self.types_view(), name@);
        }
        None
    }

    /// Looks the binding of file base name `base` up in the binding table.
    pub fn lookup_binding(&self, base: &str) -> (r: Option<&FileBinding>)
        ensures
            (match r {
                Some(b) => spec_assoc(self.bindings_view(), base@) == Some(b@),
                None => spec_assoc(self.bindings_view(), base@) is None,
            }),
    {
        let mut i: usize = 0;
        while i < self.bindings.len()
            invariant
                i <= self.bindings.len(),
                forall|k: int| 0 <= k < i ==> (#[trigger] self.bindings_view()[k]).0 != base@,
            decreases self.bindings.len() - i,
        {
            if str_eq(self.bindings[i].0.as_str(), base) {
                proof {
                    lemma_assoc_found(self.bindings_view(), base@, i as int);
                }
                return Some(&self.bindings[i].1);
            }
            i += 1;
        }
        proof {
            lemma_assoc_missing(self.bindings_view(), base@);
        }
        None
    }
}

/// What resolving a file path against a configuration comes to.
pub enum Resolution {
    /// The file's base name has no binding: structured extraction is
    /// unavailable for it.
    Unbound,
    /// The binding names a type with no pattern, or a pattern the engine
    /// rejects: a configuration error.
    BadConfig,
    /// A pattern was found and compiles; with it, the binding's optional
    /// date format.
    Bound(Seq<char>, Option<Seq<char>>),
}

/// The resolution of `path` against the configuration, as a value.
pub open spec fn spec_resolution(
    types: Seq<(Seq<char>, Seq<char>)>,
    bindings: Seq<(Seq<char>, FileBindingV)>,
    path: Seq<char>,
) -> Resolution {
    match spec_assoc(bindings, spec_base_name(path)) {
        None => Resolution::Unbound,
        Some(b) => match spec_assoc(types, b.log_type) {
            None => Resolution::BadConfig,
            Some(pat) => if regex_compiles(pat) {
                Resolution::Bound(pat, b.date_format)
            } else {
                Resolution::BadConfig
            },
        },
    }
}

/// A successful resolution: the compiled pattern for the file's log type,
/// and the date format its binding carries, if any.
pub struct Resolved {
    pub regex: CompiledRegex,
    pub date_format: Option<String>,
}

/// Resolves the base name of `path` to its log type's compiled pattern.
/// `Ok(None)` means the file is not registered; a registered file whose
/// type has no pattern, or a pattern that does not compile, is a fatal
/// configuration error.
pub fn resolve(config: &TypeConfig, path: &str) -> (r: Result<Option<Resolved>, QueryError>)
    ensures
        (match spec_resolution(config.types_view(), config.bindings_view(), path@) {
            Resolution::Unbound => r matches Ok(None),
            Resolution::BadConfig => r matches Err(e) && e == QueryError::InvalidConfig,
            Resolution::Bound(pat, fmt) => r matches Ok(Some(res)) && res.regex.pattern_view()
                == pat && (match res.date_format {
                Some(ref f) => fmt == Some(f@),
                None => fmt is None,
            }),
        }),
{
    let base = base_name(path);
    let binding = match config.lookup_binding(base.as_str()) {
        None => {
            return Ok(None);
        },
        Some(b) => b,
    };
    let pattern = match config.lookup_type(binding.log_type.as_str()) {
        None => {
            return Err(QueryError::InvalidConfig);
        },
        Some(p) => p,
    };
    let regex = CompiledRegex::compile(pattern.as_str())?;
    let date_format = match &binding.date_format {
        Some(f) => Some(f.clone()),
        None => None,
    };
    Ok(Some(Resolved { regex, date_format }))
}

} // verus!
