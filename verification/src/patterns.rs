//! Predicates on the names of entries that are given as patterns: regular
//! expressions and globs. The patterns are compiled and matched by the
//! pattern libraries; what the library adds is when a filter is built and
//! what it is asked.

use vstd::prelude::*;
use vstd::string::*;
use crate::errors::FsError;
use crate::models::Entry;

verus! {

#[verifier::external_type_specification]
#[verifier::external_body]
pub struct ExRegex(regex::Regex);

/// Whether `regex::Regex::new` accepts a pattern: whether it is a valid
/// regular expression within the default size limit.
pub uninterp spec fn regex_accepts(pattern: Seq<char>) -> bool;

/// Whether the regular expression `pattern` matches anywhere in `text`.
pub uninterp spec fn regex_matches(pattern: Seq<char>, text: Seq<char>) -> bool;

/// The pattern that a compiled regular expression was made from.
pub uninterp spec fn regex_source(regex: regex::Regex) -> Seq<char>;

/// Calls `regex::Regex::new`. It returns a regular expression exactly for
/// the patterns it accepts, and the expression it returns is the one
/// compiled from the pattern; a refusal is handed back as its message.
#[verifier::external_body]
pub(crate) fn compile_regex(pattern: &str) -> (r: Result<regex::Regex, String>)
    ensures
        r.is_ok() == regex_accepts(pattern@),
        r matches Ok(regex) ==> regex_source(regex) == pattern@,
{
    match regex::Regex::new(pattern) {
        Ok(regex) => Ok(regex),
        Err(e) => Err(e.to_string()),
    }
}

/// Calls `regex::Regex::is_match`, which is true exactly when the
/// expression matches somewhere in the text.
#[verifier::external_body]
pub(crate) fn regex_is_match(regex: &regex::Regex, text: &str) -> (r: bool)
    ensures
        r == regex_matches(regex_source(*regex), text@),
{
    regex.is_match(text)
}

/// Keeps the entries whose name matches a regular expression.
pub struct RegexFilter {
    regex: regex::Regex,
}

impl RegexFilter {
    /// The pattern of the filter.
    pub closed spec fn pattern(&self) -> Seq<char> {
        regex_source(self.regex)
    }

    /// A filter for a pattern. A pattern that is no valid regular
    /// expression is refused with the pattern and the reason.
    pub fn new(pattern: &str) -> (r: Result<RegexFilter, FsError>)
        ensures
            match r {
                Ok(filter) => regex_accepts(pattern@) && filter.pattern() == pattern@,
                Err(e) => !regex_accepts(pattern@) && e@ is InvalidRegex
                    && e@->InvalidRegex_pattern == pattern@,
            },
    {
        match compile_regex(pattern) {
            Ok(regex) => Ok(RegexFilter { regex }),
            Err(reason) => Err(
                FsError::InvalidRegex { pattern: String::from_str(pattern), reason },
            ),
        }
    }

    /// Whether the entry passes: whether the pattern matches somewhere in
    /// its name.
    pub fn test(&self, entry: &Entry) -> (r: bool)
        ensures
            r == regex_matches(self.pattern(), entry.name@),
    {
        regex_is_match(&self.regex, entry.name.as_str())
    }
}


#[verifier::external_type_specification]
#[verifier::external_body]
pub struct ExGlob(globset::Glob);

#[verifier::external_type_specification]
#[verifier::external_body]
pub struct ExGlobSetBuilder(globset::GlobSetBuilder);

#[verifier::external_type_specification]
#[verifier::external_body]
pub struct ExGlobSet(globset::GlobSet);

/// The pattern that a glob was compiled from.
pub uninterp spec fn glob_pattern(glob: globset::Glob) -> Seq<char>;

/// The patterns of the globs that were added to a builder, in the order in
/// which they were added.
pub uninterp spec fn builder_patterns(builder: globset::GlobSetBuilder) -> Seq<Seq<char>>;

/// The patterns of the globs that a set holds, in the order in which they
/// were added to the builder that built it.
pub uninterp spec fn glob_set_patterns(set: globset::GlobSet) -> Seq<Seq<char>>;

/// The texts of a list of strings.
pub open spec fn pattern_texts(patterns: Seq<String>) -> Seq<Seq<char>> {
    patterns.map_values(|p: String| p@)
}

/// Calls `globset::Glob::new`; a refusal is handed back as its message. A
/// glob keeps the pattern it was compiled from. Which patterns are accepted
/// depends on the platform, whose path separator decides whether a
/// backslash escapes, so nothing is promised about that.
#[verifier::external_body]
pub(crate) fn compile_glob(pattern: &str) -> (r: Result<globset::Glob, String>)
    ensures
        r matches Ok(glob) ==> glob_pattern(glob) == pattern@,
{
    match globset::Glob::new(pattern) {
        Ok(glob) => Ok(glob),
        Err(e) => Err(e.to_string()),
    }
}

/// Calls `globset::GlobSetBuilder::new`, which starts without any glob.
#[verifier::external_body]
pub(crate) fn new_glob_builder() -> (builder: globset::GlobSetBuilder)
    ensures
        builder_patterns(builder) == Seq::<Seq<char>>::empty(),
{
    globset::GlobSetBuilder::new()
}

/// Calls `globset::GlobSetBuilder::add`, which appends the glob to those
/// that the builder holds.
#[verifier::external_body]
pub(crate) fn add_glob(builder: &mut globset::GlobSetBuilder, glob: globset::Glob)
    ensures
        builder_patterns(*final(builder)) == builder_patterns(*old(builder)).push(
            glob_pattern(glob),
        ),
{
    builder.add(glob);
}

/// Calls `globset::GlobSetBuilder::build`; a refusal is handed back as its
/// message. The set is built from all the globs of the builder, and a
/// builder without globs always yields the empty set.
#[verifier::external_body]
pub(crate) fn build_globs(builder: &globset::GlobSetBuilder) -> (r: Result<
    globset::GlobSet,
    String,
>)
    ensures
        r matches Ok(set) ==> glob_set_patterns(set) == builder_patterns(*builder),
        builder_patterns(*builder).len() == 0 ==> r is Ok,
{
    match builder.build() {
        Ok(set) => Ok(set),
        Err(e) => Err(e.to_string()),
    }
}

/// Calls `globset::GlobSet::is_match`. A set without globs matches nothing.
/// Beyond that the text is matched as a path, by the path rules of the
/// platform, so nothing more is promised.
#[verifier::external_body]
pub(crate) fn globs_match(set: &globset::GlobSet, name: &str) -> (r: bool)
    ensures
        glob_set_patterns(*set).len() == 0 ==> !r,
{
    set.is_match(name)
}

/// Keeps the entries whose name matches one of a list of glob patterns.
pub struct GlobFilter {
    globset: globset::GlobSet,
}

impl GlobFilter {
    /// The patterns of the filter, in order.
    pub closed spec fn patterns(&self) -> Seq<Seq<char>> {
        glob_set_patterns(self.globset)
    }

    /// A filter for a list of patterns. The patterns are compiled in order
    /// and all of them go into the filter. A pattern that is refused is
    /// reported with the reason, and so is a list that cannot be combined,
    /// under the name `combined`. A list without patterns is never refused.
    pub fn new(patterns: &[String]) -> (r: Result<GlobFilter, FsError>)
        ensures
            patterns@.len() == 0 ==> r is Ok,
            r matches Ok(filter) ==> filter.patterns() == pattern_texts(patterns@),
            r matches Err(e) ==> e@ is InvalidGlob && (e@->InvalidGlob_pattern == "combined"@
                || exists|i: int|
                0 <= i < patterns@.len() && e@->InvalidGlob_pattern == (#[trigger] patterns@[i])@),
    {
        let mut builder = new_glob_builder();
        let mut k: usize = 0;
        proof {
            assert(pattern_texts(patterns@.take(0)) =~= Seq::<Seq<char>>::empty());
        }
        while k < patterns.len()
            invariant
                k <= patterns.len(),
                builder_patterns(builder) == pattern_texts(patterns@.take(k as int)),
            decreases patterns.len() - k,
        {
            match compile_glob(patterns[k].as_str()) {
                Ok(glob) => {
                    add_glob(&mut builder, glob);
                    proof {
                        assert(pattern_texts(patterns@.take(k + 1)) =~= pattern_texts(
                            patterns@.take(k as int),
                        ).push(patterns@[k as int]@));
                    }
                },
                Err(reason) => {
                    return Err(FsError::InvalidGlob { pattern: patterns[k].clone(), reason });
                },
            }
            k = k + 1;
        }
        proof {
            assert(patterns@.take(patterns@.len() as int) =~= patterns@);
        }
        match build_globs(&builder) {
            Ok(globset) => Ok(GlobFilter { globset }),
            Err(reason) => Err(
                FsError::InvalidGlob { pattern: String::from_str("combined"), reason },
            ),
        }
    }

    /// Whether the entry passes: whether one of the patterns matches its
    /// name. A filter without patterns passes nothing.
    pub fn test(&self, entry: &Entry) -> (r: bool)
        ensures
            self.patterns().len() == 0 ==> !r,
    {
        globs_match(&self.globset, entry.name.as_str())
    }
}

} // verus!
