//! Predicates on entries: by extension, by size, by date, by kind and by
//! category.

use vstd::prelude::*;
use vstd::string::*;
use crate::category::{category_of, FileCategory, FileCategoryView, MediaType};
use crate::clock::is_valid_timestamp;
use crate::dates::{date_of, parse_date_at};
use crate::errors::{FsError, FsErrorView};
use crate::models::{Entry, EntryKind};
use crate::text::{lowercase_of, str_eq, substring, to_chars, to_lowercase};
use crate::util::{parse_size, prepared_size_text, size_of};

verus! {

/// The place of the last point in `name`, or -1 if there is none.
pub open spec fn last_point(name: Seq<char>) -> int
    decreases name.len(),
{
    if name.len() == 0 {
        -1
    } else if name.last() == '.' {
        name.len() - 1
    } else {
        last_point(name.drop_last())
    }
}

/// The extension of a file name: what follows its last point. A name
/// without a point has none, nor has a name whose only point comes first,
/// nor has the name `..`.
pub open spec fn extension_of(name: Seq<char>) -> Option<Seq<char>> {
    let at = last_point(name);
    if at <= 0 || name == ".."@ {
        None
    } else {
        Some(name.skip(at + 1))
    }
}

proof fn lemma_last_point(name: Seq<char>)
    ensures
        -1 <= last_point(name) < name.len(),
        last_point(name) >= 0 ==> name[last_point(name)] == '.',
        forall|i: int| last_point(name) < i < name.len() ==> name[i] != '.',
    decreases name.len(),
{
    if name.len() > 0 && name.last() != '.' {
        lemma_last_point(name.drop_last());
        assert forall|i: int| last_point(name) < i < name.len() implies name[i] != '.' by {
            if i < name.len() - 1 {
                assert(name[i] == name.drop_last()[i]);
            }
        }
    }
}

/// The extension of a file name.
pub fn file_extension(name: &str) -> (r: Option<String>)
    ensures
        match extension_of(name@) {
            Some(ext) => r matches Some(s) && s@ == ext,
            None => r.is_none(),
        },
{
    if str_eq(name, "..") {
        return None;
    }
    let v = to_chars(name);
    let mut i = v.len();
    proof {
        assert(v@.take(v.len() as int) =~= v@);
        lemma_last_point(v@);
    }
    while i > 0 && v[i - 1] != '.'
        invariant
            i <= v.len(),
            last_point(v@) == last_point(v@.take(i as int)),
        decreases i,
    {
        proof {
            assert(v@.take(i as int).drop_last() =~= v@.take(i - 1));
            assert(v@.take(i as int).last() == v@[i - 1]);
        }
        i = i - 1;
    }
    proof {
        if i > 0 {
            assert(v@.take(i as int).last() == v@[i - 1]);
        }
    }
    if i <= 1 {
        None
    } else {
        proof {
            assert(v@.skip(i as int) =~= v@.subrange(i as int, v.len() as int));
        }
        Some(substring(name, i, v.len()))
    }
}

/// Whether `list` holds a text equal to `text`.
pub open spec fn holds_text(list: Seq<String>, text: Seq<char>) -> bool {
    exists|i: int| 0 <= i < list.len() && (#[trigger] list[i])@ == text
}

/// Whether `list` holds a text equal to `text`.
pub fn list_holds(list: &Vec<String>, text: &str) -> (r: bool)
    ensures
        r == holds_text(list@, text@),
{
    let mut i: usize = 0;
    while i < list.len()
        invariant
            i <= list.len(),
            forall|j: int| 0 <= j < i ==> (#[trigger] list@[j])@ != text@,
        decreases list.len() - i,
    {
        if str_eq(list[i].as_str(), text) {
            return true;
        }
        i = i + 1;
    }
    false
}

/// Keeps the entries whose extension is one of a list, letter case aside.
#[derive(Debug)]
pub struct ExtensionFilter {
    extensions: Vec<String>,
}

impl ExtensionFilter {
    /// The extensions that pass, in lower case.
    pub closed spec fn extensions(&self) -> Seq<String> {
        self.extensions@
    }

    /// A filter for these extensions.
    pub fn new(extensions: &[String]) -> (r: ExtensionFilter)
        ensures
            r.extensions().len() == extensions@.len(),
            forall|i: int|
                0 <= i < extensions@.len() ==> (#[trigger] r.extensions()[i])@ == lowercase_of(
                    extensions@[i]@,
                ),
    {
        let mut lowered: Vec<String> = Vec::new();
        let mut k: usize = 0;
        while k < extensions.len()
            invariant
                k <= extensions.len(),
                lowered@.len() == k,
                forall|i: int|
                    0 <= i < k ==> (#[trigger] lowered@[i])@ == lowercase_of(extensions@[i]@),
            decreases extensions.len() - k,
        {
            lowered.push(to_lowercase(extensions[k].as_str()));
            k = k + 1;
        }
        ExtensionFilter { extensions: lowered }
    }

    /// Whether a lower-case extension passes.
    pub fn holds(&self, lower_extension: &str) -> (r: bool)
        ensures
            r == holds_text(self.extensions(), lower_extension@),
    {
        list_holds(&self.extensions, lower_extension)
    }

    /// Whether the entry passes: whether its name has an extension and the
    /// extension, in lower case, is one of the list.
    pub fn test(&self, entry: &Entry) -> (r: bool)
        ensures
            r == (match extension_of(entry.name@) {
                Some(ext) => holds_text(self.extensions(), lowercase_of(ext)),
                None => false,
            }),
    {
        match file_extension(entry.name.as_str()) {
            Some(ext) => self.holds(to_lowercase(ext.as_str()).as_str()),
            None => false,
        }
    }
}

/// Keeps the files whose size lies between two bounds; directories always
/// pass.
#[derive(Debug)]
pub struct SizeFilter {
    min: Option<u64>,
    max: Option<u64>,
}

/// The bound that an optional size text denotes, or the text that could not
/// be read.
pub open spec fn size_bound(text: Option<&str>) -> Result<Option<u64>, Seq<char>> {
    match text {
        None => Ok(None),
        Some(t) => match size_of(prepared_size_text(t@)) {
            Some(bytes) => Ok(Some(bytes)),
            None => Err(prepared_size_text(t@)),
        },
    }
}

impl SizeFilter {
    /// The smallest size that passes, if there is a bound.
    pub closed spec fn min(&self) -> Option<u64> {
        self.min
    }

    /// The largest size that passes, if there is a bound.
    pub closed spec fn max(&self) -> Option<u64> {
        self.max
    }

    /// A filter between two bounds that hold exactly these numbers of bytes.
    pub fn between(min: Option<u64>, max: Option<u64>) -> (r: SizeFilter)
        ensures
            r.min() == min,
            r.max() == max,
    {
        SizeFilter { min, max }
    }

    /// A filter between two bounds given as human-readable sizes. The lower
    /// bound is read first; the first bound that cannot be read is reported.
    pub fn new(min: Option<&str>, max: Option<&str>) -> (r: Result<SizeFilter, FsError>)
        ensures
            match size_bound(min) {
                Err(text) => r matches Err(e) && e@ == (FsErrorView::InvalidSize { input: text }),
                Ok(low) => match size_bound(max) {
                    Err(text) => r matches Err(e) && e@ == (FsErrorView::InvalidSize {
                        input: text,
                    }),
                    Ok(high) => r matches Ok(f) && f.min() == low && f.max() == high,
                },
            },
    {
        let low = match min {
            None => None,
            Some(text) => match parse_size(text) {
                Ok(bytes) => Some(bytes),
                Err(e) => {
                    return Err(e);
                },
            },
        };
        let high = match max {
            None => None,
            Some(text) => match parse_size(text) {
                Ok(bytes) => Some(bytes),
                Err(e) => {
                    return Err(e);
                },
            },
        };
        Ok(SizeFilter { min: low, max: high })
    }

    /// Whether the entry passes.
    pub fn test(&self, entry: &Entry) -> (r: bool)
        ensures
            r == (entry.kind == EntryKind::Dir || ((self.min() matches Some(low) ==> entry.size
                >= low) && (self.max() matches Some(high) ==> entry.size <= high))),
    {
        if entry.kind == EntryKind::Dir {
            return true;
        }
        if let Some(low) = self.min {
            if entry.size < low {
                return false;
            }
        }
        if let Some(high) = self.max {
            if entry.size > high {
                return false;
            }
        }
        true
    }
}

/// The bound that an optional date text denotes at the instant `now`, or
/// the text that could not be read.
pub open spec fn date_bound(text: Option<&str>, now: i64) -> Result<Option<i64>, Seq<char>> {
    match text {
        None => Ok(None),
        Some(t) => match date_of(t@, now) {
            Some(instant) => Ok(Some(instant)),
            None => Err(t@),
        },
    }
}

/// Keeps the entries that were modified between two instants.
#[derive(Debug)]
pub struct DateFilter {
    after: Option<i64>,
    before: Option<i64>,
}

impl DateFilter {
    /// The earliest instant that passes, if there is a bound.
    pub closed spec fn after(&self) -> Option<i64> {
        self.after
    }

    /// The latest instant that passes, if there is a bound.
    pub closed spec fn before(&self) -> Option<i64> {
        self.before
    }

    /// A filter between two instants in epoch seconds.
    pub fn between(after: Option<i64>, before: Option<i64>) -> (r: DateFilter)
        ensures
            r.after() == after,
            r.before() == before,
    {
        DateFilter { after, before }
    }

    /// A filter between two bounds given as dates, read at the instant
    /// `now`. The earlier bound is read first; the first bound that cannot
    /// be read is reported.
    pub fn new_at(after: Option<&str>, before: Option<&str>, now: i64) -> (r: Result<
        DateFilter,
        FsError,
    >)
        ensures
            match date_bound(after, now) {
                Err(text) => r matches Err(e) && e@ == (FsErrorView::InvalidDate { input: text }),
                Ok(low) => match date_bound(before, now) {
                    Err(text) => r matches Err(e) && e@ == (FsErrorView::InvalidDate {
                        input: text,
                    }),
                    Ok(high) => r matches Ok(f) && f.after() == low && f.before() == high,
                },
            },
    {
        let low = match after {
            None => None,
            Some(text) => match parse_date_at(text, now) {
                Ok(t) => Some(t),
                Err(e) => {
                    return Err(e);
                },
            },
        };
        let high = match before {
            None => None,
            Some(text) => match parse_date_at(text, now) {
                Ok(t) => Some(t),
                Err(e) => {
                    return Err(e);
                },
            },
        };
        Ok(DateFilter { after: low, before: high })
    }

    /// A filter between two bounds given as dates, read at the instant that
    /// the clock shows.
    pub fn new(after: Option<&str>, before: Option<&str>) -> (r: Result<DateFilter, FsError>)
        ensures
            exists|now: i64|
                is_valid_timestamp(now) && match #[trigger] date_bound(after, now) {
                    Err(text) => r matches Err(e) && e@ == (FsErrorView::InvalidDate {
                        input: text,
                    }),
                    Ok(low) => match date_bound(before, now) {
                        Err(text) => r matches Err(e) && e@ == (FsErrorView::InvalidDate {
                            input: text,
                        }),
                        Ok(high) => r matches Ok(f) && f.after() == low && f.before() == high,
                    },
                },
    {
        let now = crate::clock::now();
        DateFilter::new_at(after, before, now)
    }

    /// Whether the entry passes.
    pub fn test(&self, entry: &Entry) -> (r: bool)
        ensures
            r == ((self.after() matches Some(low) ==> entry.mtime >= low) && (
            self.before() matches Some(high) ==> entry.mtime <= high)),
    {
        if let Some(low) = self.after {
            if entry.mtime < low {
                return false;
            }
        }
        if let Some(high) = self.before {
            if entry.mtime > high {
                return false;
            }
        }
        true
    }
}

/// Keeps the entries of certain kinds.
#[derive(Debug)]
pub struct KindFilter {
    kinds: Vec<EntryKind>,
}

impl KindFilter {
    /// The kinds that pass.
    pub closed spec fn kinds(&self) -> Seq<EntryKind> {
        self.kinds@
    }

    /// A filter for these kinds.
    pub fn new(kinds: &[EntryKind]) -> (r: KindFilter)
        ensures
            r.kinds() == kinds@,
    {
        let mut copy: Vec<EntryKind> = Vec::new();
        let mut k: usize = 0;
        while k < kinds.len()
            invariant
                k <= kinds.len(),
                copy@ == kinds@.take(k as int),
            decreases kinds.len() - k,
        {
            copy.push(kinds[k]);
            proof {
                assert(copy@ =~= kinds@.take(k + 1));
            }
            k = k + 1;
        }
        proof {
            assert(kinds@.take(kinds.len() as int) =~= kinds@);
        }
        KindFilter { kinds: copy }
    }

    /// Whether the entry passes: whether its kind is one of the list.
    pub fn test(&self, entry: &Entry) -> (r: bool)
        ensures
            r == self.kinds().contains(entry.kind),
    {
        let mut i: usize = 0;
        while i < self.kinds.len()
            invariant
                i <= self.kinds.len(),
                forall|j: int| 0 <= j < i ==> self.kinds@[j] != entry.kind,
            decreases self.kinds.len() - i,
        {
            if self.kinds[i] == entry.kind {
                return true;
            }
            i = i + 1;
        }
        false
    }
}

/// Whether a category belongs to the group that a lower-case name denotes.
pub open spec fn category_matches(name: Seq<char>, category: FileCategoryView) -> bool {
    if name == "source"@ {
        category is Source
    } else if name == "build"@ {
        category is Build
    } else if name == "config"@ {
        category is Config
    } else if name == "docs"@ || name == "documentation"@ {
        category is Documentation
    } else if name == "media"@ {
        category is Media
    } else if name == "image"@ {
        category == (FileCategoryView::Media { media_type: MediaType::Image })
    } else if name == "video"@ {
        category == (FileCategoryView::Media { media_type: MediaType::Video })
    } else if name == "audio"@ {
        category == (FileCategoryView::Media { media_type: MediaType::Audio })
    } else if name == "data"@ {
        category is Data
    } else if name == "archive"@ {
        category is Archive
    } else if name == "executable"@ || name == "exec"@ {
        category is Executable
    } else {
        false
    }
}

/// Keeps the files of one category.
#[derive(Debug)]
pub struct CategoryFilter {
    category: String,
}

impl CategoryFilter {
    /// The name of the group that passes, in lower case.
    pub closed spec fn category(&self) -> Seq<char> {
        self.category@
    }

    /// A filter for the group that `category` names, whatever the case of
    /// its letters.
    pub fn new(category: &str) -> (r: CategoryFilter)
        ensures
            r.category() == lowercase_of(category@),
    {
        CategoryFilter { category: to_lowercase(category) }
    }

    /// A filter for the group with exactly this lower-case name.
    pub fn from_lowercase(category: &str) -> (r: CategoryFilter)
        ensures
            r.category() == category@,
    {
        CategoryFilter { category: String::from_str(category) }
    }

    /// Whether a category belongs to the group of the filter.
    pub fn matches_category(&self, file_category: &FileCategory) -> (r: bool)
        ensures
            r == category_matches(self.category(), file_category@),
    {
        let name = self.category.as_str();
        if str_eq(name, "source") {
            matches!(file_category, FileCategory::Source { .. })
        } else if str_eq(name, "build") {
            matches!(file_category, FileCategory::Build)
        } else if str_eq(name, "config") {
            matches!(file_category, FileCategory::Config { .. })
        } else if str_eq(name, "docs") || str_eq(name, "documentation") {
            matches!(file_category, FileCategory::Documentation)
        } else if str_eq(name, "media") {
            matches!(file_category, FileCategory::Media { .. })
        } else if str_eq(name, "image") {
            matches!(file_category, FileCategory::Media { media_type: MediaType::Image })
        } else if str_eq(name, "video") {
            matches!(file_category, FileCategory::Media { media_type: MediaType::Video })
        } else if str_eq(name, "audio") {
            matches!(file_category, FileCategory::Media { media_type: MediaType::Audio })
        } else if str_eq(name, "data") {
            matches!(file_category, FileCategory::Data { .. })
        } else if str_eq(name, "archive") {
            matches!(file_category, FileCategory::Archive)
        } else if str_eq(name, "executable") || str_eq(name, "exec") {
            matches!(file_category, FileCategory::Executable)
        } else {
            false
        }
    }

    /// Whether the entry passes: whether it is a file with an extension
    /// whose category belongs to the group of the filter.
    pub fn test(&self, entry: &Entry) -> (r: bool)
        ensures
            r == (entry.kind == EntryKind::File && match extension_of(entry.name@) {
                Some(ext) => category_matches(self.category(), category_of(lowercase_of(ext))),
                None => false,
            }),
    {
        if entry.kind != EntryKind::File {
            return false;
        }
        match file_extension(entry.name.as_str()) {
            Some(ext) => {
                let category = FileCategory::from_extension(ext.as_str());
                self.matches_category(&category)
            },
            None => false,
        }
    }
}

} // verus!
