//! Ranked search: orders the projects of an index against a query by
//! combining a fuzzy text match with the frecency score.

use fuzzy_matcher::skim::SkimMatcherV2;
use fuzzy_matcher::FuzzyMatcher;
use vstd::prelude::*;
use vstd::string::*;
use crate::index::views;
use crate::project::{Project, ProjectView};
use crate::ranking::{
    arranged, lemma_ranked_first, lemma_ranking_descends, lemma_ranking_exists,
    lemma_select_all_count, lemma_unselected_absent, rank_selected, ranking, ranks_before,
    select_all,
};
use crate::text::{
    contains, contains_text, is_blank, is_blank_seq, lowercase_of, to_chars, to_lowercase,
};

verus! {

/// Texts longer than this many characters are never matched: the matcher
/// keeps its scores in 32-bit integers.
pub const MAX_MATCH_CHARS: usize = 65_536;

/// The score that the skim matcher with its default settings gives to
/// `choice` for `pattern`; `None` when `pattern` does not match.
pub uninterp spec fn skim_score(choice: Seq<char>, pattern: Seq<char>) -> Option<i64>;

/// Calls `fuzzy_match` of the `FuzzyMatcher` trait on a default
/// `SkimMatcherV2`. The matcher computes its score from the two texts and
/// its settings alone, so the score of a default matcher has a name. Both
/// texts are bounded because the matcher adds its scores up in `i32`.
#[verifier::external_body]
pub(crate) fn skim_match(choice: &str, pattern: &str) -> (r: Option<i64>)
    requires
        choice@.len() <= MAX_MATCH_CHARS,
        pattern@.len() <= MAX_MATCH_CHARS,
    ensures
        r == skim_score(choice@, pattern@),
{
    SkimMatcherV2::default().fuzzy_match(choice, pattern)
}

/// The fuzzy score of `choice` for `pattern`; texts beyond the length limit
/// do not match.
pub open spec fn match_score(choice: Seq<char>, pattern: Seq<char>) -> Option<i64> {
    if choice.len() <= MAX_MATCH_CHARS && pattern.len() <= MAX_MATCH_CHARS {
        skim_score(choice, pattern)
    } else {
        None
    }
}

/// A score, with zero standing for no match.
pub open spec fn score_or_zero(score: Option<i64>) -> i64 {
    match score {
        Some(s) => s,
        None => 0,
    }
}

/// The better of the two scores that a project earns with its name and with
/// its path. A project matches when this is positive.
pub open spec fn best_of(name_score: Option<i64>, path_score: Option<i64>) -> i64 {
    if score_or_zero(name_score) >= score_or_zero(path_score) {
        score_or_zero(name_score)
    } else {
        score_or_zero(path_score)
    }
}

/// The fuzzy score of every project for `query`.
pub open spec fn best_scores(entries: Seq<ProjectView>, query: Seq<char>) -> Seq<i64> {
    Seq::new(
        entries.len(),
        |i: int| best_of(match_score(entries[i].name, query), match_score(entries[i].path, query)),
    )
}

/// The sort key of a matching project: seven tenths of its fuzzy score plus
/// three tenths of its frecency score in points, cut down to a whole number.
/// A project that does not match has the key zero.
pub open spec fn combined_key(fuzzy: i64, frecency: u64) -> u64 {
    if fuzzy <= 0 {
        0
    } else {
        ((7 * fuzzy * 1000 + 3 * frecency) / 10_000) as u64
    }
}

/// The sort key of every project.
pub open spec fn match_keys(entries: Seq<ProjectView>, fuzzy: Seq<i64>) -> Seq<u64> {
    Seq::new(entries.len(), |i: int| combined_key(fuzzy[i], entries[i].frecency_score))
}

/// Which projects match: those with a positive fuzzy score.
pub open spec fn matched(fuzzy: Seq<i64>) -> Seq<bool> {
    Seq::new(fuzzy.len(), |i: int| fuzzy[i] > 0)
}

/// The frecency score of every project.
pub open spec fn scores(entries: Seq<ProjectView>) -> Seq<u64> {
    Seq::new(entries.len(), |i: int| entries[i].frecency_score)
}

/// The matching projects, best combined key first.
pub open spec fn ranked_matches(entries: Seq<ProjectView>, fuzzy: Seq<i64>) -> Seq<ProjectView> {
    arranged(entries, ranking(match_keys(entries, fuzzy), matched(fuzzy)))
}

/// The kept projects, highest frecency score first.
pub open spec fn kept_by_frecency(entries: Seq<ProjectView>, keep: Seq<bool>) -> Seq<ProjectView> {
    arranged(entries, ranking(scores(entries), keep))
}

/// All projects, highest frecency score first.
pub open spec fn by_frecency(entries: Seq<ProjectView>) -> Seq<ProjectView> {
    kept_by_frecency(entries, select_all(entries.len()))
}

/// What a search for `query` returns.
pub open spec fn search_result(entries: Seq<ProjectView>, query: Seq<char>) -> Seq<ProjectView> {
    if is_blank_seq(query) {
        by_frecency(entries)
    } else {
        ranked_matches(entries, best_scores(entries, query))
    }
}

/// Which projects hold `query` in their name or in their path, letter case
/// aside.
pub open spec fn holds_query(entries: Seq<ProjectView>, query: Seq<char>) -> Seq<bool> {
    Seq::new(
        entries.len(),
        |i: int|
            contains_text(lowercase_of(entries[i].name), lowercase_of(query)) || contains_text(
                lowercase_of(entries[i].path),
                lowercase_of(query),
            ),
    )
}

/// The mathematical values of a list of borrowed projects.
pub open spec fn ref_views(projects: Seq<&Project>) -> Seq<ProjectView> {
    projects.map_values(|p: &Project| p@)
}

/// A project without a positive fuzzy score is at no
/// place of the ranking, however high its frecency score, and every project
/// with a positive fuzzy score is at some place.
pub proof fn lemma_only_matches_are_ranked(entries: Seq<ProjectView>, fuzzy: Seq<i64>, k: int)
    requires
        fuzzy.len() == entries.len(),
        entries.len() <= usize::MAX,
        0 <= k < entries.len(),
    ensures
        ranked_matches(entries, fuzzy).len() == ranking(
            match_keys(entries, fuzzy),
            matched(fuzzy),
        ).len(),
        fuzzy[k] <= 0 ==> forall|i: int|
            0 <= i < ranked_matches(entries, fuzzy).len() ==> #[trigger] ranking(
                match_keys(entries, fuzzy),
                matched(fuzzy),
            )[i] != k,
        fuzzy[k] > 0 ==> exists|i: int|
            0 <= i < ranked_matches(entries, fuzzy).len() && #[trigger] ranking(
                match_keys(entries, fuzzy),
                matched(fuzzy),
            )[i] == k && ranked_matches(entries, fuzzy)[i] == entries[k],
{
    let keys = match_keys(entries, fuzzy);
    let keep = matched(fuzzy);
    lemma_ranking_exists(keys, keep);
    if fuzzy[k] <= 0 {
        lemma_unselected_absent(keys, keep, k);
    } else {
        assert(keep[k]);
        let i = choose|i: int| 0 <= i < ranking(keys, keep).len() && ranking(keys, keep)[i] == k;
        assert(ranked_matches(entries, fuzzy)[i] == entries[k]);
    }
}

/// In a list of projects with distinct paths, the path of a project that
/// does not match occurs nowhere in the result of a search.
pub proof fn lemma_unmatched_path_absent(entries: Seq<ProjectView>, fuzzy: Seq<i64>, k: int)
    requires
        fuzzy.len() == entries.len(),
        entries.len() <= usize::MAX,
        0 <= k < entries.len(),
        fuzzy[k] <= 0,
        forall|i: int, j: int|
            0 <= i < j < entries.len() ==> (#[trigger] entries[i]).path != (
            #[trigger] entries[j]).path,
    ensures
        forall|i: int|
            0 <= i < ranked_matches(entries, fuzzy).len() ==> (#[trigger] ranked_matches(
                entries,
                fuzzy,
            )[i]).path != entries[k].path,
{
    let keys = match_keys(entries, fuzzy);
    let keep = matched(fuzzy);
    lemma_ranking_exists(keys, keep);
    lemma_unselected_absent(keys, keep, k);
    assert forall|i: int| 0 <= i < ranked_matches(entries, fuzzy).len() implies (
    #[trigger] ranked_matches(entries, fuzzy)[i]).path != entries[k].path by {
        let at = ranking(keys, keep)[i] as int;
        assert(at != k);
        if at < k {
            assert(entries[at].path != entries[k].path);
        } else {
            assert(entries[k].path != entries[at].path);
        }
    }
}

/// Of two matching projects, the one with the higher
/// combined key comes first; with equal keys, the one that comes first in
/// the input.
pub proof fn lemma_better_match_first(entries: Seq<ProjectView>, fuzzy: Seq<i64>, a: int, b: int)
    requires
        fuzzy.len() == entries.len(),
        entries.len() <= usize::MAX,
        0 <= a < entries.len(),
        0 <= b < entries.len(),
        fuzzy[a] > 0,
        fuzzy[b] > 0,
        ranks_before(match_keys(entries, fuzzy), a, b),
    ensures
        exists|i: int, j: int|
            0 <= i < j < ranked_matches(entries, fuzzy).len() && #[trigger] ranking(
                match_keys(entries, fuzzy),
                matched(fuzzy),
            )[i] == a && #[trigger] ranking(match_keys(entries, fuzzy), matched(fuzzy))[j] == b,
{
    lemma_ranked_first(match_keys(entries, fuzzy), matched(fuzzy), a, b);
}

/// At equal fuzzy score a higher frecency score never lowers the combined
/// key, and a frecency score that is higher by ten thirds of a point or more
/// raises it.
pub proof fn lemma_frecency_raises_key(fuzzy: i64, higher: u64, lower: u64)
    requires
        fuzzy > 0,
        higher >= lower,
    ensures
        combined_key(fuzzy, higher) >= combined_key(fuzzy, lower),
        higher - lower >= 3334 ==> combined_key(fuzzy, higher) > combined_key(fuzzy, lower),
{
}

/// Frecency decides between equal fuzzy matches: of two matching projects
/// with the same fuzzy score, the one whose frecency score is higher by ten
/// thirds of a point or more comes first.
pub proof fn lemma_frecency_decides(entries: Seq<ProjectView>, fuzzy: Seq<i64>, a: int, b: int)
    requires
        fuzzy.len() == entries.len(),
        entries.len() <= usize::MAX,
        0 <= a < entries.len(),
        0 <= b < entries.len(),
        fuzzy[a] > 0,
        fuzzy[a] == fuzzy[b],
        entries[a].frecency_score >= entries[b].frecency_score + 3334,
    ensures
        exists|i: int, j: int|
            0 <= i < j < ranked_matches(entries, fuzzy).len() && #[trigger] ranking(
                match_keys(entries, fuzzy),
                matched(fuzzy),
            )[i] == a && #[trigger] ranking(match_keys(entries, fuzzy), matched(fuzzy))[j] == b,
{
    lemma_frecency_raises_key(fuzzy[a], entries[a].frecency_score, entries[b].frecency_score);
    lemma_better_match_first(entries, fuzzy, a, b);
}

/// Ordering by frecency returns every project once, and the scores along
/// the result never increase.
pub proof fn lemma_by_frecency_sorted(entries: Seq<ProjectView>, i: int, j: int)
    requires
        entries.len() <= usize::MAX,
        0 <= i <= j < entries.len(),
    ensures
        by_frecency(entries).len() == entries.len(),
        by_frecency(entries)[i].frecency_score >= by_frecency(entries)[j].frecency_score,
        exists|k: int| 0 <= k < entries.len() && #[trigger] by_frecency(entries)[k] == entries[i],
{
    let keys = scores(entries);
    let keep = select_all(entries.len());
    lemma_ranking_exists(keys, keep);
    lemma_select_all_count(entries.len());
    lemma_ranking_descends(keys, keep, i, j);
    assert(keep[i]);
    let k = choose|k: int| 0 <= k < ranking(keys, keep).len() && ranking(keys, keep)[k] == i;
    assert(by_frecency(entries)[k] == entries[i]);
}

/// A blank query returns every project ordered by frecency score alone.
pub proof fn lemma_blank_query_lists_all(entries: Seq<ProjectView>, query: Seq<char>)
    requires
        is_blank_seq(query),
        entries.len() <= usize::MAX,
    ensures
        search_result(entries, query) == by_frecency(entries),
        search_result(entries, query).len() == entries.len(),
{
    if entries.len() > 0 {
        lemma_by_frecency_sorted(entries, 0, 0);
    } else {
        lemma_ranking_exists(scores(entries), select_all(entries.len()));
        lemma_select_all_count(entries.len());
    }
}

/// The fuzzy score of `choice` for `pattern`.
pub fn fuzzy_score(choice: &str, pattern: &str) -> (r: Option<i64>)
    ensures
        r == match_score(choice@, pattern@),
{
    if choice.unicode_len() <= MAX_MATCH_CHARS && pattern.unicode_len() <= MAX_MATCH_CHARS {
        skim_match(choice, pattern)
    } else {
        None
    }
}

/// The better of two fuzzy scores, zero when neither text matched.
pub fn best_score(name_score: Option<i64>, path_score: Option<i64>) -> (r: i64)
    ensures
        r == best_of(name_score, path_score),
{
    let a = match name_score {
        Some(s) => s,
        None => 0,
    };
    let b = match path_score {
        Some(s) => s,
        None => 0,
    };
    if a >= b {
        a
    } else {
        b
    }
}

/// The sort key of a project with this fuzzy score and this frecency score.
pub fn combine(fuzzy: i64, frecency: u64) -> (key: u64)
    ensures
        key == combined_key(fuzzy, frecency),
        key <= i64::MAX,
{
    if fuzzy <= 0 {
        return 0;
    }
    let weighted: u128 = 7 * (fuzzy as u128) * 1000 + 3 * (frecency as u128);
    (weighted / 10_000) as u64
}

/// The projects at the places that `order` lists.
pub fn pick<'a>(projects: &'a [Project], order: &Vec<usize>) -> (r: Vec<&'a Project>)
    requires
        forall|i: int| 0 <= i < order.len() ==> (#[trigger] order[i]) < projects.len(),
    ensures
        ref_views(r@) == arranged(views(projects@), order@),
{
    let mut picked: Vec<&'a Project> = Vec::new();
    let mut k: usize = 0;
    while k < order.len()
        invariant
            k <= order.len(),
            forall|i: int| 0 <= i < order.len() ==> (#[trigger] order[i]) < projects.len(),
            picked.len() == k,
            forall|i: int| 0 <= i < k ==> (#[trigger] picked[i])@ == projects[order[i] as int]@,
        decreases order.len() - k,
    {
        picked.push(&projects[order[k]]);
        k = k + 1;
    }
    proof {
        assert(ref_views(picked@) =~= arranged(views(projects@), order@));
    }
    picked
}

/// Fuzzy searcher over projects.
#[derive(Debug)]
pub struct ProjectSearcher {}

impl ProjectSearcher {
    /// A searcher with the default settings.
    pub fn new() -> (r: ProjectSearcher) {
        ProjectSearcher {  }
    }

    /// The kept projects ordered by frecency score, highest first. Projects
    /// of equal score keep the order of the input.
    pub fn filter_by_frecency<'a>(&self, projects: &'a [Project], keep: &Vec<bool>) -> (r: Vec<
        &'a Project,
    >)
        requires
            keep.len() == projects.len(),
        ensures
            ref_views(r@) == kept_by_frecency(views(projects@), keep@),
    {
        let mut keys: Vec<u64> = Vec::new();
        let mut k: usize = 0;
        while k < projects.len()
            invariant
                k <= projects.len(),
                keys.len() == k,
                forall|i: int| 0 <= i < k ==> #[trigger] keys[i] == projects[i]@.frecency_score,
            decreases projects.len() - k,
        {
            keys.push(projects[k].frecency_score);
            k = k + 1;
        }
        proof {
            assert(keys@ =~= scores(views(projects@)));
        }
        let order = rank_selected(&keys, keep);
        pick(projects, &order)
    }

    /// All projects ordered by frecency score, highest first.
    pub fn sort_by_frecency<'a>(&self, projects: &'a [Project]) -> (r: Vec<&'a Project>)
        ensures
            ref_views(r@) == by_frecency(views(projects@)),
    {
        let mut keep: Vec<bool> = Vec::new();
        let mut k: usize = 0;
        while k < projects.len()
            invariant
                k <= projects.len(),
                keep.len() == k,
                forall|i: int| 0 <= i < k ==> #[trigger] keep[i],
            decreases projects.len() - k,
        {
            keep.push(true);
            k = k + 1;
        }
        proof {
            assert(keep@ =~= select_all(views(projects@).len()));
        }
        self.filter_by_frecency(projects, &keep)
    }

    /// The projects whose fuzzy score is positive, ordered by the combined
    /// key of fuzzy score and frecency score, best first. `fuzzy` holds the
    /// fuzzy score of each project, zero or less where it does not match.
    pub fn rank_matches<'a>(&self, projects: &'a [Project], fuzzy: &Vec<i64>) -> (r: Vec<
        &'a Project,
    >)
        requires
            fuzzy.len() == projects.len(),
        ensures
            ref_views(r@) == ranked_matches(views(projects@), fuzzy@),
    {
        let mut keys: Vec<u64> = Vec::new();
        let mut keep: Vec<bool> = Vec::new();
        let mut k: usize = 0;
        while k < projects.len()
            invariant
                k <= projects.len(),
                fuzzy.len() == projects.len(),
                keys.len() == k,
                keep.len() == k,
                forall|i: int|
                    0 <= i < k ==> #[trigger] keys[i] == combined_key(
                        fuzzy[i],
                        projects[i]@.frecency_score,
                    ),
                forall|i: int| 0 <= i < k ==> #[trigger] keep[i] == (fuzzy[i] > 0),
            decreases projects.len() - k,
        {
            keys.push(combine(fuzzy[k], projects[k].frecency_score));
            keep.push(fuzzy[k] > 0);
            k = k + 1;
        }
        proof {
            assert(keys@ =~= match_keys(views(projects@), fuzzy@));
            assert(keep@ =~= matched(fuzzy@));
        }
        let order = rank_selected(&keys, &keep);
        pick(projects, &order)
    }

    /// Ranks the projects against `query`. A blank query returns every
    /// project by frecency score. Any other query returns the projects whose
    /// name or path matches it fuzzily, best combined key first; the first
    /// project returned is the best match.
    pub fn search<'a>(&self, projects: &'a [Project], query: &str) -> (r: Vec<&'a Project>)
        ensures
            ref_views(r@) == search_result(views(projects@), query@),
    {
        if is_blank(query) {
            return self.sort_by_frecency(projects);
        }
        let mut fuzzy: Vec<i64> = Vec::new();
        let mut k: usize = 0;
        while k < projects.len()
            invariant
                k <= projects.len(),
                fuzzy.len() == k,
                forall|i: int|
                    0 <= i < k ==> #[trigger] fuzzy[i] == best_of(
                        match_score(projects[i]@.name, query@),
                        match_score(projects[i]@.path, query@),
                    ),
            decreases projects.len() - k,
        {
            let name_score = fuzzy_score(projects[k].name.as_str(), query);
            let path_score = fuzzy_score(projects[k].path.as_str(), query);
            fuzzy.push(best_score(name_score, path_score));
            k = k + 1;
        }
        proof {
            assert(fuzzy@ =~= best_scores(views(projects@), query@));
        }
        self.rank_matches(projects, &fuzzy)
    }

    /// The projects that hold `query` in their name or in their path, letter
    /// case aside, ordered by frecency score alone.
    pub fn exact_search<'a>(&self, projects: &'a [Project], query: &str) -> (r: Vec<&'a Project>)
        ensures
            ref_views(r@) == kept_by_frecency(
                views(projects@),
                holds_query(views(projects@), query@),
            ),
    {
        let needle = to_chars(to_lowercase(query).as_str());
        let mut keep: Vec<bool> = Vec::new();
        let mut k: usize = 0;
        while k < projects.len()
            invariant
                k <= projects.len(),
                keep.len() == k,
                needle@ == lowercase_of(query@),
                forall|i: int|
                    0 <= i < k ==> #[trigger] keep[i] == (contains_text(
                        lowercase_of(projects[i]@.name),
                        lowercase_of(query@),
                    ) || contains_text(lowercase_of(projects[i]@.path), lowercase_of(query@))),
            decreases projects.len() - k,
        {
            let name = to_chars(to_lowercase(projects[k].name.as_str()).as_str());
            let path = to_chars(to_lowercase(projects[k].path.as_str()).as_str());
            keep.push(contains(&name, &needle) || contains(&path, &needle));
            k = k + 1;
        }
        proof {
            assert(keep@ =~= holds_query(views(projects@), query@));
        }
        self.filter_by_frecency(projects, &keep)
    }
}

impl Default for ProjectSearcher {
    fn default() -> ProjectSearcher {
        ProjectSearcher::new()
    }
}

} // verus!
