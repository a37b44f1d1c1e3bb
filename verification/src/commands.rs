//! The decisions behind the commands of the project switcher: which
//! projects a listing shows and how a project is labelled.

use vstd::prelude::*;
use vstd::string::*;
use crate::project::{Project, ProjectView};
use crate::search::ref_views;
use crate::text::str_eq;

verus! {

/// Seconds in thirty days.
pub const THIRTY_DAYS: i64 = 2_592_000;

/// Seconds in ninety days.
pub const NINETY_DAYS: i64 = 7_776_000;

/// Whether a project was not opened during the `span` seconds before `now`;
/// a project that was never opened counts as not opened.
pub open spec fn inactive_for(project: ProjectView, span: i64, now: i64) -> bool {
    match project.last_accessed {
        None => true,
        Some(then) => then < now - span,
    }
}

/// Whether a project passes a listing filter. `has-changes` keeps projects
/// with uncommitted changes, `inactive-30d` and `inactive-90d` keep projects
/// not opened for that long; any other filter keeps every project.
pub open spec fn passes_filter(project: ProjectView, filter: Seq<char>, now: i64) -> bool {
    if filter == "has-changes"@ {
        project.git_status.has_uncommitted
    } else if filter == "inactive-30d"@ {
        inactive_for(project, THIRTY_DAYS, now)
    } else if filter == "inactive-90d"@ {
        inactive_for(project, NINETY_DAYS, now)
    } else {
        true
    }
}

/// The projects of `entries` that pass `filter`, in order.
pub open spec fn filtered(entries: Seq<ProjectView>, filter: Seq<char>, now: i64) -> Seq<
    ProjectView,
>
    decreases entries.len(),
{
    if entries.len() == 0 {
        Seq::<ProjectView>::empty()
    } else if passes_filter(entries.last(), filter, now) {
        filtered(entries.drop_last(), filter, now).push(entries.last())
    } else {
        filtered(entries.drop_last(), filter, now)
    }
}

/// The label that shows the state of a project in a listing.
pub open spec fn status_label_of(project: ProjectView) -> Seq<char> {
    if project.git_status.has_uncommitted {
        "⚠ changes"@
    } else if project.git_status.ahead > 0 {
        "↑ ahead"@
    } else if project.git_status.behind > 0 {
        "↓ behind"@
    } else {
        "✓ clean"@
    }
}

/// Whether a project was not opened during the `span` seconds before `now`.
pub fn is_inactive(project: &Project, span: i64, now: i64) -> (r: bool)
    ensures
        r == inactive_for(project@, span, now),
{
    match project.last_accessed {
        None => true,
        Some(then) => (then as i128) < (now as i128) - (span as i128),
    }
}

/// Whether a project passes a listing filter.
pub fn passes(project: &Project, filter: &str, now: i64) -> (r: bool)
    ensures
        r == passes_filter(project@, filter@, now),
{
    if str_eq(filter, "has-changes") {
        project.git_status.has_uncommitted
    } else if str_eq(filter, "inactive-30d") {
        is_inactive(project, THIRTY_DAYS, now)
    } else if str_eq(filter, "inactive-90d") {
        is_inactive(project, NINETY_DAYS, now)
    } else {
        true
    }
}

/// The projects that pass a listing filter, in the order given.
pub fn filter_projects<'a>(projects: &Vec<&'a Project>, filter: &str, now: i64) -> (r: Vec<
    &'a Project,
>)
    ensures
        ref_views(r@) == filtered(ref_views(projects@), filter@, now),
{
    let mut kept: Vec<&'a Project> = Vec::new();
    let mut k: usize = 0;
    let ghost all = ref_views(projects@);
    proof {
        assert(all.take(0) =~= Seq::<ProjectView>::empty());
        assert(ref_views(kept@) =~= Seq::<ProjectView>::empty());
    }
    while k < projects.len()
        invariant
            k <= projects.len(),
            all == ref_views(projects@),
            ref_views(kept@) == filtered(all.take(k as int), filter@, now),
        decreases projects.len() - k,
    {
        let ghost before = ref_views(kept@);
        proof {
            assert(all.take(k + 1).drop_last() =~= all.take(k as int));
            assert(all.take(k + 1).last() == projects@[k as int]@);
        }
        if passes(projects[k], filter, now) {
            kept.push(projects[k]);
            proof {
                assert(ref_views(kept@) =~= before.push(projects@[k as int]@));
            }
        }
        k = k + 1;
    }
    proof {
        assert(all.take(projects.len() as int) =~= all);
    }
    kept
}

/// The label that shows the state of a project in a listing.
pub fn status_label(project: &Project) -> (r: &'static str)
    ensures
        r@ == status_label_of(project@),
{
    if project.git_status.has_uncommitted {
        "⚠ changes"
    } else if project.git_status.ahead > 0 {
        "↑ ahead"
    } else if project.git_status.behind > 0 {
        "↓ behind"
    } else {
        "✓ clean"
    }
}

} // verus!
