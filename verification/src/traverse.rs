//! How a directory tree is walked.

use vstd::prelude::*;
use crate::cli::CommonArgs;

verus! {

/// Settings of a walk.
#[derive(Debug, Clone, Copy, PartialEq, Eq, Structural)]
pub struct TraverseConfig {
    /// How deep to descend, if limited.
    pub max_depth: Option<usize>,
    /// Whether symbolic links are followed.
    pub follow_symlinks: bool,
    /// Whether hidden entries are visited.
    pub include_hidden: bool,
    /// Whether ignore files are respected.
    pub respect_gitignore: bool,
    /// Number of threads.
    pub threads: usize,
    /// Whether warnings are suppressed.
    pub quiet: bool,
}

/// How deep a scan for projects descends below a scan root: deep enough to
/// find repositories a few levels down, not a walk of the whole tree.
pub const PROJECT_SCAN_DEPTH: usize = 3;

impl Default for TraverseConfig {
    fn default() -> (r: TraverseConfig)
        ensures
            r == (TraverseConfig {
                max_depth: None,
                follow_symlinks: false,
                include_hidden: false,
                respect_gitignore: true,
                threads: 1,
                quiet: false,
            }),
    {
        TraverseConfig {
            max_depth: None,
            follow_symlinks: false,
            include_hidden: false,
            respect_gitignore: true,
            threads: 1,
            quiet: false,
        }
    }
}

/// The walk that the shared options of a command ask for.
pub fn build_traverse_config(common: &CommonArgs, quiet: bool) -> (r: TraverseConfig)
    ensures
        r == (TraverseConfig {
            max_depth: common.max_depth,
            follow_symlinks: common.follow_symlinks,
            include_hidden: common.hidden,
            respect_gitignore: !common.no_gitignore,
            threads: common.threads,
            quiet: quiet,
        }),
{
    TraverseConfig {
        max_depth: common.max_depth,
        follow_symlinks: common.follow_symlinks,
        include_hidden: common.hidden,
        respect_gitignore: !common.no_gitignore,
        threads: common.threads,
        quiet,
    }
}

/// The walk by which a resync looks for projects below a scan root: of
/// bounded depth, without following links, without hidden entries, and
/// respecting ignore files so that build output and vendored trees are not
/// entered.
pub fn project_scan_config() -> (r: TraverseConfig)
    ensures
        r == (TraverseConfig {
            max_depth: Some(PROJECT_SCAN_DEPTH),
            follow_symlinks: false,
            include_hidden: false,
            respect_gitignore: true,
            threads: 4,
            quiet: true,
        }),
{
    TraverseConfig {
        max_depth: Some(PROJECT_SCAN_DEPTH),
        follow_symlinks: false,
        include_hidden: false,
        respect_gitignore: true,
        threads: 4,
        quiet: true,
    }
}

} // verus!
