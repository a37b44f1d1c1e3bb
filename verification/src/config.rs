//! Settings: the preferences of the explorer and the settings of the
//! project switcher, with their defaults.

use vstd::prelude::*;
use vstd::string::*;

verus! {

/// Preferences of the explorer.
#[derive(Debug)]
pub struct Preferences {
    /// Name of the output format used when none is given.
    pub default_format: String,
    /// Whether output is coloured.
    pub color: bool,
    /// Number of threads for parallel work.
    pub threads: usize,
    /// Whether ignore files are respected.
    pub respect_gitignore: bool,
}

/// The output format used when none is configured.
pub fn default_format() -> (r: String)
    ensures
        r@ == "pretty"@,
{
    String::from_str("pretty")
}

/// The default of every switch that is on unless turned off.
pub fn default_true() -> (r: bool)
    ensures
        r,
{
    true
}

/// The number of threads used when none is configured.
pub fn default_threads() -> (r: usize)
    ensures
        r == 4,
{
    4
}

/// The editor used when none is configured.
pub fn default_editor() -> (r: String)
    ensures
        r@ == "code"@,
{
    String::from_str("code")
}

impl Default for Preferences {
    fn default() -> (r: Preferences)
        ensures
            r.default_format@ == "pretty"@,
            r.color,
            r.threads == 4,
            r.respect_gitignore,
    {
        Preferences {
            default_format: default_format(),
            color: true,
            threads: 4,
            respect_gitignore: true,
        }
    }
}

/// Settings of the project switcher.
#[derive(Debug)]
pub struct PxConfig {
    /// Directories that are scanned for projects.
    pub scan_dirs: Vec<String>,
    /// Command of the editor in which projects are opened.
    pub default_editor: String,
    /// Path of a notes vault, if one is used.
    pub obsidian_vault: Option<String>,
}

/// The names, below the home directory, of the directories that are scanned
/// when none is configured.
pub fn default_scan_dir_names() -> (names: Vec<&'static str>)
    ensures
        names@.len() == 3,
        names@[0]@ == "Developer"@,
        names@[1]@ == "projects"@,
        names@[2]@ == "code"@,
{
    let mut names: Vec<&'static str> = Vec::new();
    names.push("Developer");
    names.push("projects");
    names.push("code");
    names
}

impl PxConfig {
    /// Settings that scan `scan_dirs`, with the default editor and no vault.
    pub fn with_scan_dirs(scan_dirs: Vec<String>) -> (r: PxConfig)
        ensures
            r.scan_dirs == scan_dirs,
            r.default_editor@ == "code"@,
            r.obsidian_vault.is_none(),
    {
        PxConfig { scan_dirs, default_editor: default_editor(), obsidian_vault: None }
    }
}

} // verus!
