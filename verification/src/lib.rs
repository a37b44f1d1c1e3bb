//! A file explorer's library, and within it the index of a project
//! switcher.
//!
//! The project switcher keeps an index of the repositories below a few scan
//! roots. A resync reconciles what was discovered with what the index held;
//! opening a project records an access; a search ranks the projects by a
//! fuzzy match of a query and by a frecency score that blends how often and
//! how recently each was opened. See [`index`], [`project`], [`frecency`]
//! and [`search`].
//!
//! The explorer's part reads command-line values, sizes and dates, tells
//! which entries pass a filter, and sums and ranks what was found.
//!
//! Every function states what it returns in terms of plain mathematical
//! values, and is proved to return just that. The few calls into other
//! libraries are single functions whose documentation says what is taken on
//! trust.

pub mod category;
pub mod cli;
pub mod clock;
pub mod commands;
pub mod config;
pub mod dates;
pub mod dedup;
pub mod errors;
pub mod filters;
pub mod frecency;
pub mod git;
pub mod index;
pub mod metadata;
pub mod models;
pub mod patterns;
pub mod project;
pub mod ranking;
pub mod search;
pub mod size;
pub mod templates;
pub mod text;
pub mod traverse;
pub mod util;
pub mod watch;
