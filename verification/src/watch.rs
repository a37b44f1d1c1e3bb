//! Selection of the file-system events that a watch reports.

use vstd::prelude::*;
use vstd::string::*;
use crate::filters::{holds_text, list_holds};

verus! {

/// What happened to a watched path.
#[derive(Debug, Clone, Copy, PartialEq, Eq, Structural)]
pub enum ChangeKind {
    Create,
    Modify,
    Remove,
    Other,
}

/// The word by which a change is reported; a change of another kind is not
/// reported at all.
pub open spec fn change_word(kind: ChangeKind) -> Option<Seq<char>> {
    match kind {
        ChangeKind::Create => Some("create"@),
        ChangeKind::Modify => Some("modify"@),
        ChangeKind::Remove => Some("remove"@),
        ChangeKind::Other => None,
    }
}

/// Watches a directory tree and reports the events that were asked for.
#[derive(Debug)]
pub struct FileWatcher {
    events: Vec<String>,
}

impl FileWatcher {
    /// The words of the events that are reported; none stands for all.
    pub closed spec fn events(&self) -> Seq<String> {
        self.events@
    }

    /// A watcher that reports the events with these words.
    pub fn new(events: Vec<String>) -> (r: FileWatcher)
        ensures
            r.events() == events@,
    {
        FileWatcher { events }
    }

    /// The word under which a change is reported, if it is reported: the
    /// change must be a creation, a modification or a removal, and its word
    /// must be among those asked for unless none was asked for.
    pub fn reported_as(&self, kind: ChangeKind) -> (r: Option<&'static str>)
        ensures
            match change_word(kind) {
                Some(word) => if self.events().len() == 0 || holds_text(self.events(), word) {
                    r matches Some(w) && w@ == word
                } else {
                    r.is_none()
                },
                None => r.is_none(),
            },
    {
        let word = match kind {
            ChangeKind::Create => "create",
            ChangeKind::Modify => "modify",
            ChangeKind::Remove => "remove",
            ChangeKind::Other => {
                return None;
            },
        };
        if self.events.len() != 0 && !list_holds(&self.events, word) {
            return None;
        }
        Some(word)
    }
}

} // verus!
