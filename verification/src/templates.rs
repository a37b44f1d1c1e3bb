//! The formats in which a listing can be exported as a document.

use vstd::prelude::*;
use vstd::string::*;
use crate::text::{lowercase_of, str_eq, to_lowercase};

verus! {

/// The format of an exported document.
#[derive(Debug, Clone, Copy, PartialEq, Eq, Structural)]
pub enum TemplateFormat {
    Markdown,
    Html,
}

/// The format that a lower-case name denotes.
pub open spec fn template_named(name: Seq<char>) -> Option<TemplateFormat> {
    if name == "markdown"@ || name == "md"@ {
        Some(TemplateFormat::Markdown)
    } else if name == "html"@ {
        Some(TemplateFormat::Html)
    } else {
        None
    }
}

impl TemplateFormat {
    /// The format with exactly this lower-case name.
    pub fn from_lowercase(name: &str) -> (r: Option<TemplateFormat>)
        ensures
            r == template_named(name@),
    {
        if str_eq(name, "markdown") || str_eq(name, "md") {
            Some(TemplateFormat::Markdown)
        } else if str_eq(name, "html") {
            Some(TemplateFormat::Html)
        } else {
            None
        }
    }

    /// The format that `s` names, whatever the case of its letters; an
    /// unknown name is handed back in a message.
    pub fn parse(s: &str) -> (r: Result<TemplateFormat, String>)
        ensures
            match template_named(lowercase_of(s@)) {
                Some(format) => r == Ok::<TemplateFormat, String>(format),
                None => r matches Err(message) && message@ == "Unknown template format: "@ + s@,
            },
    {
        let lower = to_lowercase(s);
        match TemplateFormat::from_lowercase(lower.as_str()) {
            Some(format) => Ok(format),
            None => Err(String::from_str("Unknown template format: ").concat(s)),
        }
    }
}

} // verus!
