//! The sections of a manual page that can be asked for by name.
use crate::text::{str_eq, str_eq_ignoring_case};
use vstd::prelude::*;

verus! {

/// A section of a manual page. `Unknown` stands for every section without a
/// name of its own here.
#[derive(Debug, PartialEq, Eq, Clone, Copy, Structural)]
pub enum ManSection {
    Unknown,
    Name,
    Synopsis,
    Description,
    Options,
}

/// The section that a user asks for with `name`, whatever the case of its
/// letters.
pub open spec fn section_named(name: Seq<char>) -> ManSection {
    if crate::text::same_ignoring_case(name, "name"@) {
        ManSection::Name
    } else if crate::text::same_ignoring_case(name, "synopsis"@) {
        ManSection::Synopsis
    } else if crate::text::same_ignoring_case(name, "options"@) {
        ManSection::Options
    } else if crate::text::same_ignoring_case(name, "description"@) {
        ManSection::Description
    } else {
        ManSection::Unknown
    }
}

/// The section that begins with a header of the given title. Titles are
/// written in upper case.
pub open spec fn section_titled(title: Seq<char>) -> ManSection {
    if title == "NAME"@ {
        ManSection::Name
    } else if title == "SYNOPSIS"@ {
        ManSection::Synopsis
    } else if title == "DESCRIPTION"@ {
        ManSection::Description
    } else if title == "OPTIONS"@ {
        ManSection::Options
    } else {
        ManSection::Unknown
    }
}

impl ManSection {
    /// The section that begins with a header of the given title.
    pub fn from_title(title: &str) -> (section: ManSection)
        ensures
            section == section_titled(title@),
    {
        if str_eq(title, "NAME") {
            ManSection::Name
        } else if str_eq(title, "SYNOPSIS") {
            ManSection::Synopsis
        } else if str_eq(title, "DESCRIPTION") {
            ManSection::Description
        } else if str_eq(title, "OPTIONS") {
            ManSection::Options
        } else {
            ManSection::Unknown
        }
    }
}

impl<'a> From<&'a str> for ManSection {
    fn from(s: &'a str) -> (section: ManSection) {
        if str_eq_ignoring_case(s, "name") {
            ManSection::Name
        } else if str_eq_ignoring_case(s, "synopsis") {
            ManSection::Synopsis
        } else if str_eq_ignoring_case(s, "options") {
            ManSection::Options
        } else if str_eq_ignoring_case(s, "description") {
            ManSection::Description
        } else {
            ManSection::Unknown
        }
    }
}

impl<'a> vstd::std_specs::convert::FromSpecImpl<&'a str> for ManSection {
    open spec fn obeys_from_spec() -> bool {
        true
    }

    open spec fn from_spec(s: &'a str) -> ManSection {
        section_named(s@)
    }
}

} // verus!
