//! Which entries of an archive are scanned, and how an entry is named in the
//! report.

use vstd::prelude::*;
use vstd::string::*;
use crate::outside::{pattern_compiles, regex_matches, regex_source};
use crate::text::str_eq;

verus! {

/// The rule that picks the entries of an archive to scan.
#[derive(Debug)]
pub enum Selection {
    /// The one entry with exactly this name.
    Fixed(String),
    /// Every entry whose name the pattern matches.
    Pattern(regex::Regex),
}

/// A pattern that is not a regular expression.
#[derive(Debug, Clone, PartialEq, Eq)]
pub struct BadPattern {
    pub pattern: String,
}

impl Selection {
    /// Whether the rule picks the entry called `name`.
    pub open spec fn selects(self, name: Seq<char>) -> bool {
        match self {
            Selection::Fixed(entry) => name == entry@,
            Selection::Pattern(re) => regex_matches(re, name),
        }
    }

    /// The rule that picks entries by a regular expression over their names.
    pub fn pattern(pattern: &str) -> (r: Result<Selection, BadPattern>)
        ensures
            r is Ok <==> pattern_compiles(pattern@),
            r matches Ok(sel) ==> sel is Pattern && sel.text() == pattern@,
            r matches Err(e) ==> e.pattern@ == pattern@,
    {
        match regex::Regex::new(pattern) {
            Ok(re) => Ok(Selection::Pattern(re)),
            Err(_) => Err(BadPattern { pattern: pattern.to_owned() }),
        }
    }

    /// The text that defines the rule: the entry's name, or the pattern.
    pub open spec fn text(self) -> Seq<char> {
        match self {
            Selection::Fixed(entry) => entry@,
            Selection::Pattern(re) => regex_source(re),
        }
    }

    /// Gives the text that defines the rule.
    pub fn source(&self) -> (s: &str)
        ensures
            s@ == self.text(),
    {
        match self {
            Selection::Fixed(entry) => entry.as_str(),
            Selection::Pattern(re) => re.as_str(),
        }
    }

    /// Applies the rule to an entry name.
    pub fn is_selected(&self, name: &str) -> (b: bool)
        ensures
            b == self.selects(name@),
    {
        match self {
            Selection::Fixed(entry) => str_eq(entry.as_str(), name),
            Selection::Pattern(re) => re.is_match(name),
        }
    }
}

/// The name under which an entry appears in the report: the archive's path
/// alone where one fixed entry is selected, the archive's path, a colon and
/// the entry's name where entries are selected by pattern.
pub open spec fn identity_of(selection: Selection, archive: Seq<char>, entry: Seq<char>) -> Seq<
    char,
> {
    match selection {
        Selection::Fixed(_) => archive,
        Selection::Pattern(_) => archive + seq![':'] + entry,
    }
}

/// Builds the name under which an entry appears in the report.
pub fn entry_identity(selection: &Selection, archive_path: &str, entry_name: &str) -> (id: String)
    ensures
        id@ == identity_of(*selection, archive_path@, entry_name@),
{
    match selection {
        Selection::Fixed(_) => archive_path.to_owned(),
        Selection::Pattern(_) => {
            let mut id = archive_path.to_owned();
            proof {
                reveal_strlit(":");
            }
            id.append(":");
            id.append(entry_name);
            id
        },
    }
}

} // verus!
