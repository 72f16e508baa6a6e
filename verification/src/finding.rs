//! What a worker reports about one scanned entry.

use vstd::prelude::*;

verus! {

/// One result of scanning an entry: its header, or one defective row.
#[derive(Debug, Clone, PartialEq, Eq)]
pub enum Finding {
    /// The column names of an entry that has the target column.
    Header { origin_file: String, entry_identity: String, field_names: Vec<String> },
    /// A row whose value in the target column is defective. `row_index`
    /// counts the data rows of the entry from zero; the header is not counted.
    MatchedRow {
        origin_file: String,
        entry_identity: String,
        row_index: usize,
        field_values: Vec<String>,
    },
}

/// A finding as mathematical data.
pub enum FindingView {
    Header { origin_file: Seq<char>, entry_identity: Seq<char>, field_names: Seq<Seq<char>> },
    MatchedRow {
        origin_file: Seq<char>,
        entry_identity: Seq<char>,
        row_index: nat,
        field_values: Seq<Seq<char>>,
    },
}

impl View for Finding {
    type V = FindingView;

    open spec fn view(&self) -> FindingView {
        match *self {
            Finding::Header { origin_file, entry_identity, field_names } => FindingView::Header {
                origin_file: origin_file@,
                entry_identity: entry_identity@,
                field_names: field_names.deep_view(),
            },
            Finding::MatchedRow {
                origin_file,
                entry_identity,
                row_index,
                field_values,
            } => FindingView::MatchedRow {
                origin_file: origin_file@,
                entry_identity: entry_identity@,
                row_index: row_index as nat,
                field_values: field_values.deep_view(),
            },
        }
    }
}

impl DeepView for Finding {
    type V = FindingView;

    open spec fn deep_view(&self) -> FindingView {
        self@
    }
}

} // verus!
