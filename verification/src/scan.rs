//! The scan of one entry: find the target column in the header, test each
//! data row, and report the header and the defective rows.

use vstd::prelude::*;
use vstd::string::*;
use vstd::utf8::*;
use crate::finding::{Finding, FindingView};
use crate::select::{entry_identity, identity_of, Selection};
use crate::text::{decode, names_match, str_eq_ignore_case};

verus! {

/// The test that marks a value as defective.
#[derive(Debug, Clone, Copy, PartialEq, Eq)]
pub enum DefectPredicate {
    /// The raw bytes of the value hold this byte somewhere.
    ContainsByte(u8),
    /// The value is text that begins with this character.
    StartsWith(char),
}

/// A sentinel that is not one byte, or not one character, as the test needs.
#[derive(Debug, Clone, PartialEq, Eq)]
pub struct BadSentinel {
    pub text: String,
}

impl DefectPredicate {
    /// The test for a byte given as text: the text must be that one byte.
    pub fn contains(sentinel: &str) -> (r: Result<DefectPredicate, BadSentinel>)
        ensures
            match r {
                Ok(predicate) => encode_utf8(sentinel@).len() == 1 && predicate
                    == DefectPredicate::ContainsByte(encode_utf8(sentinel@)[0]),
                Err(bad) => encode_utf8(sentinel@).len() != 1 && bad.text@ == sentinel@,
            },
    {
        let bytes = sentinel.as_bytes();
        if bytes.len() == 1 {
            Ok(DefectPredicate::ContainsByte(bytes[0]))
        } else {
            Err(BadSentinel { text: sentinel.to_owned() })
        }
    }

    /// The test for a first character given as text: the text must be that
    /// one character.
    pub fn starts_with(sentinel: &str) -> (r: Result<DefectPredicate, BadSentinel>)
        ensures
            match r {
                Ok(predicate) => sentinel@.len() == 1 && predicate == DefectPredicate::StartsWith(
                    sentinel@[0],
                ),
                Err(bad) => sentinel@.len() != 1 && bad.text@ == sentinel@,
            },
    {
        if sentinel.unicode_len() == 1 {
            Ok(DefectPredicate::StartsWith(sentinel.get_char(0)))
        } else {
            Err(BadSentinel { text: sentinel.to_owned() })
        }
    }

    /// Whether the raw bytes of a value are defective.
    pub open spec fn holds(self, raw: Seq<u8>) -> bool {
        match self {
            DefectPredicate::ContainsByte(byte) => raw.contains(byte),
            DefectPredicate::StartsWith(first) => {
                &&& valid_utf8(raw)
                &&& decode_utf8(raw).len() > 0
                &&& decode_utf8(raw)[0] == first
            },
        }
    }

    /// Tests the raw bytes of one value.
    pub fn test(&self, raw: &[u8]) -> (r: bool)
        ensures
            r == self.holds(raw@),
    {
        match self {
            DefectPredicate::ContainsByte(byte) => {
                let found = memchr::memchr(*byte, raw);
                match found {
                    Some(_) => true,
                    None => false,
                }
            },
            DefectPredicate::StartsWith(first) => {
                match decode(raw) {
                    Some(text) => !text.as_str().is_empty() && text.as_str().get_char(0) == *first,
                    None => false,
                }
            },
        }
    }
}

/// What to look for, and where.
#[derive(Debug)]
pub struct ScanConfig {
    /// Which entries of an archive are scanned.
    pub selection: Selection,
    /// The name of the column to test, matched without regard to ASCII case.
    pub target_column: String,
    /// The test applied to the value in that column.
    pub predicate: DefectPredicate,
}

/// One data row as the tokenizer gives it: the raw bytes of each cell.
#[derive(Debug, Clone, PartialEq, Eq)]
pub struct Record {
    pub cells: Vec<Vec<u8>>,
}

impl View for Record {
    type V = Seq<Seq<u8>>;

    open spec fn view(&self) -> Seq<Seq<u8>> {
        Seq::new(self.cells@.len(), |i: int| self.cells@[i]@)
    }
}

impl DeepView for Record {
    type V = Seq<Seq<u8>>;

    open spec fn deep_view(&self) -> Seq<Seq<u8>> {
        self@
    }
}

/// `i` is the first column of `header` whose name is `wanted`.
pub open spec fn is_first_match(header: Seq<Seq<char>>, wanted: Seq<char>, i: int) -> bool {
    &&& 0 <= i < header.len()
    &&& names_match(header[i], wanted)
    &&& forall|j: int| 0 <= j < i ==> !names_match(#[trigger] header[j], wanted)
}

/// The first column of `header` whose name is `wanted`, if there is one.
pub open spec fn target_column(header: Seq<Seq<char>>, wanted: Seq<char>) -> Option<int> {
    if exists|i: int| is_first_match(header, wanted, i) {
        Some(choose|i: int| is_first_match(header, wanted, i))
    } else {
        None
    }
}

/// The first match is the only first match.
pub proof fn first_match_is_unique(header: Seq<Seq<char>>, wanted: Seq<char>, i: int)
    requires
        is_first_match(header, wanted, i),
    ensures
        target_column(header, wanted) == Some(i),
{
    let k = choose|k: int| is_first_match(header, wanted, k);
    if k < i {
        assert(!names_match(header[k], wanted));
    } else if i < k {
        assert(!names_match(header[i], wanted));
    }
}

/// Finds the target column in a header, by name and without regard to ASCII
/// case. Of several columns with that name, the first is taken.
pub fn find_column(header: &Vec<String>, wanted: &str) -> (r: Option<usize>)
    ensures
        match r {
            Some(i) => target_column(header.deep_view(), wanted@) == Some(i as int),
            None => target_column(header.deep_view(), wanted@) is None,
        },
{
    let ghost names = header.deep_view();
    let mut i: usize = 0;
    while i < header.len()
        invariant
            0 <= i <= header.len(),
            names == header.deep_view(),
            forall|j: int| 0 <= j < i ==> !names_match(#[trigger] names[j], wanted@),
        decreases header.len() - i,
    {
        if str_eq_ignore_case(header[i].as_str(), wanted) {
            proof {
                first_match_is_unique(names, wanted@, i as int);
            }
            return Some(i);
        }
        i += 1;
    }
    assert forall|k: int| !is_first_match(names, wanted@, k) by {
        if 0 <= k < names.len() {
            assert(!names_match(names[k], wanted@));
        }
    }
    None
}

/// Every cell of the row is well-formed UTF-8.
pub open spec fn all_text(record: Seq<Seq<u8>>) -> bool {
    forall|i: int| 0 <= i < record.len() ==> valid_utf8(#[trigger] record[i])
}

/// The cells of a row, each read as UTF-8 text.
pub open spec fn decode_cells(record: Seq<Seq<u8>>) -> Seq<Seq<char>> {
    Seq::new(record.len(), |i: int| decode_utf8(record[i]))
}

/// Reads every cell of a row as text; `None` where some cell is not UTF-8.
pub fn decode_record(record: &Record) -> (r: Option<Vec<String>>)
    ensures
        r is Some <==> all_text(record@),
        r matches Some(values) ==> values.deep_view() == decode_cells(record@),
{
    let mut values: Vec<String> = Vec::new();
    let mut i: usize = 0;
    while i < record.cells.len()
        invariant
            0 <= i <= record.cells.len(),
            values.len() == i,
            forall|j: int| 0 <= j < i ==> valid_utf8(#[trigger] record@[j]),
            forall|j: int| 0 <= j < i ==> (#[trigger] values@[j])@ == decode_utf8(record@[j]),
        decreases record.cells.len() - i,
    {
        match decode(record.cells[i].as_slice()) {
            Some(text) => {
                values.push(text);
            },
            None => {
                assert(!valid_utf8(record@[i as int]));
                return None;
            },
        }
        i += 1;
    }
    Some(values)
}

/// The state of the scan of one entry whose header has the target column.
#[derive(Debug, Clone, PartialEq, Eq)]
pub struct EntryScan {
    /// The archive that holds the entry.
    pub origin_file: String,
    /// The name of the entry in the report.
    pub entry_identity: String,
    /// The test applied to each row.
    pub predicate: DefectPredicate,
    /// The index of the target column.
    pub column: usize,
    /// The index that the next data row gets.
    pub next_row: usize,
}

/// The state of a scan as mathematical data.
pub struct EntryScanView {
    pub origin_file: Seq<char>,
    pub entry_identity: Seq<char>,
    pub predicate: DefectPredicate,
    pub column: nat,
    pub next_row: nat,
}

impl View for EntryScan {
    type V = EntryScanView;

    open spec fn view(&self) -> EntryScanView {
        EntryScanView {
            origin_file: self.origin_file@,
            entry_identity: self.entry_identity@,
            predicate: self.predicate,
            column: self.column as nat,
            next_row: self.next_row as nat,
        }
    }
}

impl EntryScanView {
    /// The state after `rows` more rows.
    pub open spec fn after(self, rows: nat) -> EntryScanView {
        EntryScanView { next_row: self.next_row + rows, ..self }
    }

    /// The finding that the next row gives, if it gives one: the row must
    /// reach the target column, its value there must be defective, and every
    /// cell of it must be text.
    pub open spec fn finding(self, record: Seq<Seq<u8>>) -> Option<FindingView> {
        if self.column < record.len() && self.predicate.holds(record[self.column as int])
            && all_text(record) {
            Some(
                FindingView::MatchedRow {
                    origin_file: self.origin_file,
                    entry_identity: self.entry_identity,
                    row_index: self.next_row,
                    field_values: decode_cells(record),
                },
            )
        } else {
            None
        }
    }
}

/// What the start of a scan gives for an entry with these column names: the
/// scan's first state and the header finding, or nothing where the header
/// lacks the target column.
pub open spec fn scan_start(
    config: ScanConfig,
    archive: Seq<char>,
    entry: Seq<char>,
    header: Seq<Seq<char>>,
) -> Option<(EntryScanView, FindingView)> {
    match target_column(header, config.target_column@) {
        Some(column) => Some(
            (
                EntryScanView {
                    origin_file: archive,
                    entry_identity: identity_of(config.selection, archive, entry),
                    predicate: config.predicate,
                    column: column as nat,
                    next_row: 0,
                },
                FindingView::Header {
                    origin_file: archive,
                    entry_identity: identity_of(config.selection, archive, entry),
                    field_names: header,
                },
            ),
        ),
        None => None,
    }
}

/// The findings of a run of data rows, in row order, from the state `scan`.
pub open spec fn row_findings(scan: EntryScanView, records: Seq<Seq<Seq<u8>>>) -> Seq<
    FindingView,
> {
    Seq::new(records.len(), |i: int| scan.after(i as nat).finding(records[i])).filter_map(
        |found: Option<FindingView>| found,
    )
}

/// The findings of one entry: nothing where the header lacks the target
/// column; else the header, then one finding for each defective row, in row
/// order.
pub open spec fn table_findings(
    config: ScanConfig,
    archive: Seq<char>,
    entry: Seq<char>,
    header: Seq<Seq<char>>,
    records: Seq<Seq<Seq<u8>>>,
) -> Seq<FindingView> {
    match scan_start(config, archive, entry, header) {
        Some((scan, first)) => seq![first] + row_findings(scan, records),
        None => Seq::empty(),
    }
}

/// Filtering and mapping gives at most as many items as it was given.
proof fn filter_map_is_no_longer<A, B>(s: Seq<A>, f: spec_fn(A) -> Option<B>)
    ensures
        s.filter_map(f).len() <= s.len(),
    decreases s.len(),
{
    if s.len() > 0 {
        filter_map_is_no_longer(s.drop_last(), f);
    }
}

/// An entry with the target column gives exactly one header, and gives it
/// first, whether or not any row is defective; every other finding is a
/// matched row of that entry, and there is at most one for each data row.
/// An entry without the target column gives nothing.
pub proof fn header_comes_first_and_once(
    config: ScanConfig,
    archive: Seq<char>,
    entry: Seq<char>,
    header: Seq<Seq<char>>,
    records: Seq<Seq<Seq<u8>>>,
)
    ensures
        target_column(header, config.target_column@) is None ==> table_findings(
            config,
            archive,
            entry,
            header,
            records,
        ).len() == 0,
        target_column(header, config.target_column@) is Some ==> {
            let found = table_findings(config, archive, entry, header, records);
            &&& 1 <= found.len() <= records.len() + 1
            &&& found[0] == FindingView::Header {
                origin_file: archive,
                entry_identity: identity_of(config.selection, archive, entry),
                field_names: header,
            }
            &&& forall|i: int|
                1 <= i < found.len() ==> {
                    &&& (#[trigger] found[i]) is MatchedRow
                    &&& found[i]->MatchedRow_origin_file == archive
                    &&& found[i]->MatchedRow_entry_identity == identity_of(
                        config.selection,
                        archive,
                        entry,
                    )
                    &&& found[i]->row_index < records.len()
                }
        },
{
    if target_column(header, config.target_column@) is Some {
        let (scan, first) = scan_start(config, archive, entry, header)->0;
        let pick = |found: Option<FindingView>| found;
        let each = Seq::new(records.len(), |i: int| scan.after(i as nat).finding(records[i]));
        let rows = row_findings(scan, records);
        let found = table_findings(config, archive, entry, header, records);
        filter_map_is_no_longer(each, pick);
        assert forall|i: int| 1 <= i < found.len() implies {
            &&& (#[trigger] found[i]) is MatchedRow
            &&& found[i]->MatchedRow_origin_file == archive
            &&& found[i]->MatchedRow_entry_identity == identity_of(config.selection, archive, entry)
            &&& found[i]->row_index < records.len()
        } by {
            let row = rows[i - 1];
            assert(found[i] == row);
            assert(rows.contains(row));
            each.lemma_filter_map_contains(pick, row);
            let source = choose|source: Option<FindingView>| #[trigger]
                each.contains(source) && pick(source) == Some(row);
            let k = choose|k: int| 0 <= k < each.len() && each[k] == source;
            assert(scan.after(k as nat).finding(records[k]) == Some(row));
        }
    }
}

impl EntryScan {
    /// Starts the scan of one entry from its header. Gives the scan's state
    /// and the header finding, or `None` where the header lacks the target
    /// column: such an entry is passed over whole.
    pub fn begin(config: &ScanConfig, archive_path: &str, entry_name: &str, header: &Vec<String>) -> (r:
        Option<(EntryScan, Finding)>)
        ensures
            match r {
                Some((scan, first)) => scan_start(
                    *config,
                    archive_path@,
                    entry_name@,
                    header.deep_view(),
                ) == Some((scan@, first@)),
                None => scan_start(*config, archive_path@, entry_name@, header.deep_view()) is None,
            },
    {
        match find_column(header, config.target_column.as_str()) {
            Some(column) => {
                let scan = EntryScan {
                    origin_file: archive_path.to_owned(),
                    entry_identity: entry_identity(&config.selection, archive_path, entry_name),
                    predicate: config.predicate,
                    column,
                    next_row: 0,
                };
                let first = Finding::Header {
                    origin_file: archive_path.to_owned(),
                    entry_identity: entry_identity(&config.selection, archive_path, entry_name),
                    field_names: header.clone(),
                };
                Some((scan, first))
            },
            None => None,
        }
    }

    /// Takes the next data row. Gives the finding for it where the row
    /// reaches the target column, its value there is defective and all its
    /// cells are text; the row is counted either way.
    pub fn on_row(&mut self, record: &Record) -> (r: Option<Finding>)
        requires
            old(self).next_row < usize::MAX,
        ensures
            final(self)@ == old(self)@.after(1),
            match r {
                Some(found) => old(self)@.finding(record@) == Some(found@),
                None => old(self)@.finding(record@) is None,
            },
    {
        let row_index = self.next_row;
        self.next_row = self.next_row + 1;
        if self.column >= record.cells.len() {
            return None;
        }
        if !self.predicate.test(record.cells[self.column].as_slice()) {
            return None;
        }
        match decode_record(record) {
            Some(field_values) => Some(
                Finding::MatchedRow {
                    origin_file: self.origin_file.clone(),
                    entry_identity: self.entry_identity.clone(),
                    row_index,
                    field_values,
                },
            ),
            None => None,
        }
    }
}

/// Scans one entry given whole: its header and its data rows.
pub fn scan_table(
    config: &ScanConfig,
    archive_path: &str,
    entry_name: &str,
    header: &Vec<String>,
    records: &Vec<Record>,
) -> (findings: Vec<Finding>)
    ensures
        findings.deep_view() == table_findings(
            *config,
            archive_path@,
            entry_name@,
            header.deep_view(),
            records.deep_view(),
        ),
{
    let mut findings: Vec<Finding> = Vec::new();
    match EntryScan::begin(config, archive_path, entry_name, header) {
        None => {},
        Some((scan, first)) => {
            let mut scan = scan;
            let ghost start = scan@;
            let ghost rows = records.deep_view();
            let ghost found = Seq::new(rows.len(), |i: int| start.after(i as nat).finding(rows[i]));
            let ghost pick = |found: Option<FindingView>| found;
            findings.push(first);
            let mut i: usize = 0;
            while i < records.len()
                invariant
                    0 <= i <= records.len(),
                    rows == records.deep_view(),
                    found == Seq::new(rows.len(), |i: int| start.after(i as nat).finding(rows[i])),
                    pick == |found: Option<FindingView>| found,
                    scan@ == start.after(i as nat),
                    start.next_row == 0,
                    findings.deep_view() == seq![first@] + found.take(i as int).filter_map(pick),
                decreases records.len() - i,
            {
                let ghost before = findings.deep_view();
                proof {
                    found.lemma_filter_map_take_succ(pick, i as int);
                }
                match scan.on_row(&records[i]) {
                    Some(finding) => {
                        findings.push(finding);
                        assert(findings.deep_view() =~= before.push(finding@));
                    },
                    None => {},
                }
                i += 1;
            }
            assert(found.take(records.len() as int) =~= found);
        },
    }
    findings
}

} // verus!
