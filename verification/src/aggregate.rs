//! The aggregator: the one consumer of all findings. It holds every entry to
//! the schema of the first header, and turns the findings into the rows of
//! one report.

use vstd::prelude::*;
use vstd::seq_lib::*;
use vstd::string::*;
use crate::permutation::filter_map_keeps_same_items;
use crate::finding::{Finding, FindingView};
use crate::select::Selection;
use crate::text::{decimal, decimal_string, str_eq};

verus! {

/// Which columns of provenance stand before a row's own columns.
#[derive(Debug, Clone, Copy, PartialEq, Eq)]
pub enum Provenance {
    /// The path of the archive that holds the row.
    File,
    /// The path of the archive, the name of the entry in the report, and the
    /// index of the row among the data rows of the entry.
    FileEntryRow,
}

impl Provenance {
    /// The scheme that goes with a selection rule: the archive's path alone
    /// where one fixed entry is read from every archive; path, entry and
    /// row index where entries are picked by pattern.
    pub open spec fn of(selection: Selection) -> Provenance {
        match selection {
            Selection::Fixed(_) => Provenance::File,
            Selection::Pattern(_) => Provenance::FileEntryRow,
        }
    }

    /// Picks the scheme that goes with a selection rule.
    pub fn for_selection(selection: &Selection) -> (scheme: Provenance)
        ensures
            scheme == Provenance::of(*selection),
    {
        match selection {
            Selection::Fixed(_) => Provenance::File,
            Selection::Pattern(_) => Provenance::FileEntryRow,
        }
    }
}

/// How far the aggregator has come.
#[derive(Debug, Clone, Copy, PartialEq, Eq)]
pub enum Phase {
    /// No header has arrived.
    NoHeader,
    /// A header has arrived, but no row: nothing is written yet.
    HeaderSeen,
    /// The report exists and holds its header and at least one row.
    Writing,
}

/// The names of the provenance columns.
pub open spec fn provenance_names(scheme: Provenance) -> Seq<Seq<char>> {
    match scheme {
        Provenance::File => seq!["file_path"@],
        Provenance::FileEntryRow => seq!["file_path"@, "entry"@, "line_num"@],
    }
}

/// The provenance of one row.
pub open spec fn provenance_values(
    scheme: Provenance,
    origin_file: Seq<char>,
    entry_identity: Seq<char>,
    row_index: nat,
) -> Seq<Seq<char>> {
    match scheme {
        Provenance::File => seq![origin_file],
        Provenance::FileEntryRow => seq![origin_file, entry_identity, decimal(row_index)],
    }
}

/// The first row of the report: the provenance columns, then the schema.
pub open spec fn header_row(scheme: Provenance, canonical: Seq<Seq<char>>) -> Seq<Seq<char>> {
    provenance_names(scheme) + canonical
}

/// The row of the report that a finding gives: for a matched row, its
/// provenance, then its values; for a header, none.
pub open spec fn data_row(scheme: Provenance, finding: FindingView) -> Option<Seq<Seq<char>>> {
    match finding {
        FindingView::MatchedRow {
            origin_file,
            entry_identity,
            row_index,
            field_values,
        } => Some(provenance_values(scheme, origin_file, entry_identity, row_index) + field_values),
        FindingView::Header { .. } => None,
    }
}

/// What the sink is to do: create the report first where `create` is set,
/// then write the rows in order.
#[derive(Debug, Clone, PartialEq, Eq)]
pub struct Emission {
    pub create: bool,
    pub rows: Vec<Vec<String>>,
}

/// An emission as mathematical data.
pub struct EmissionView {
    pub create: bool,
    pub rows: Seq<Seq<Seq<char>>>,
}

impl View for Emission {
    type V = EmissionView;

    open spec fn view(&self) -> EmissionView {
        EmissionView { create: self.create, rows: self.rows.deep_view() }
    }
}

/// Why the aggregator gave up. Either is fatal to the run.
#[derive(Debug, Clone, PartialEq, Eq)]
pub enum AggregateError {
    /// A header whose column names differ from the schema. `file` is the
    /// archive it came from, `found` its column names, `expected` the schema.
    SchemaMismatch { file: String, found: Vec<String>, expected: Vec<String> },
    /// A row arrived before any header. `file` is the archive it came from.
    RowBeforeHeader { file: String },
}

/// An error as mathematical data.
pub enum AggregateErrorView {
    SchemaMismatch { file: Seq<char>, found: Seq<Seq<char>>, expected: Seq<Seq<char>> },
    RowBeforeHeader { file: Seq<char> },
}

impl View for AggregateError {
    type V = AggregateErrorView;

    open spec fn view(&self) -> AggregateErrorView {
        match *self {
            AggregateError::SchemaMismatch { file, found, expected } => {
                AggregateErrorView::SchemaMismatch {
                    file: file@,
                    found: found.deep_view(),
                    expected: expected.deep_view(),
                }
            },
            AggregateError::RowBeforeHeader { file } => AggregateErrorView::RowBeforeHeader {
                file: file@,
            },
        }
    }
}

/// The aggregator's state as mathematical data. `canonical` is the schema:
/// the column names of the first header; it is empty until one has arrived.
pub struct AggregatorView {
    pub scheme: Provenance,
    pub phase: Phase,
    pub canonical: Seq<Seq<char>>,
}

impl AggregatorView {
    /// The state before any finding.
    pub open spec fn initial(scheme: Provenance) -> AggregatorView {
        AggregatorView { scheme, phase: Phase::NoHeader, canonical: Seq::empty() }
    }

    /// Nothing to do.
    pub open spec fn nothing() -> EmissionView {
        EmissionView { create: false, rows: Seq::empty() }
    }

    /// One finding arrives: the next state and what to write, or the error
    /// that ends the run.
    pub open spec fn step(self, finding: FindingView) -> Result<
        (AggregatorView, EmissionView),
        AggregateErrorView,
    > {
        match finding {
            FindingView::Header { origin_file, entry_identity, field_names } => {
                if self.phase == Phase::NoHeader {
                    Ok(
                        (
                            AggregatorView {
                                scheme: self.scheme,
                                phase: Phase::HeaderSeen,
                                canonical: field_names,
                            },
                            Self::nothing(),
                        ),
                    )
                } else if field_names == self.canonical {
                    Ok((self, Self::nothing()))
                } else {
                    Err(
                        AggregateErrorView::SchemaMismatch {
                            file: origin_file,
                            found: field_names,
                            expected: self.canonical,
                        },
                    )
                }
            },
            FindingView::MatchedRow { origin_file, entry_identity, row_index, field_values } => {
                let row = provenance_values(self.scheme, origin_file, entry_identity, row_index)
                    + field_values;
                match self.phase {
                    Phase::NoHeader => Err(
                        AggregateErrorView::RowBeforeHeader { file: origin_file },
                    ),
                    Phase::HeaderSeen => Ok(
                        (
                            AggregatorView { phase: Phase::Writing, ..self },
                            EmissionView {
                                create: true,
                                rows: seq![header_row(self.scheme, self.canonical), row],
                            },
                        ),
                    ),
                    Phase::Writing => Ok((self, EmissionView { create: false, rows: seq![row] })),
                }
            },
        }
    }

    /// The stream of findings ends: what is left to write. Where no report
    /// exists yet, one is created, so that a run without results leaves one
    /// too.
    pub open spec fn close(self) -> EmissionView {
        match self.phase {
            Phase::NoHeader => EmissionView { create: true, rows: Seq::empty() },
            Phase::HeaderSeen => EmissionView {
                create: true,
                rows: seq![header_row(self.scheme, self.canonical)],
            },
            Phase::Writing => EmissionView { create: false, rows: Seq::empty() },
        }
    }
}

/// The aggregator.
#[derive(Debug, Clone, PartialEq, Eq)]
pub struct Aggregator {
    scheme: Provenance,
    phase: Phase,
    canonical: Vec<String>,
}

impl View for Aggregator {
    type V = AggregatorView;

    closed spec fn view(&self) -> AggregatorView {
        AggregatorView {
            scheme: self.scheme,
            phase: self.phase,
            canonical: if self.phase == Phase::NoHeader {
                Seq::empty()
            } else {
                self.canonical.deep_view()
            },
        }
    }
}

/// Whether two lists of names are the same list.
pub fn same_names(a: &Vec<String>, b: &Vec<String>) -> (r: bool)
    ensures
        r == (a.deep_view() == b.deep_view()),
{
    if a.len() != b.len() {
        assert(a.deep_view().len() != b.deep_view().len());
        return false;
    }
    let mut i: usize = 0;
    while i < a.len()
        invariant
            a.len() == b.len(),
            0 <= i <= a.len(),
            forall|j: int| 0 <= j < i ==> (#[trigger] a@[j])@ == b@[j]@,
        decreases a.len() - i,
    {
        if !str_eq(a[i].as_str(), b[i].as_str()) {
            assert(a.deep_view()[i as int] != b.deep_view()[i as int]);
            return false;
        }
        i += 1;
    }
    assert(a.deep_view() =~= b.deep_view());
    true
}

/// Builds the provenance column names.
fn names_of(scheme: Provenance) -> (names: Vec<String>)
    ensures
        names.deep_view() == provenance_names(scheme),
{
    let mut names: Vec<String> = Vec::new();
    names.push("file_path".to_owned());
    match scheme {
        Provenance::File => {},
        Provenance::FileEntryRow => {
            names.push("entry".to_owned());
            names.push("line_num".to_owned());
        },
    }
    assert(names.deep_view() =~= provenance_names(scheme));
    names
}

/// Joins two lists of strings.
fn joined(front: Vec<String>, back: Vec<String>) -> (all: Vec<String>)
    ensures
        all.deep_view() == front.deep_view() + back.deep_view(),
{
    let mut all = front;
    let mut rest = back;
    all.append(&mut rest);
    assert(all.deep_view() =~= front.deep_view() + back.deep_view());
    all
}

impl Aggregator {
    /// An aggregator that has seen nothing.
    pub fn new(scheme: Provenance) -> (agg: Aggregator)
        ensures
            agg@ == AggregatorView::initial(scheme),
    {
        Aggregator { scheme, phase: Phase::NoHeader, canonical: Vec::new() }
    }

    /// How far the aggregator has come.
    pub fn phase(&self) -> (p: Phase)
        ensures
            p == self@.phase,
    {
        self.phase
    }

    /// Builds the first row of the report.
    fn first_row(&self) -> (row: Vec<String>)
        requires
            self.phase != Phase::NoHeader,
        ensures
            row.deep_view() == header_row(self@.scheme, self@.canonical),
    {
        joined(names_of(self.scheme), self.canonical.clone())
    }

    /// Takes one finding. On success, gives what the sink is to do now; on
    /// failure the aggregator is left as it was, and the run is over.
    pub fn on_finding(&mut self, finding: Finding) -> (r: Result<Emission, AggregateError>)
        ensures
            match r {
                Ok(emission) => old(self)@.step(finding@) == Ok::<
                    (AggregatorView, EmissionView),
                    AggregateErrorView,
                >((final(self)@, emission@)),
                Err(error) => old(self)@.step(finding@) == Err::<
                    (AggregatorView, EmissionView),
                    AggregateErrorView,
                >(error@) && final(self)@ == old(self)@,
            },
    {
        match finding {
            Finding::Header { origin_file, entry_identity, field_names } => {
                match self.phase {
                    Phase::NoHeader => {
                        self.canonical = field_names;
                        self.phase = Phase::HeaderSeen;
                        let emission = Emission { create: false, rows: Vec::new() };
                        assert(emission@.rows =~= Seq::empty());
                        Ok(emission)
                    },
                    _ => {
                        if same_names(&field_names, &self.canonical) {
                            let emission = Emission { create: false, rows: Vec::new() };
                            assert(emission@.rows =~= Seq::empty());
                            Ok(emission)
                        } else {
                            Err(
                                AggregateError::SchemaMismatch {
                                    file: origin_file,
                                    found: field_names,
                                    expected: self.canonical.clone(),
                                },
                            )
                        }
                    },
                }
            },
            Finding::MatchedRow { origin_file, entry_identity, row_index, field_values } => {
                match self.phase {
                    Phase::NoHeader => Err(AggregateError::RowBeforeHeader { file: origin_file }),
                    Phase::HeaderSeen => {
                        let header = self.first_row();
                        let row = Self::row_of(
                            self.scheme,
                            origin_file,
                            entry_identity,
                            row_index,
                            field_values,
                        );
                        self.phase = Phase::Writing;
                        let mut rows: Vec<Vec<String>> = Vec::new();
                        rows.push(header);
                        rows.push(row);
                        let emission = Emission { create: true, rows };
                        assert(emission@.rows =~= seq![header.deep_view(), row.deep_view()]);
                        Ok(emission)
                    },
                    Phase::Writing => {
                        let row = Self::row_of(
                            self.scheme,
                            origin_file,
                            entry_identity,
                            row_index,
                            field_values,
                        );
                        let mut rows: Vec<Vec<String>> = Vec::new();
                        rows.push(row);
                        let emission = Emission { create: false, rows };
                        assert(emission@.rows =~= seq![row.deep_view()]);
                        Ok(emission)
                    },
                }
            },
        }
    }

    /// Builds the row of the report for one matched row.
    fn row_of(
        scheme: Provenance,
        origin_file: String,
        entry_identity: String,
        row_index: usize,
        field_values: Vec<String>,
    ) -> (row: Vec<String>)
        ensures
            row.deep_view() == provenance_values(
                scheme,
                origin_file@,
                entry_identity@,
                row_index as nat,
            ) + field_values.deep_view(),
    {
        let mut front: Vec<String> = Vec::new();
        front.push(origin_file);
        match scheme {
            Provenance::File => {},
            Provenance::FileEntryRow => {
                front.push(entry_identity);
                front.push(decimal_string(row_index));
            },
        }
        assert(front.deep_view() =~= provenance_values(
            scheme,
            origin_file@,
            entry_identity@,
            row_index as nat,
        ));
        joined(front, field_values)
    }

    /// The stream of findings has ended: gives what is left for the sink to
    /// do.
    pub fn finish(self) -> (emission: Emission)
        ensures
            emission@ == self@.close(),
    {
        match self.phase {
            Phase::NoHeader => {
                let emission = Emission { create: true, rows: Vec::new() };
                assert(emission@.rows =~= Seq::empty());
                emission
            },
            Phase::HeaderSeen => {
                let header = self.first_row();
                let mut rows: Vec<Vec<String>> = Vec::new();
                rows.push(header);
                let emission = Emission { create: true, rows };
                assert(emission@.rows =~= seq![header.deep_view()]);
                emission
            },
            Phase::Writing => {
                let emission = Emission { create: false, rows: Vec::new() };
                assert(emission@.rows =~= Seq::empty());
                emission
            },
        }
    }
}

/// Where the aggregator stands once these findings have arrived in this
/// order, and the rows it has handed to the sink; or the error that ended
/// the run.
pub open spec fn run(scheme: Provenance, findings: Seq<FindingView>) -> Result<
    (AggregatorView, Seq<Seq<Seq<char>>>),
    AggregateErrorView,
>
    decreases findings.len(),
{
    if findings.len() == 0 {
        Ok((AggregatorView::initial(scheme), Seq::empty()))
    } else {
        match run(scheme, findings.drop_last()) {
            Err(error) => Err(error),
            Ok((state, rows)) => match state.step(findings.last()) {
                Err(error) => Err(error),
                Ok((next, emission)) => Ok((next, rows + emission.rows)),
            },
        }
    }
}

/// The rows of the finished report for findings that arrive in this order
/// before the stream ends; or the error that ended the run.
pub open spec fn report(scheme: Provenance, findings: Seq<FindingView>) -> Result<
    Seq<Seq<Seq<char>>>,
    AggregateErrorView,
> {
    match run(scheme, findings) {
        Err(error) => Err(error),
        Ok((state, rows)) => Ok(rows + state.close().rows),
    }
}

/// A run that has failed stays failed, whatever arrives later.
pub proof fn failure_is_final(scheme: Provenance, findings: Seq<FindingView>, k: int)
    requires
        0 <= k <= findings.len(),
        run(scheme, findings.take(k)) is Err,
    ensures
        run(scheme, findings) == run(scheme, findings.take(k)),
    decreases findings.len() - k,
{
    if k < findings.len() {
        assert(findings.take(k + 1).drop_last() =~= findings.take(k));
        failure_is_final(scheme, findings, k + 1);
    } else {
        assert(findings.take(k) =~= findings);
    }
}

/// Runs the aggregator over findings given whole, in their order, and
/// gives the rows of the finished report.
pub fn aggregate(scheme: Provenance, findings: Vec<Finding>) -> (r: Result<
    Vec<Vec<String>>,
    AggregateError,
>)
    ensures
        match r {
            Ok(rows) => report(scheme, findings.deep_view()) == Ok::<
                Seq<Seq<Seq<char>>>,
                AggregateErrorView,
            >(rows.deep_view()),
            Err(error) => report(scheme, findings.deep_view()) == Err::<
                Seq<Seq<Seq<char>>>,
                AggregateErrorView,
            >(error@),
        },
{
    let ghost all = findings.deep_view();
    let mut aggregator = Aggregator::new(scheme);
    let mut rows: Vec<Vec<String>> = Vec::new();
    assert(all.take(0) =~= Seq::empty());
    assert(rows.deep_view() =~= Seq::empty());
    for finding in it: findings.into_iter()
        invariant
            all == findings.deep_view(),
            it.seq() == findings@,
            run(scheme, all.take(it.index() as int)) == Ok::<
                (AggregatorView, Seq<Seq<Seq<char>>>),
                AggregateErrorView,
            >((aggregator@, rows.deep_view())),
    {
        let ghost i = it.index() as int;
        let ghost before = rows.deep_view();
        assert(all.take(i + 1).drop_last() =~= all.take(i));
        assert(all.take(i + 1).last() == finding@);
        match aggregator.on_finding(finding) {
            Ok(emission) => {
                let mut emitted = emission.rows;
                rows.append(&mut emitted);
                assert(rows.deep_view() =~= before + emission@.rows);
            },
            Err(error) => {
                proof {
                    failure_is_final(scheme, all, i + 1);
                }
                return Err(error);
            },
        }
    }
    assert(all.take(all.len() as int) =~= all);
    let ghost before = rows.deep_view();
    let last = aggregator.finish();
    let mut emitted = last.rows;
    rows.append(&mut emitted);
    assert(rows.deep_view() =~= before + last@.rows);
    Ok(rows)
}

/// The rows that the matched rows among the findings give, in their order.
pub open spec fn data_rows(scheme: Provenance, findings: Seq<FindingView>) -> Seq<
    Seq<Seq<char>>,
> {
    findings.filter_map(|finding: FindingView| data_row(scheme, finding))
}

/// What a run that has not failed looks like: the first finding was a
/// header, every header agrees with it, and the rows handed to the sink are
/// the header row, once a row has arrived, and then the data rows in order.
proof fn run_shape(scheme: Provenance, findings: Seq<FindingView>)
    requires
        run(scheme, findings) is Ok,
    ensures
        run(scheme, findings) matches Ok((state, rows)) && {
            &&& state.scheme == scheme
            &&& (state.phase == Phase::NoHeader <==> findings.len() == 0)
            &&& findings.len() > 0 ==> findings[0] is Header && findings[0]->field_names
                == state.canonical
            &&& forall|i: int|
                0 <= i < findings.len() && (#[trigger] findings[i]) is Header
                    ==> findings[i]->field_names == state.canonical
            &&& state.phase != Phase::Writing ==> data_rows(scheme, findings).len() == 0
            &&& rows == (if state.phase == Phase::Writing {
                seq![header_row(scheme, state.canonical)]
            } else {
                Seq::empty()
            }) + data_rows(scheme, findings)
        },
    decreases findings.len(),
{
    let pick = |finding: FindingView| data_row(scheme, finding);
    if findings.len() == 0 {
        assert(data_rows(scheme, findings) =~= Seq::empty());
        assert(run(scheme, findings)->Ok_0.1 =~= Seq::<Seq<Seq<char>>>::empty() + data_rows(
            scheme,
            findings,
        ));
    } else {
        let front = findings.drop_last();
        let last = findings.last();
        run_shape(scheme, front);
        let (mid, before) = run(scheme, front)->Ok_0;
        let (state, rows) = run(scheme, findings)->Ok_0;
        assert(forall|i: int| 0 <= i < front.len() ==> front[i] == findings[i]);
        assert(data_rows(scheme, findings) == data_rows(scheme, front) + (match pick(last) {
            Some(row) => seq![row],
            None => Seq::empty(),
        })) by {
            assert(findings.take(findings.len() as int) =~= findings);
            assert(findings.take(findings.len() - 1) =~= front);
            findings.lemma_filter_map_take_succ(pick, findings.len() - 1);
        }
        let emission = mid.step(last)->Ok_0.1;
        assert(rows == before + emission.rows);
        match last {
            FindingView::Header { .. } => {
                assert(emission.rows =~= Seq::empty());
            },
            FindingView::MatchedRow { .. } => {
                if mid.phase == Phase::HeaderSeen {
                    assert(data_rows(scheme, front) =~= Seq::empty());
                }
            },
        }
        assert(rows =~= (if state.phase == Phase::Writing {
            seq![header_row(scheme, state.canonical)]
        } else {
            Seq::empty()
        }) + data_rows(scheme, findings));
    }
}

/// The finished report of a run that has not failed: nothing where nothing
/// arrived; else the header row, made from the column names of the first
/// finding, and after it one row for each matched row, in the order of
/// arrival. Every header that arrived has those same column names.
pub proof fn report_is_header_then_rows(scheme: Provenance, findings: Seq<FindingView>)
    requires
        report(scheme, findings) is Ok,
    ensures
        findings.len() == 0 ==> report(scheme, findings) == Ok::<
            Seq<Seq<Seq<char>>>,
            AggregateErrorView,
        >(Seq::empty()),
        findings.len() > 0 ==> findings[0] is Header && report(scheme, findings) == Ok::<
            Seq<Seq<Seq<char>>>,
            AggregateErrorView,
        >(seq![header_row(scheme, findings[0]->field_names)] + data_rows(scheme, findings)),
        forall|i: int|
            0 <= i < findings.len() && (#[trigger] findings[i]) is Header
                ==> findings[i]->field_names == findings[0]->field_names,
{
    run_shape(scheme, findings);
    let (state, rows) = run(scheme, findings)->Ok_0;
    if findings.len() == 0 {
        assert(data_rows(scheme, findings) =~= Seq::empty());
        assert(rows + state.close().rows =~= Seq::empty());
    } else {
        if state.phase != Phase::Writing {
            assert(data_rows(scheme, findings) =~= Seq::empty());
        }
        assert(rows + state.close().rows =~= seq![header_row(scheme, findings[0]->field_names)]
            + data_rows(scheme, findings));
    }
}

/// The findings have one schema: what arrived first, if anything arrived,
/// is a header, and every header has the column names of that first one.
pub open spec fn one_schema(findings: Seq<FindingView>) -> bool {
    findings.len() > 0 ==> {
        &&& findings[0] is Header
        &&& forall|i: int|
            0 <= i < findings.len() && (#[trigger] findings[i]) is Header
                ==> findings[i]->field_names == findings[0]->field_names
    }
}

/// A run over findings with one schema does not fail.
proof fn run_succeeds(scheme: Provenance, findings: Seq<FindingView>)
    requires
        one_schema(findings),
    ensures
        run(scheme, findings) is Ok,
    decreases findings.len(),
{
    if findings.len() > 0 {
        let front = findings.drop_last();
        assert(forall|i: int| 0 <= i < front.len() ==> front[i] == findings[i]);
        run_succeeds(scheme, front);
        run_shape(scheme, front);
    }
}

/// A run succeeds on exactly the findings that have one schema.
pub proof fn report_succeeds_on_one_schema(scheme: Provenance, findings: Seq<FindingView>)
    ensures
        report(scheme, findings) is Ok <==> one_schema(findings),
{
    if report(scheme, findings) is Ok {
        report_is_header_then_rows(scheme, findings);
    }
    if one_schema(findings) {
        run_succeeds(scheme, findings);
    }
}

/// Two headers with different column names end the run with an error: no
/// report mixes two schemas.
pub proof fn mixed_schemas_abort(scheme: Provenance, findings: Seq<FindingView>, i: int, j: int)
    requires
        0 <= i < findings.len(),
        0 <= j < findings.len(),
        findings[i] is Header,
        findings[j] is Header,
        findings[i]->field_names != findings[j]->field_names,
    ensures
        report(scheme, findings) is Err,
{
    if report(scheme, findings) is Ok {
        report_is_header_then_rows(scheme, findings);
    }
}

/// The order in which findings arrive does not change what the report holds.
/// Take a run that succeeded, and let the same findings arrive in another
/// order, a header first: that run succeeds too, and the two reports hold
/// the same rows, each as often in one as in the other.
pub proof fn report_ignores_arrival_order(
    scheme: Provenance,
    a: Seq<FindingView>,
    b: Seq<FindingView>,
)
    requires
        a.to_multiset() == b.to_multiset(),
        report(scheme, a) is Ok,
        b.len() > 0 ==> b[0] is Header,
    ensures
        report(scheme, b) is Ok,
        report(scheme, a)->Ok_0.to_multiset() == report(scheme, b)->Ok_0.to_multiset(),
{
    let pick = |finding: FindingView| data_row(scheme, finding);
    report_is_header_then_rows(scheme, a);
    to_multiset_len(a);
    to_multiset_len(b);
    assert forall|i: int| 0 <= i < b.len() && (#[trigger] b[i]) is Header implies b[i]->field_names
        == a[0]->field_names by {
        assert(b.contains(b[i]));
        to_multiset_contains(b, b[i]);
        to_multiset_contains(a, b[i]);
        let k = choose|k: int| 0 <= k < a.len() && a[k] == b[i];
        assert(a[k] is Header);
    }
    assert(one_schema(b));
    report_succeeds_on_one_schema(scheme, b);
    report_is_header_then_rows(scheme, b);
    filter_map_keeps_same_items(a, b, pick);
    if a.len() > 0 {
        assert(b[0]->field_names == a[0]->field_names);
        let first = seq![header_row(scheme, a[0]->field_names)];
        lemma_multiset_commutative(first, data_rows(scheme, a));
        lemma_multiset_commutative(first, data_rows(scheme, b));
    }
}

} // verus!
