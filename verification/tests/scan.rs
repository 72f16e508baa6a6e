use null_finder::finding::Finding;
use null_finder::scan::{
    decode_record, find_column, scan_table, DefectPredicate, EntryScan, Record, ScanConfig,
};
use null_finder::select::Selection;

fn names(items: &[&str]) -> Vec<String> {
    items.iter().map(|s| s.to_string()).collect()
}

fn record(cells: &[&str]) -> Record {
    Record { cells: cells.iter().map(|c| c.as_bytes().to_vec()).collect() }
}

fn raw(cells: &[&[u8]]) -> Record {
    Record { cells: cells.iter().map(|c| c.to_vec()).collect() }
}

fn fixed(target: &str, predicate: DefectPredicate) -> ScanConfig {
    ScanConfig {
        selection: Selection::Fixed("data.csv".to_string()),
        target_column: target.to_string(),
        predicate,
    }
}

fn by_pattern(target: &str, predicate: DefectPredicate) -> ScanConfig {
    let selection = match Selection::pattern(r"\.csv$") {
        Ok(selection) => selection,
        Err(_) => panic!("the pattern is a regular expression"),
    };
    ScanConfig { selection, target_column: target.to_string(), predicate }
}

fn header(origin: &str, identity: &str, fields: &[&str]) -> Finding {
    Finding::Header {
        origin_file: origin.to_string(),
        entry_identity: identity.to_string(),
        field_names: names(fields),
    }
}

fn matched(origin: &str, identity: &str, row_index: usize, fields: &[&str]) -> Finding {
    Finding::MatchedRow {
        origin_file: origin.to_string(),
        entry_identity: identity.to_string(),
        row_index,
        field_values: names(fields),
    }
}

#[test]
fn starts_with_sentinel_matches_one_row() {
    let config = fixed("b", DefectPredicate::StartsWith('2'));
    let findings = scan_table(
        &config,
        "a.zip",
        "data.csv",
        &names(&["a", "b"]),
        &vec![record(&["1", "2abc"]), record(&["2", "xyz"])],
    );
    let rows: Vec<&Finding> =
        findings.iter().filter(|f| matches!(f, Finding::MatchedRow { .. })).collect();
    assert_eq!(rows.len(), 1);
    assert_eq!(*rows[0], matched("a.zip", "a.zip", 0, &["1", "2abc"]));
    assert_eq!(
        findings,
        vec![header("a.zip", "a.zip", &["a", "b"]), matched("a.zip", "a.zip", 0, &["1", "2abc"])]
    );
}

#[test]
fn contains_byte_matches_anywhere_in_the_value() {
    let config = fixed("Key", DefectPredicate::ContainsByte(0));
    let findings = scan_table(
        &config,
        "a.zip",
        "data.csv",
        &names(&["Key", "Value"]),
        &vec![
            raw(&[b"\0start", b"v0"]),
            raw(&[b"clean", b"\0"]),
            raw(&[b"mid\0dle", b"v2"]),
            raw(&[b"end\0", b"v3"]),
            raw(&[b"", b"v4"]),
        ],
    );
    assert_eq!(
        findings,
        vec![
            header("a.zip", "a.zip", &["Key", "Value"]),
            matched("a.zip", "a.zip", 0, &["\0start", "v0"]),
            matched("a.zip", "a.zip", 2, &["mid\0dle", "v2"]),
            matched("a.zip", "a.zip", 3, &["end\0", "v3"]),
        ]
    );
}

#[test]
fn header_is_reported_even_when_no_row_matches() {
    let config = fixed("b", DefectPredicate::ContainsByte(0));
    let findings = scan_table(
        &config,
        "a.zip",
        "data.csv",
        &names(&["a", "b"]),
        &vec![record(&["1", "x"]), record(&["2", "y"])],
    );
    assert_eq!(findings, vec![header("a.zip", "a.zip", &["a", "b"])]);
}

#[test]
fn header_is_reported_for_an_entry_without_rows() {
    let config = fixed("b", DefectPredicate::ContainsByte(0));
    let findings = scan_table(&config, "a.zip", "data.csv", &names(&["a", "b"]), &Vec::new());
    assert_eq!(findings, vec![header("a.zip", "a.zip", &["a", "b"])]);
}

#[test]
fn entry_without_target_column_gives_nothing() {
    let config = fixed("c", DefectPredicate::StartsWith('2'));
    let findings = scan_table(
        &config,
        "a.zip",
        "data.csv",
        &names(&["a", "b"]),
        &vec![record(&["2", "2"]), record(&["2", "2"])],
    );
    assert!(findings.is_empty());
}

#[test]
fn entry_without_header_gives_nothing() {
    let config = fixed("a", DefectPredicate::StartsWith('2'));
    let findings = scan_table(&config, "a.zip", "data.csv", &Vec::new(), &vec![record(&["2"])]);
    assert!(findings.is_empty());
}

#[test]
fn target_column_is_found_without_case() {
    assert_eq!(find_column(&names(&["id", "KEY", "value"]), "key"), Some(1));
    assert_eq!(find_column(&names(&["id", "key", "value"]), "Key"), Some(1));
    assert_eq!(find_column(&names(&["Key"]), "Key"), Some(0));
}

#[test]
fn first_of_several_columns_with_the_name_is_taken() {
    assert_eq!(find_column(&names(&["a", "key", "KEY", "Key"]), "kEy"), Some(1));
}

#[test]
fn absent_column_is_not_found() {
    assert_eq!(find_column(&names(&["a", "b"]), "c"), None);
    assert_eq!(find_column(&names(&["keys", "ke", " key"]), "key"), None);
    assert_eq!(find_column(&Vec::new(), "key"), None);
    assert_eq!(find_column(&names(&["a", "b"]), ""), None);
}

#[test]
fn empty_column_name_can_be_the_target() {
    assert_eq!(find_column(&names(&["a", "", "b"]), ""), Some(1));
}

#[test]
fn row_index_counts_data_rows_from_zero() {
    let config = fixed("v", DefectPredicate::StartsWith('!'));
    let findings = scan_table(
        &config,
        "a.zip",
        "data.csv",
        &names(&["v"]),
        &vec![record(&["a"]), record(&["b"]), record(&["!c"]), record(&["d"]), record(&["!e"])],
    );
    assert_eq!(
        findings,
        vec![
            header("a.zip", "a.zip", &["v"]),
            matched("a.zip", "a.zip", 2, &["!c"]),
            matched("a.zip", "a.zip", 4, &["!e"]),
        ]
    );
}

#[test]
fn short_row_is_passed_over_but_counted() {
    let config = fixed("b", DefectPredicate::StartsWith('x'));
    let findings = scan_table(
        &config,
        "a.zip",
        "data.csv",
        &names(&["a", "b"]),
        &vec![record(&["x"]), record(&[]), record(&["1", "x2"])],
    );
    assert_eq!(
        findings,
        vec![header("a.zip", "a.zip", &["a", "b"]), matched("a.zip", "a.zip", 2, &["1", "x2"])]
    );
}

#[test]
fn row_that_is_not_text_is_passed_over_but_counted() {
    let config = fixed("a", DefectPredicate::ContainsByte(0));
    let findings = scan_table(
        &config,
        "a.zip",
        "data.csv",
        &names(&["a", "b"]),
        &vec![raw(&[b"\0", &[0xff, 0xfe]]), raw(&[&[0xff, 0], b"ok"]), raw(&[b"\0", b"ok"])],
    );
    assert_eq!(
        findings,
        vec![header("a.zip", "a.zip", &["a", "b"]), matched("a.zip", "a.zip", 2, &["\0", "ok"])]
    );
}

#[test]
fn long_row_keeps_all_its_values() {
    let config = fixed("a", DefectPredicate::StartsWith('#'));
    let findings = scan_table(
        &config,
        "a.zip",
        "data.csv",
        &names(&["a"]),
        &vec![record(&["#1", "extra", "more"])],
    );
    assert_eq!(
        findings,
        vec![header("a.zip", "a.zip", &["a"]), matched("a.zip", "a.zip", 0, &["#1", "extra", "more"])]
    );
}

#[test]
fn only_the_target_column_is_tested() {
    let config = fixed("b", DefectPredicate::ContainsByte(b'!'));
    let findings = scan_table(
        &config,
        "a.zip",
        "data.csv",
        &names(&["a", "b", "c"]),
        &vec![record(&["!", "ok", "!"]), record(&["ok", "a!b", "ok"])],
    );
    assert_eq!(
        findings,
        vec![
            header("a.zip", "a.zip", &["a", "b", "c"]),
            matched("a.zip", "a.zip", 1, &["ok", "a!b", "ok"]),
        ]
    );
}

#[test]
fn pattern_mode_names_archive_and_entry() {
    let config = by_pattern("k", DefectPredicate::ContainsByte(0));
    let findings = scan_table(
        &config,
        "in/a.zip",
        "x/reg.csv",
        &names(&["k"]),
        &vec![raw(&[b"ok"]), raw(&[b"\0"])],
    );
    assert_eq!(
        findings,
        vec![
            header("in/a.zip", "in/a.zip:x/reg.csv", &["k"]),
            matched("in/a.zip", "in/a.zip:x/reg.csv", 1, &["\0"]),
        ]
    );
}

#[test]
fn entries_of_one_archive_are_scanned_independently() {
    let config = by_pattern("k", DefectPredicate::StartsWith('0'));
    let first = scan_table(&config, "a.zip", "one.csv", &names(&["k"]), &vec![record(&["0"])]);
    let second =
        scan_table(&config, "a.zip", "two.csv", &names(&["j", "K"]), &vec![record(&["1", "0"])]);
    let third = scan_table(&config, "a.zip", "three.csv", &names(&["j"]), &vec![record(&["0"])]);
    assert_eq!(
        first,
        vec![header("a.zip", "a.zip:one.csv", &["k"]), matched("a.zip", "a.zip:one.csv", 0, &["0"])]
    );
    assert_eq!(
        second,
        vec![
            header("a.zip", "a.zip:two.csv", &["j", "K"]),
            matched("a.zip", "a.zip:two.csv", 0, &["1", "0"]),
        ]
    );
    assert!(third.is_empty());
}

#[test]
fn contains_byte_tests_raw_bytes() {
    let p = DefectPredicate::ContainsByte(0);
    assert!(p.test(b"\0"));
    assert!(p.test(b"abc\0"));
    assert!(p.test(&[0xff, 0x00, 0xfe]));
    assert!(!p.test(b""));
    assert!(!p.test(b"abc"));
    assert!(!p.test(b"0"));
    let q = DefectPredicate::ContainsByte(b'z');
    assert!(q.test(b"abcz"));
    assert!(q.test(b"zabc"));
    assert!(!q.test(b"abcZ"));
}

#[test]
fn contains_byte_finds_the_byte_in_long_values() {
    let p = DefectPredicate::ContainsByte(7);
    for position in [0usize, 1, 15, 16, 31, 32, 63, 64, 200] {
        let mut value = vec![b'x'; 201];
        assert!(!p.test(&value));
        value[position] = 7;
        assert!(p.test(&value));
    }
}

#[test]
fn starts_with_tests_the_first_character() {
    let p = DefectPredicate::StartsWith('2');
    assert!(p.test(b"2"));
    assert!(p.test(b"2abc"));
    assert!(!p.test(b""));
    assert!(!p.test(b"12"));
    assert!(!p.test(b" 2"));
    assert!(!p.test(b"xyz"));
}

#[test]
fn starts_with_takes_whole_characters() {
    let p = DefectPredicate::StartsWith('\u{e9}');
    assert!(p.test("\u{e9}t\u{e9}".as_bytes()));
    assert!(!p.test("e\u{301}".as_bytes()));
    assert!(!p.test("\u{e8}".as_bytes()));
    assert!(!p.test(&[0xc3]));
    let nul = DefectPredicate::StartsWith('\0');
    assert!(nul.test(b"\0rest"));
    assert!(!nul.test(b"rest\0"));
}

#[test]
fn starts_with_is_false_for_what_is_not_text() {
    let p = DefectPredicate::StartsWith('2');
    assert!(!p.test(&[b'2', 0xff]));
    assert!(!p.test(&[0xff, b'2']));
}

#[test]
fn decode_record_reads_every_cell() {
    assert_eq!(decode_record(&record(&["a", "", "\u{20ac}"])), Some(names(&["a", "", "\u{20ac}"])));
    assert_eq!(decode_record(&record(&[])), Some(Vec::new()));
}

#[test]
fn decode_record_fails_on_one_bad_cell() {
    assert_eq!(decode_record(&raw(&[b"a", &[0x80], b"c"])), None);
    assert_eq!(decode_record(&raw(&[b"a", b"b", &[0xe2, 0x82]])), None);
}

#[test]
fn begin_gives_state_and_header() {
    let config = by_pattern("B", DefectPredicate::StartsWith('2'));
    match EntryScan::begin(&config, "a.zip", "d.csv", &names(&["a", "b"])) {
        None => panic!("the header has the target column"),
        Some((scan, first)) => {
            assert_eq!(
                scan,
                EntryScan {
                    origin_file: "a.zip".to_string(),
                    entry_identity: "a.zip:d.csv".to_string(),
                    predicate: DefectPredicate::StartsWith('2'),
                    column: 1,
                    next_row: 0,
                }
            );
            assert_eq!(first, header("a.zip", "a.zip:d.csv", &["a", "b"]));
        }
    }
}

#[test]
fn begin_passes_over_entry_without_target_column() {
    let config = fixed("key", DefectPredicate::ContainsByte(0));
    assert!(EntryScan::begin(&config, "a.zip", "d.csv", &names(&["a", "b"])).is_none());
    assert!(EntryScan::begin(&config, "a.zip", "d.csv", &Vec::new()).is_none());
}

#[test]
fn rows_taken_one_by_one_give_what_the_table_gives() {
    let config = fixed("b", DefectPredicate::StartsWith('2'));
    let fields = names(&["a", "b"]);
    let rows = vec![
        record(&["1", "2abc"]),
        record(&["2", "xyz"]),
        record(&["3"]),
        raw(&[b"4", &[b'2', 0xff]]),
        record(&["5", "2"]),
    ];
    let mut streamed: Vec<Finding> = Vec::new();
    match EntryScan::begin(&config, "a.zip", "data.csv", &fields) {
        None => panic!("the header has the target column"),
        Some((mut scan, first)) => {
            streamed.push(first);
            for (i, row) in rows.iter().enumerate() {
                assert_eq!(scan.next_row, i);
                if let Some(found) = scan.on_row(row) {
                    streamed.push(found);
                }
            }
            assert_eq!(scan.next_row, rows.len());
        }
    }
    assert_eq!(streamed, scan_table(&config, "a.zip", "data.csv", &fields, &rows));
    assert_eq!(
        streamed,
        vec![
            header("a.zip", "a.zip", &["a", "b"]),
            matched("a.zip", "a.zip", 0, &["1", "2abc"]),
            matched("a.zip", "a.zip", 4, &["5", "2"]),
        ]
    );
}

#[test]
fn scanning_twice_gives_the_same_findings() {
    let config = by_pattern("k", DefectPredicate::ContainsByte(b';'));
    let fields = names(&["k", "v"]);
    let rows = vec![record(&["a;b", "1"]), record(&["ab", ";"]), record(&[";", ""])];
    let once = scan_table(&config, "z.zip", "t.csv", &fields, &rows);
    let again = scan_table(&config, "z.zip", "t.csv", &fields, &rows);
    assert_eq!(once, again);
    assert_eq!(once.len(), 3);
}

#[test]
fn sentinel_byte_is_read_from_one_byte_of_text() {
    assert_eq!(DefectPredicate::contains("\0"), Ok(DefectPredicate::ContainsByte(0)));
    assert_eq!(DefectPredicate::contains("2"), Ok(DefectPredicate::ContainsByte(b'2')));
}

#[test]
fn sentinel_byte_must_be_one_byte() {
    match DefectPredicate::contains("") {
        Ok(_) => panic!("no byte was given"),
        Err(bad) => assert_eq!(bad.text, ""),
    }
    match DefectPredicate::contains("ab") {
        Ok(_) => panic!("two bytes were given"),
        Err(bad) => assert_eq!(bad.text, "ab"),
    }
    match DefectPredicate::contains("\u{e9}") {
        Ok(_) => panic!("the character takes two bytes"),
        Err(bad) => assert_eq!(bad.text, "\u{e9}"),
    }
}

#[test]
fn sentinel_character_is_read_from_one_character_of_text() {
    assert_eq!(DefectPredicate::starts_with("2"), Ok(DefectPredicate::StartsWith('2')));
    assert_eq!(DefectPredicate::starts_with("\0"), Ok(DefectPredicate::StartsWith('\0')));
    assert_eq!(DefectPredicate::starts_with("\u{20ac}"), Ok(DefectPredicate::StartsWith('\u{20ac}')));
}

#[test]
fn sentinel_character_must_be_one_character() {
    match DefectPredicate::starts_with("") {
        Ok(_) => panic!("no character was given"),
        Err(bad) => assert_eq!(bad.text, ""),
    }
    match DefectPredicate::starts_with("22") {
        Ok(_) => panic!("two characters were given"),
        Err(bad) => assert_eq!(bad.text, "22"),
    }
    match DefectPredicate::starts_with("e\u{301}") {
        Ok(_) => panic!("two characters were given"),
        Err(bad) => assert_eq!(bad.text, "e\u{301}"),
    }
}
