//! The scan aggregator end to end: output modes, minimum severity, run
//! status, the printer's records and separators, and determinism across
//! re-derivations.

use relint::args::SearchOutput;
use relint::lints::TomlLintFactory;
use relint::printer::IoPrinter;
use relint::scan::{run_file_one_thread, run_scan, run_types, scan_file, ActionStatus};
use relint::severity::ErrorLevel;
use relint::scan::{keep_entry, FileKind};
use relint::args::{is_stdin_requested, Action, SearchInput};
use relint::args::find_project_file_candidates;

fn two_rule_factory() -> TomlLintFactory {
    TomlLintFactory::new(
        "[relint.types]\nadd = [[\"rs\", \"*.rs\"]]\n\n[R1]\ntype = \"rs\"\npattern = \"TODO\"\nseverity = \"Warning\"\nmessage = \"no todos\"\n\n[R2]\ntype = \"md\"\npattern = \"TODO\"\nseverity = \"Info\"\nmessage = \"no todos md\"\n",
    )
    .unwrap()
}

fn candidate_files() -> Vec<(String, Vec<u8>)> {
    vec![
        ("a.rs".to_string(), b"x\nTODO here\n".to_vec()),
        ("b.md".to_string(), b"TODO\n".to_vec()),
        ("c.rs".to_string(), b"clean\n".to_vec()),
    ]
}

#[test]
fn message_mode_reports_only_qualifying_matches() {
    let lints = two_rule_factory().build_lints().unwrap();
    let mut printer = IoPrinter::new();
    let status = run_scan(
        &mut printer,
        &lints,
        ErrorLevel::Warning,
        SearchOutput::Message,
        &candidate_files(),
    );
    assert_eq!(status, ActionStatus::Success);
    assert_eq!(
        printer.output().as_slice(),
        b"a.rs:2: [Warning] R1: no todos\n".as_slice(),
    );
}

#[test]
fn matched_files_mode_lists_only_matching_files() {
    let lints = two_rule_factory().build_lints().unwrap();
    let mut printer = IoPrinter::new();
    let status = run_scan(
        &mut printer,
        &lints,
        ErrorLevel::Warning,
        SearchOutput::File { matched: true },
        &candidate_files(),
    );
    assert_eq!(status, ActionStatus::Success);
    assert_eq!(printer.output().as_slice(), b"a.rs\n".as_slice());
}

#[test]
fn unmatched_files_mode_lists_the_rest() {
    let lints = two_rule_factory().build_lints().unwrap();
    let mut printer = IoPrinter::new();
    let status = run_scan(
        &mut printer,
        &lints,
        ErrorLevel::Warning,
        SearchOutput::File { matched: false },
        &candidate_files(),
    );
    assert_eq!(status, ActionStatus::Success);
    assert_eq!(printer.output().as_slice(), b"b.md\nc.rs\n".as_slice());
}

#[test]
fn lower_minimum_severity_admits_more_rules() {
    let lints = two_rule_factory().build_lints().unwrap();
    let mut printer = IoPrinter::new();
    run_scan(
        &mut printer,
        &lints,
        ErrorLevel::Info,
        SearchOutput::Message,
        &candidate_files(),
    );
    assert_eq!(
        printer.output().as_slice(),
        b"a.rs:2: [Warning] R1: no todos\nb.md:1: [Info] R2: no todos md\n".as_slice(),
    );
}

#[test]
fn no_qualifying_match_is_a_failure() {
    let lints = two_rule_factory().build_lints().unwrap();
    let mut printer = IoPrinter::new();
    let files = vec![("c.rs".to_string(), b"clean\n".to_vec())];
    let status = run_scan(
        &mut printer,
        &lints,
        ErrorLevel::Warning,
        SearchOutput::Message,
        &files,
    );
    assert_eq!(status, ActionStatus::Failure);
    assert_eq!(printer.output().len(), 0);
}

#[test]
fn empty_rule_set_lists_every_candidate() {
    let factory = TomlLintFactory::new("").unwrap();
    let lints = factory.build_lints().unwrap();
    assert_eq!(lints.len(), 0);
    assert!(relint::scan::is_file_supported("anything.xyz", &lints));
    assert!(relint::scan::is_file_supported("a.rs", &lints));

    let mut printer = IoPrinter::new();
    let paths = vec!["a.rs".to_string(), "b.md".to_string()];
    let status = run_file_one_thread(&mut printer, &paths, &lints);
    assert_eq!(status, ActionStatus::Success);
    assert_eq!(printer.output().as_slice(), b"a.rs\nb.md\n".as_slice());
}

#[test]
fn null_separator_terminates_each_record() {
    let factory = TomlLintFactory::new("").unwrap();
    let lints = factory.build_lints().unwrap();
    let mut printer = IoPrinter::new().use_null(true);
    let paths = vec!["a.rs".to_string(), "b.md".to_string()];
    run_file_one_thread(&mut printer, &paths, &lints);
    assert_eq!(printer.output().as_slice(), b"a.rs\0b.md\0".as_slice());
}

#[test]
fn rederiving_the_rule_set_changes_no_decision() {
    let factory = two_rule_factory();
    let first = factory.build_lints().unwrap();
    let second = factory.build_lints().unwrap();
    let candidates = ["a.rs", "b.md", "c.rs", "other.txt", "dir/x.rs"];
    for path in candidates.iter() {
        assert_eq!(
            relint::scan::is_file_supported(path, &first),
            relint::scan::is_file_supported(path, &second),
        );
    }
    let mut p1 = IoPrinter::new();
    let mut p2 = IoPrinter::new();
    let s1 = run_scan(&mut p1, &first, ErrorLevel::Warning, SearchOutput::Message, &candidate_files());
    let s2 = run_scan(&mut p2, &second, ErrorLevel::Warning, SearchOutput::Message, &candidate_files());
    assert_eq!(s1, s2);
    assert_eq!(p1.output(), p2.output());
}

#[test]
fn scan_file_skips_ineligible_candidates() {
    let lints = two_rule_factory().build_lints().unwrap();
    let mut printer = IoPrinter::new();
    let qualified = scan_file(
        &mut printer,
        &lints,
        ErrorLevel::Warning,
        SearchOutput::Message,
        "notes.txt",
        b"TODO everywhere",
    );
    assert!(!qualified);
    assert_eq!(printer.output().len(), 0);
}

#[test]
fn quiet_suppresses_records_but_not_status() {
    let lints = two_rule_factory().build_lints().unwrap();
    let mut printer = IoPrinter::new().quiet(true);
    let status = run_scan(
        &mut printer,
        &lints,
        ErrorLevel::Warning,
        SearchOutput::Message,
        &candidate_files(),
    );
    assert_eq!(status, ActionStatus::Success);
    assert_eq!(printer.output().len(), 0);
}

#[test]
fn printer_strips_one_leading_dot_slash() {
    let mut printer = IoPrinter::new();
    printer.path("./src/main.rs");
    printer.path("src/lib.rs");
    assert_eq!(printer.output().as_slice(), b"src/main.rs\nsrc/lib.rs\n".as_slice());
}

#[test]
fn type_listing_emits_name_and_globs() {
    let mut b = relint::types::TypesBuilder::new();
    b.add("foo", "*.foo").unwrap();
    b.add("bar", "*.bar").unwrap();
    let mut printer = IoPrinter::new();
    let status = run_types(&mut printer, b.definitions());
    assert_eq!(status, ActionStatus::Success);
    assert_eq!(printer.output().as_slice(), b"foo: *.foo\nbar: *.bar\n".as_slice());
}

#[test]
fn type_listing_of_nothing_is_a_failure() {
    let b = relint::types::TypesBuilder::new();
    let mut printer = IoPrinter::new();
    let status = run_types(&mut printer, b.definitions());
    assert_eq!(status, ActionStatus::Failure);
    assert_eq!(printer.output().len(), 0);
}

#[test]
fn keep_entry_decides_like_the_walker_filter() {
    assert!(keep_entry(3, None));
    assert!(keep_entry(0, Some(FileKind::File)));
    assert!(keep_entry(0, Some(FileKind::Other)));
    assert!(!keep_entry(0, Some(FileKind::Dir)));
    assert!(keep_entry(2, Some(FileKind::File)));
    assert!(!keep_entry(2, Some(FileKind::Dir)));
    assert!(!keep_entry(2, Some(FileKind::Other)));
}

#[test]
fn stdin_is_a_single_dash() {
    assert_eq!(is_stdin_requested(&vec!["-".to_string()]).unwrap(), true);
    assert_eq!(is_stdin_requested(&vec!["a".to_string()]).unwrap(), false);
    assert_eq!(
        is_stdin_requested(&vec!["a".to_string(), "b".to_string()]).unwrap(),
        false,
    );
    let e = is_stdin_requested(&vec!["a".to_string(), "-".to_string()]).unwrap_err();
    match e {
        relint::errors::ArgumentError::Conflict { message } => {
            assert_eq!(message, "Cannot mix stdin (-) with file paths");
        },
    }
}

#[test]
fn stdin_conflicts_with_listing_files() {
    let e = Action::check_search(&SearchInput::StdIn, &SearchOutput::ListFiles).unwrap_err();
    match e {
        relint::errors::ArgumentError::Conflict { message } => {
            assert_eq!(message, "Cannot mix stdin (-) with --files");
        },
    }
    assert!(Action::check_search(&SearchInput::StdIn, &SearchOutput::Message).is_ok());
}

#[test]
fn output_mode_flags_are_mutually_exclusive_in_order() {
    assert_eq!(SearchOutput::from_flags(true, false, false), SearchOutput::ListFiles);
    assert_eq!(SearchOutput::from_flags(false, true, false), SearchOutput::File { matched: true });
    assert_eq!(SearchOutput::from_flags(false, false, true), SearchOutput::File { matched: false });
    assert_eq!(SearchOutput::from_flags(false, false, false), SearchOutput::Message);
}

#[test]
fn number_validation_matches_integer_parsing() {
    assert_eq!(relint::args::parse_usize("123").unwrap(), 123);
    assert_eq!(relint::args::parse_usize("+7").unwrap(), 7);
    assert_eq!(relint::args::parse_usize("0").unwrap(), 0);
    assert!(relint::args::validate_number("42".to_string()).is_ok());
    assert_eq!(
        relint::args::validate_number("".to_string()).unwrap_err(),
        "cannot parse integer from empty string",
    );
    assert_eq!(
        relint::args::validate_number("12a".to_string()).unwrap_err(),
        "invalid digit found in string",
    );
    assert_eq!(
        relint::args::validate_number("99999999999999999999999".to_string()).unwrap_err(),
        "number too large to fit in target type",
    );
    assert_eq!(relint::args::validate_number("+".to_string()).unwrap_err(), "invalid digit found in string");
}

#[test]
fn project_file_search_walks_up_to_the_root() {
    assert_eq!(
        find_project_file_candidates("/a/b", "relint.toml"),
        vec![
            "/a/b/relint.toml".to_string(),
            "/a/relint.toml".to_string(),
            "/relint.toml".to_string(),
        ],
    );
    assert_eq!(
        find_project_file_candidates("a", "t.toml"),
        vec!["a/t.toml".to_string(), "t.toml".to_string()],
    );
}

#[test]
fn listing_mode_succeeds_even_with_nothing_to_list() {
    let lints = two_rule_factory().build_lints().unwrap();
    let mut printer = IoPrinter::new();
    let files: Vec<(String, Vec<u8>)> = Vec::new();
    let status = run_scan(&mut printer, &lints, ErrorLevel::Warning, SearchOutput::ListFiles, &files);
    assert_eq!(status, ActionStatus::Success);
}

#[test]
fn pattern_matching_is_a_real_regex() {
    let factory = TomlLintFactory::new(
        "[r]\npattern = \"^use std::\"\nmessage = \"m\"\n",
    )
    .unwrap();
    let lints = factory.build_lints().unwrap();
    let mut printer = IoPrinter::new();
    let files = vec![
        ("a.rs".to_string(), b"use std::io;\n".to_vec()),
        ("b.rs".to_string(), b"  use std::io;\n".to_vec()),
    ];
    let status = run_scan(
        &mut printer,
        &lints,
        ErrorLevel::Error,
        SearchOutput::File { matched: true },
        &files,
    );
    assert_eq!(status, ActionStatus::Success);
    assert_eq!(printer.output().as_slice(), b"a.rs\n".as_slice());
}

#[test]
fn line_numbers_count_from_one_and_grow() {
    let factory = TomlLintFactory::new("[r]\npattern = \"hit\"\nmessage = \"m\"\n").unwrap();
    let lints = factory.build_lints().unwrap();
    let mut printer = IoPrinter::new();
    let mut content = Vec::new();
    for i in 0..12 {
        if i == 10 {
            content.extend_from_slice(b"a hit\n");
        } else {
            content.extend_from_slice(b"nothing\n");
        }
    }
    content.extend_from_slice(b"trailing hit without newline");
    let files = vec![("f.txt".to_string(), content)];
    run_scan(&mut printer, &lints, ErrorLevel::Error, SearchOutput::Message, &files);
    assert_eq!(
        printer.output().as_slice(),
        b"f.txt:11: [Error] r: m\nf.txt:13: [Error] r: m\n".as_slice(),
    );
}

#[test]
fn empty_content_has_no_lines_to_match() {
    let factory = TomlLintFactory::new("[r]\npattern = \".*\"\nmessage = \"m\"\n").unwrap();
    let lints = factory.build_lints().unwrap();
    let mut printer = IoPrinter::new();
    let files = vec![("empty.txt".to_string(), Vec::new())];
    let status = run_scan(&mut printer, &lints, ErrorLevel::Error, SearchOutput::Message, &files);
    assert_eq!(status, ActionStatus::Failure);
    assert_eq!(printer.output().len(), 0);
}

#[test]
fn number_parsing_honors_the_usize_boundary() {
    let max = usize::MAX.to_string();
    assert_eq!(relint::args::parse_usize(&max).unwrap(), usize::MAX);
    let over = format!("{}0", max);
    assert_eq!(
        relint::args::parse_usize(&over).unwrap_err(),
        "number too large to fit in target type",
    );
}

#[test]
fn project_file_search_from_the_root_itself() {
    assert_eq!(
        relint::args::find_project_file_candidates("/", "t.toml"),
        vec!["/t.toml".to_string()],
    );
}
