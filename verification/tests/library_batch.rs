//! Tests of the library merge manager, the batch accounting and the run
//! configuration.

use e2k::batch::{apply_outcomes, BatchStats};
use e2k::cli::{collect_ids, trim_line, Cli, KicadVersion};
use e2k::error::AppError;
use e2k::library::{merge_library_text, parse_library, render_library, SymbolLib};

fn base_cli() -> Cli {
    Cli {
        lcsc_id: Some(String::from("C2040")),
        batch: None,
        symbol: true,
        footprint: false,
        model_3d: false,
        full: false,
        output: String::from("."),
        overwrite: false,
        v5: false,
        project_relative: false,
        debug: false,
        continue_on_error: false,
        parallel: 4,
    }
}

fn count_key(lib: &SymbolLib, key: &str) -> usize {
    lib.records.iter().filter(|r| r.key == key).count()
}

#[test]
fn add_or_update_overwrite_is_idempotent() {
    let mut lib = SymbolLib::new();
    let key = String::from("Part_C1");
    lib.add_or_update(&key, &String::from("DEF Part_C1 U 0\nENDDEF\n"), true);
    lib.add_or_update(&key, &String::from("DEF Part_C1 U 1\nENDDEF\n"), true);
    assert_eq!(count_key(&lib, "Part_C1"), 1);
    assert_eq!(lib.records[0].payload, "DEF Part_C1 U 1\nENDDEF\n");
}

#[test]
fn add_or_update_without_overwrite_preserves_payload() {
    let mut lib = SymbolLib::new();
    let key = String::from("Part_C1");
    let original = String::from("DEF Part_C1 U 0\nENDDEF\n");
    lib.add_or_update(&key, &original, true);
    lib.add_or_update(&key, &String::from("DEF Part_C1 U 9\nENDDEF\n"), false);
    assert_eq!(lib.records.len(), 1);
    assert_eq!(lib.records[0].payload, original);
}

#[test]
fn add_or_update_appends_new_keys_in_order() {
    let mut lib = SymbolLib::new();
    lib.add_or_update(&String::from("A"), &String::from("DEF A x\n"), false);
    lib.add_or_update(&String::from("B"), &String::from("DEF B x\n"), false);
    assert_eq!(lib.records.len(), 2);
    assert_eq!(lib.records[0].key, "A");
    assert_eq!(lib.records[1].key, "B");
}

#[test]
fn library_text_round_trip_v5() {
    let mut lib = SymbolLib::new();
    lib.add_or_update(&String::from("P1"), &String::from("DEF P1 U 0 40\nX 1\nENDDEF\n"), true);
    lib.add_or_update(&String::from("P2"), &String::from("DEF P2 U 0 40\nENDDEF\n"), true);
    let text = render_library(&lib, KicadVersion::V5);
    assert!(text.starts_with("EESchema-LIBRARY Version 2.4\n"));
    let parsed = parse_library(&text, KicadVersion::V5);
    assert_eq!(parsed.records.len(), 2);
    assert_eq!(parsed.records[0].key, "P1");
    assert_eq!(parsed.records[0].payload, "DEF P1 U 0 40\nX 1\nENDDEF\n");
    assert_eq!(parsed.records[1].key, "P2");
}

#[test]
fn library_text_round_trip_v6() {
    let mut lib = SymbolLib::new();
    lib.add_or_update(
        &String::from("P1"),
        &String::from("(symbol \"P1\" (reference \"U\")\n)\n"),
        true,
    );
    let text = render_library(&lib, KicadVersion::V6);
    let parsed = parse_library(&text, KicadVersion::V6);
    assert_eq!(parsed.records.len(), 1);
    assert_eq!(parsed.records[0].key, "P1");
    assert_eq!(parsed.records[0].payload, "(symbol \"P1\" (reference \"U\")\n)\n");
}

#[test]
fn merge_text_replaces_only_the_matching_record() {
    let mut lib = SymbolLib::new();
    lib.add_or_update(&String::from("A"), &String::from("DEF A U 0\nENDDEF\n"), true);
    lib.add_or_update(&String::from("B"), &String::from("DEF B U 0\nENDDEF\n"), true);
    let text = render_library(&lib, KicadVersion::V5);
    let merged = merge_library_text(
        &text,
        KicadVersion::V5,
        &String::from("A"),
        &String::from("DEF A U 7\nENDDEF\n"),
        true,
    );
    let parsed = parse_library(&merged, KicadVersion::V5);
    assert_eq!(parsed.records.len(), 2);
    assert_eq!(parsed.records[0].payload, "DEF A U 7\nENDDEF\n");
    assert_eq!(parsed.records[1].payload, "DEF B U 0\nENDDEF\n");
}

#[test]
fn merge_into_an_empty_file_creates_header_and_record() {
    let merged = merge_library_text(
        "",
        KicadVersion::V6,
        &String::from("New_C1"),
        &String::from("(symbol \"New_C1\"\n)\n"),
        false,
    );
    assert!(merged.starts_with("(kicad_symbol_lib "));
    let parsed = parse_library(&merged, KicadVersion::V6);
    assert_eq!(parsed.records.len(), 1);
    assert_eq!(parsed.records[0].key, "New_C1");
}

#[test]
fn exported_symbol_records_carry_their_key_through_the_merge() {
    let meta = e2k::geom::ComponentMeta {
        title: String::from("Op Amp"),
        manufacturer: String::from("M"),
        datasheet: String::from("d"),
        lcsc_id: String::from("C9"),
        jlc_id: String::from("J9"),
        model_3d: None,
    };
    let sym = e2k::geom::SymbolModel {
        prefix: String::from("U"),
        pins: Vec::new(),
        rectangles: Vec::new(),
        circles: Vec::new(),
        ellipses: Vec::new(),
        arcs: Vec::new(),
        polylines: Vec::new(),
        polygons: Vec::new(),
        paths: Vec::new(),
    };
    let b = e2k::geom::BBox { x: 0, y: 0 };
    for version in [KicadVersion::V5, KicadVersion::V6] {
        let key = e2k::naming::component_key(&meta.title, "C9", true);
        assert_eq!(key, "Op_Amp_C9");
        let (_, record) = e2k::pipeline::convert_symbol(&meta, &sym, b, &key, &key, version);
        let merged = merge_library_text("", version, &key, &record, true);
        let parsed = parse_library(&merged, version);
        assert_eq!(parsed.records.len(), 1);
        assert_eq!(parsed.records[0].key, "Op_Amp_C9");
        assert_eq!(parsed.records[0].payload, record);
    }
}

#[test]
fn batch_report_counts_and_failed_list() {
    let ids: Vec<String> =
        ["C1", "C2", "C3", "C4", "C5"].iter().map(|s| s.to_string()).collect();
    let outcomes = vec![true, false, true, false, true];
    for parallel in [false, true] {
        let r = apply_outcomes(&ids, &outcomes, true, parallel);
        assert_eq!(r.stats.success, 3);
        assert_eq!(r.stats.failed, 2);
        assert_eq!(r.stats.failed_ids, vec!["C2".to_string(), "C4".to_string()]);
        assert!(!r.aborted);
    }
}

#[test]
fn sequential_run_aborts_on_first_failure() {
    let ids: Vec<String> = ["C1", "C2", "C3"].iter().map(|s| s.to_string()).collect();
    let outcomes = vec![true, false, true];
    let r = apply_outcomes(&ids, &outcomes, false, false);
    assert!(r.aborted);
    assert_eq!(r.stats.success, 1);
    assert_eq!(r.stats.failed, 1);
    assert_eq!(r.stats.failed_ids, vec!["C2".to_string()]);
    // the same outcomes in parallel mode run to completion
    let rp = apply_outcomes(&ids, &outcomes, false, true);
    assert!(!rp.aborted);
    assert_eq!(rp.stats.success, 2);
}

#[test]
fn batch_stats_record_steps() {
    let mut stats = BatchStats::new();
    stats.record_success();
    stats.record_failure(String::from("C9"));
    assert_eq!(stats.success, 1);
    assert_eq!(stats.failed, 1);
    assert_eq!(stats.failed_ids, vec!["C9".to_string()]);
}

#[test]
fn validate_requires_a_source() {
    let mut cli = base_cli();
    cli.lcsc_id = None;
    match cli.validate() {
        Err(AppError::Other(_)) => {}
        other => panic!("expected a missing-source error, got {:?}", other),
    }
}

#[test]
fn validate_rejects_malformed_identifiers() {
    let mut cli = base_cli();
    cli.lcsc_id = Some(String::from("X1"));
    match cli.validate() {
        Err(AppError::InvalidIdentifier(id)) => assert_eq!(id, "X1"),
        other => panic!("expected an identifier error, got {:?}", other),
    }
    cli.lcsc_id = Some(String::from("C"));
    assert!(cli.validate().is_err());
}

#[test]
fn validate_requires_an_operation() {
    let mut cli = base_cli();
    cli.symbol = false;
    match cli.validate() {
        Err(AppError::Other(_)) => {}
        other => panic!("expected a missing-operation error, got {:?}", other),
    }
    cli.full = true;
    assert!(cli.validate().is_ok());
}

#[test]
fn kicad_version_follows_the_flag() {
    let mut cli = base_cli();
    assert_eq!(cli.kicad_version(), KicadVersion::V6);
    cli.v5 = true;
    assert_eq!(cli.kicad_version(), KicadVersion::V5);
}

#[test]
fn collect_ids_filters_lines() {
    let lines: Vec<String> = ["C123", "  C456  ", "", "# comment", "x999", "C7"]
        .iter()
        .map(|s| s.to_string())
        .collect();
    let ids = collect_ids(&lines).expect("some identifiers survive");
    assert_eq!(ids, vec!["C123".to_string(), "C456".to_string(), "C7".to_string()]);
}

#[test]
fn collect_ids_fails_when_nothing_survives() {
    let lines: Vec<String> = ["# only", "  ", "zzz"].iter().map(|s| s.to_string()).collect();
    match collect_ids(&lines) {
        Err(AppError::Other(_)) => {}
        other => panic!("expected an empty-batch error, got {:?}", other),
    }
}

#[test]
fn trim_line_strips_edges() {
    assert_eq!(trim_line("  a b \r\n"), "a b");
    assert_eq!(trim_line("\t\t"), "");
    assert_eq!(trim_line("x"), "x");
    // whitespace beyond ASCII trims too
    assert_eq!(trim_line("\u{a0}C12\u{2003}"), "C12");
}

#[test]
fn error_labels_name_the_class() {
    assert_eq!(AppError::FetchFailure(String::new()).label(), "fetch failure");
    assert_eq!(AppError::MergeFailure(String::new()).label(), "merge failure");
    assert_eq!(AppError::ParseFailure(String::new()).label(), "parse failure");
}
