use irig106_tmats::error::TmatsError;
use irig106_tmats::parse::{parse, parse_with_options, ParseMode, ParseOptions};
use irig106_tmats::query::diff;
use irig106_tmats::repair::{repair, repair_dry_run, RepairActionType, RepairOptions};
use irig106_tmats::serial::{serialize_to_vec, serialize_with_options, OutputFormat, SerializeOptions};
use irig106_tmats::validate::{validate_with_options, ValidationContext, ValidationProfile};
use irig106_tmats::xml::{ascii_to_xml, parse_xml, serialize_xml_to_vec};

fn text(b: &[u8]) -> String {
    String::from_utf8_lossy(b).to_string()
}

#[test]
fn lenient_parse_keeps_attributes_before_a_malformed_tail() {
    let opts = ParseOptions { mode: ParseMode::Lenient, ..Default::default() };
    let doc = parse_with_options(b"G\\PN:TEST;G\\106:17;G\\OD", &opts).unwrap();
    assert_eq!(doc.general.program_name.as_deref(), Some("TEST"));
    assert_eq!(doc.general.irig106_version.as_deref(), Some("17"));
    assert!(!doc.parse_diagnostics.is_empty());
}

#[test]
fn strict_parse_rejects_a_malformed_tail() {
    let opts = ParseOptions { mode: ParseMode::Strict, ..Default::default() };
    assert!(parse_with_options(b"G\\PN:TEST;G\\106:17;G\\OD", &opts).is_err());
}

#[test]
fn comment_continuation_reparses_strictly() {
    let opts = ParseOptions {
        mode: ParseMode::Strict,
        max_attributes: 5_000,
        max_value_size: 50_000,
        ..Default::default()
    };
    let doc = parse_with_options(b"G\\PN:T;G\\COM:a;G\\COM\\X:b;", &opts).unwrap();
    let out = serialize_to_vec(&doc).unwrap();
    let again = parse_with_options(&out, &opts).unwrap();
    assert_eq!(again.general.comments, doc.general.comments);
    assert_eq!(again.general.comments.len(), 2);
}

#[test]
fn canonical_keyword_case_upper_cases_encoding() {
    let doc = parse(b"G\\PN:T;G\\106:17;P-1\\D2:nrz-l;").unwrap();
    let opts = SerializeOptions {
        format: OutputFormat::Compact,
        canonical_keyword_case: true,
        ..Default::default()
    };
    let mut w: Vec<u8> = Vec::new();
    assert!(serialize_with_options(&doc, &mut w, &opts).is_ok());
    let s = text(&w);
    assert!(s.contains("P-1\\D2:NRZ-L;"));
    assert!(!s.contains("nrz-l"));
}

#[test]
fn keyword_case_kept_without_the_option() {
    let doc = parse(b"G\\PN:T;G\\106:17;P-1\\D2:nrz-l;").unwrap();
    let out = text(&serialize_to_vec(&doc).unwrap());
    assert!(out.contains("P-1\\D2:nrz-l;"));
}

#[test]
fn minor_frame_count_survives_a_round_trip() {
    let doc = parse(b"G\\PN:T;G\\106:17;P-1\\DLN:L;P-1\\MF\\N:4;").unwrap();
    assert_eq!(doc.pcm_formats.get(&1).unwrap().num_minor_frames, Some(4));
    let out = serialize_to_vec(&doc).unwrap();
    assert!(text(&out).contains("P-1\\MF\\N:4;"));
    let again = parse(&out).unwrap();
    assert_eq!(again.pcm_formats.get(&1).unwrap().num_minor_frames, Some(4));
}

#[test]
fn repair_inserts_missing_recorder_id() {
    let mut doc = parse(b"G\\PN:TEST;G\\106:17;R-1\\N:1;R-1\\TK1-1:1;").unwrap();
    let rep = repair(&mut doc, &RepairOptions::default());
    assert_eq!(doc.recorders.get(&1).unwrap().recorder_id.as_deref(), Some("UNKNOWN"));
    assert!(rep
        .actions_taken
        .iter()
        .any(|a| a.action_type == RepairActionType::Inserted && a.attribute_path == "R-1\\ID"));
    let again = repair(&mut doc, &RepairOptions::default());
    assert!(again.actions_taken.is_empty());
}

#[test]
fn repair_inserts_missing_channel_count() {
    let mut doc = parse(b"G\\PN:TEST;G\\106:17;R-1\\ID:REC;R-1\\TK1-1:1;R-1\\TK1-2:2;").unwrap();
    let opts = RepairOptions { auto_fix_counters: false, ..Default::default() };
    let rep = repair(&mut doc, &opts);
    assert_eq!(doc.recorders.get(&1).unwrap().num_channels, Some(2));
    assert!(rep.actions_taken.iter().any(|a| a.rule_id == "TMATS-R004"
        && a.attribute_path == "R-1\\N"
        && a.new_value.as_deref() == Some("2")));
}

#[test]
fn repair_leaves_missing_attributes_when_disabled() {
    let mut doc = parse(b"G\\PN:TEST;G\\106:17;R-1\\N:1;R-1\\TK1-1:1;").unwrap();
    let opts = RepairOptions { auto_fix_missing_required: false, ..Default::default() };
    let rep = repair(&mut doc, &opts);
    assert!(doc.recorders.get(&1).unwrap().recorder_id.is_none());
    assert!(rep.findings.iter().any(|f| f.rule_id == "TMATS-R004"));
    assert!(!rep.actions_taken.iter().any(|a| a.rule_id == "TMATS-R004"));
}

#[test]
fn dry_run_reports_missing_recorder_id() {
    let doc = parse(b"G\\PN:TEST;G\\106:17;R-1\\N:1;R-1\\TK1-1:1;").unwrap();
    let rep = repair_dry_run(&doc);
    assert!(rep.findings.iter().any(|f| f.rule_id == "TMATS-R004"
        && f.attribute_path.as_deref() == Some("R-1\\ID")
        && f.proposed_value.as_deref() == Some("UNKNOWN")));
    assert!(rep.actions_taken.is_empty());
}

#[test]
fn ch10_profile_skips_date_format_rule() {
    let doc = parse(b"G\\PN:TEST;G\\106:17;G\\OD:13-01-2024;").unwrap();
    let full = validate_with_options(&doc, &ValidationContext::default());
    assert!(full.diagnostics.iter().any(|d| d.rule_id == "TMATS-V040"));
    let ctx = ValidationContext { profile: ValidationProfile::Ch10Required, ..Default::default() };
    let report = validate_with_options(&doc, &ctx);
    assert!(!report.diagnostics.iter().any(|d| d.rule_id == "TMATS-V040"));
}

#[test]
fn ch10_profile_keeps_channel_count_rule() {
    let doc = parse(b"G\\PN:TEST;G\\106:17;R-1\\N:3;R-1\\TK1-1:1;").unwrap();
    let ctx = ValidationContext { profile: ValidationProfile::Ch10Required, ..Default::default() };
    let report = validate_with_options(&doc, &ctx);
    assert!(report.diagnostics.iter().any(|d| d.rule_id == "TMATS-V011"));
}

#[test]
fn parse_xml_reports_syntax_errors() {
    match parse_xml(b"<Tmats><General></Tmats>") {
        Err(TmatsError::Xml(e)) => assert!(e.message.starts_with("XML parse error: ")),
        other => panic!("expected an XML error, got {:?}", other.is_ok()),
    }
}

#[test]
fn xml_serialization_succeeds_and_reads_back() {
    let doc = parse(b"G\\PN:TEST;G\\106:17;G\\DSI\\N:1;G\\DSI-1:SRC;G\\DST-1:REC;").unwrap();
    let x = serialize_xml_to_vec(&doc).unwrap();
    let s = text(&x);
    assert!(s.contains("<DataSourceID>SRC</DataSourceID>"));
    let back = parse_xml(&x).unwrap();
    assert_eq!(back.general.program_name.as_deref(), Some("TEST"));
    assert_eq!(back.general.num_data_sources, Some(1));
}

#[test]
fn second_repair_changes_nothing() {
    let mut doc = parse(b"G\\PN:TEST;G\\106:17;G\\DSI\\N:3;G\\DSI-1:A;R-1\\N:5;R-1\\TK1-1:1;R-1\\PDP-1:pfs;P-1\\D2:nrz-l;").unwrap();
    let opts = RepairOptions::default();
    repair(&mut doc, &opts);
    let once = serialize_to_vec(&doc).unwrap();
    let again = repair(&mut doc, &opts);
    assert!(again.actions_taken.is_empty());
    assert_eq!(serialize_to_vec(&doc).unwrap(), once);
    assert_eq!(doc.general.num_data_sources, Some(1));
    assert_eq!(doc.recorders.get(&1).unwrap().num_channels, Some(1));
    assert_eq!(doc.recorders.get(&1).unwrap().recorder_id.as_deref(), Some("UNKNOWN"));
}

#[test]
fn orphan_channel_is_reported() {
    let doc = parse(b"G\\PN:TEST;G\\106:17;R-1\\ID:R;R-1\\N:2;R-1\\TK1-1:1;R-1\\CDLN-1:LINK;R-1\\TK1-2:2;R-1\\CDLN-2:GONE;P-1\\DLN:LINK;").unwrap();
    let rep = repair_dry_run(&doc);
    let orphans: Vec<_> = rep.findings.iter().filter(|f| f.rule_id == "TMATS-R005").collect();
    assert_eq!(orphans.len(), 1);
    assert_eq!(orphans[0].attribute_path.as_deref(), Some("R-1\\CDLN-2"));
    assert_eq!(orphans[0].current_value.as_deref(), Some("GONE"));
}

#[test]
fn custom_profile_reports_only_listed_rules() {
    let doc = parse(b"G\\106:17;G\\OD:13-01-2024;R-1\\N:3;R-1\\TK1-1:1;").unwrap();
    let ctx = ValidationContext {
        profile: ValidationProfile::Custom(vec!["TMATS-V001".to_string()]),
        ..Default::default()
    };
    let report = validate_with_options(&doc, &ctx);
    assert!(!report.diagnostics.is_empty());
    assert!(report.diagnostics.iter().all(|d| d.rule_id == "TMATS-V001"));
    assert_eq!(report.errors, report.diagnostics.len());
}

#[test]
fn diff_the_other_way_round_swaps_values() {
    let a = parse(b"G\\PN:ONE;G\\106:17;G\\OD:01-02-2024;").unwrap();
    let b = parse(b"G\\PN:TWO;G\\106:17;G\\RD:03-04-2024;").unwrap();
    let ab = diff(&a, &b).unwrap();
    let ba = diff(&b, &a).unwrap();
    assert_eq!(ab.modified.len(), 1);
    assert_eq!(ab.modified[0], ("G\\PN".to_string(), "ONE".to_string(), "TWO".to_string()));
    assert_eq!(ba.modified[0], ("G\\PN".to_string(), "TWO".to_string(), "ONE".to_string()));
    assert_eq!(ab.added, ba.removed);
    assert_eq!(ab.removed, ba.added);
}

#[test]
fn xml_layout_is_two_space_indented() {
    let doc = parse(b"G\\PN:T;G\\106:17;").unwrap();
    let s = text(&serialize_xml_to_vec(&doc).unwrap());
    assert!(s.starts_with(
        "<?xml version=\"1.0\" encoding=\"UTF-8\"?>\n<Tmats>\n  <GeneralInformation>\n    <ProgramName>T</ProgramName>\n    <Irig106Version>17</Irig106Version>\n  </GeneralInformation>"
    ));
    assert!(s.ends_with("\n</Tmats>"));
}

#[test]
fn ascii_to_xml_equals_serializing_the_parsed_document() {
    let ascii: &[u8] = b"G\\PN:TEST;G\\106:17;G\\DSI\\N:1;G\\DSI-1:SRC;G\\DST-1:REC;R-1\\ID:R;R-1\\N:1;R-1\\TK1-1:1;";
    let a = ascii_to_xml(ascii).unwrap();
    let b = serialize_xml_to_vec(&parse(ascii).unwrap()).unwrap();
    assert_eq!(a, b);
    assert_eq!(serialize_xml_to_vec(&parse(ascii).unwrap()).unwrap(), b);
}

#[test]
fn severity_counts_add_up() {
    let doc = parse(b"G\\106:17;G\\OD:13-01-2024;R-1\\N:3;R-1\\TK1-1:1;R-1\\CDLN-1:NOWHERE;").unwrap();
    let r = validate_with_options(&doc, &ValidationContext::default());
    assert_eq!(r.errors + r.warnings + r.info, r.diagnostics.len());
    assert!(r.errors > 0 && r.warnings > 0);
}

#[test]
fn orphan_findings_match_reference_diagnostics() {
    let doc = parse(b"G\\PN:T;G\\106:17;R-1\\ID:R;R-1\\N:3;R-1\\TK1-1:1;R-1\\CDLN-1:A;R-1\\TK1-2:2;R-1\\CDLN-2:p1;R-1\\TK1-3:3;R-1\\CDLN-3:B;P-1\\DLN:P1;").unwrap();
    let orphans: Vec<(Option<String>, Option<String>)> = repair_dry_run(&doc)
        .findings
        .into_iter()
        .filter(|f| f.rule_id == "TMATS-R005")
        .map(|f| (f.attribute_path, f.current_value))
        .collect();
    let refs: Vec<(Option<String>, Option<String>)> = validate_with_options(&doc, &ValidationContext::default())
        .diagnostics
        .into_iter()
        .filter(|d| d.rule_id == "TMATS-V020")
        .map(|d| (d.attribute_path, d.actual))
        .collect();
    assert_eq!(orphans.len(), 2);
    assert_eq!(orphans, refs);
}

#[test]
fn version_line_and_help_text() {
    let v = irig106_tmats::cli::version_line();
    assert_eq!(v, format!("tmats {} (irig106-tmats {})", irig106_tmats::VERSION, irig106_tmats::VERSION));
    let h = irig106_tmats::cli::help_text();
    assert!(h.starts_with(&v));
    assert!(h.contains("Usage: tmats [-h | --help] [-V | --version]"));
}
