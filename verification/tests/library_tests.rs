use irig106_tmats::ch10::{decode_setup_payload, detect_config_change, SetupRecordCsdw};
use irig106_tmats::error::TmatsError;
use irig106_tmats::generate::{ChannelInventoryEntry, TmatsBuilder};
use irig106_tmats::model::{DataSourceDecl, TmatsDate, TmatsDocument};
use irig106_tmats::ordered_map::OrderedMap;
use irig106_tmats::parse::{parse, parse_with_options, ParseMode, ParseOptions};
use irig106_tmats::query::diff;
use irig106_tmats::repair::{repair, RepairOptions};
use irig106_tmats::serial::{attribute_pairs, serialize_to_vec};
use irig106_tmats::types_bridge::{DataTypeCode, Irig106Version};
use irig106_tmats::validate::validate;
use irig106_tmats::xml::{
    ascii_to_xml, collapse_keyword, expand_keyword, parse_xml, read_xml_events, tmats_date_to_xml,
    xml_date_to_tmats, XmlEvent,
};

fn owned(s: &str) -> String {
    s.to_string()
}

// ─── Dates ──────────────────────────────────────────────────────────────────

#[test]
fn date_survives_tmats_text() {
    for d in [
        TmatsDate { month: 3, day: 15, year: 2024 },
        TmatsDate { month: 1, day: 1, year: 7 },
        TmatsDate { month: 255, day: 0, year: 65535 },
    ] {
        let text = d.to_string();
        assert_eq!(TmatsDate::from_tmats_str(&text), Some(d));
    }
    assert_eq!(TmatsDate { month: 1, day: 2, year: 7 }.to_string(), "01-02-0007");
}

#[test]
fn date_survives_xml_text() {
    let d = TmatsDate { month: 6, day: 20, year: 2024 };
    let x = tmats_date_to_xml(&d);
    assert_eq!(x, "2024-06-20");
    assert_eq!(xml_date_to_tmats(&x), Some(d));
    assert_eq!(xml_date_to_tmats("2024-13"), None);
    assert_eq!(xml_date_to_tmats("2024-xx-01"), None);
}

// ─── Comparison ─────────────────────────────────────────────────────────────

#[test]
fn diff_with_itself_is_empty() {
    let doc = parse(b"G\\PN:A;G\\106:17;R-1\\ID:REC;R-1\\N:1;R-1\\TK1-1:3;").unwrap();
    let d = diff(&doc, &doc).unwrap();
    assert!(d.added.is_empty());
    assert!(d.removed.is_empty());
    assert!(d.modified.is_empty());
}

#[test]
fn diff_reports_each_kind_of_change() {
    let a = parse(b"G\\PN:A;G\\106:17;G\\TN:T1;").unwrap();
    let b = parse(b"G\\PN:B;G\\106:17;G\\RN:2;").unwrap();
    let d = diff(&a, &b).unwrap();
    assert_eq!(d.modified, vec![(owned("G\\PN"), owned("A"), owned("B"))]);
    assert_eq!(d.removed, vec![(owned("G\\TN"), owned("T1"))]);
    assert_eq!(d.added, vec![(owned("G\\RN"), owned("2"))]);
}

#[test]
fn no_config_change_against_itself() {
    let doc = parse(b"G\\PN:A;G\\106:17;").unwrap();
    assert_eq!(detect_config_change(&doc, &doc).unwrap(), false);
}

// ─── Serialization ──────────────────────────────────────────────────────────

#[test]
fn serialized_counters_are_the_counts() {
    let doc = parse(b"G\\PN:A;G\\106:17;R-1\\ID:REC;R-1\\N:9;R-1\\TK1-1:1;R-1\\TK1-2:2;").unwrap();
    let out = String::from_utf8(serialize_to_vec(&doc).unwrap()).unwrap();
    assert!(out.contains("R-1\\N:2;"));
    let reparsed = parse(out.as_bytes()).unwrap();
    assert_eq!(reparsed.recorders.get(&1).unwrap().num_channels, Some(2));
}

#[test]
fn reparsed_data_source_counter_is_the_count() {
    let doc = parse(b"G\\PN:A;G\\106:17;G\\DSI\\N:5;G\\DSI-1:X;G\\DST-3:REC;").unwrap();
    assert_eq!(doc.general.num_data_sources, Some(5));
    let out = serialize_to_vec(&doc).unwrap();
    let reparsed = parse(&out).unwrap();
    assert_eq!(reparsed.general.num_data_sources, Some(2));
    assert_eq!(reparsed.general.data_sources.len(), 2);
}

#[test]
fn serialized_pairs_read_back_as_the_same_pairs() {
    let doc = parse(b"G\\PN:RT;G\\106:17;G\\COM:a comment;P-1\\DLN:L;P-1\\D1:5000000;Z-1\\X:y;").unwrap();
    let pairs = attribute_pairs(&doc, true);
    let out = serialize_to_vec(&doc).unwrap();
    let reparsed = parse(&out).unwrap();
    assert_eq!(attribute_pairs(&reparsed, true), pairs);
    assert_eq!(
        pairs,
        vec![
            (owned("G\\PN"), owned("RT")),
            (owned("G\\106"), owned("17")),
            (owned("G\\COM"), owned("a comment")),
            (owned("P-1\\DLN"), owned("L")),
            (owned("P-1\\D1"), owned("5000000")),
            (owned("Z-1\\X"), owned("y")),
        ]
    );
}

#[test]
fn reparsed_channels_keep_number_and_data_type() {
    let doc = parse(
        b"G\\PN:RT;G\\106:17;\
        R-1\\ID:A;R-1\\TK1-1:5;R-1\\CDT-1:09;R-1\\TK1-2:65535;R-1\\CDT-2:19;\
        R-12\\ID:B;R-12\\TK1-3:0;R-12\\CDT-7:PCMIN;",
    )
    .unwrap();
    let out = serialize_to_vec(&doc).unwrap();
    let reparsed = parse(&out).unwrap();
    for (ri, ci, id, dt) in [
        (1u32, 1u32, Some(5u16), Some("09")),
        (1, 2, Some(65535), Some("19")),
        (12, 3, Some(0), None),
        (12, 7, None, Some("PCMIN")),
    ] {
        let ch = reparsed.recorders.get(&ri).unwrap().channels.get(&ci).unwrap();
        assert_eq!(ch.channel_id, id);
        assert_eq!(ch.data_type.as_deref(), dt);
    }
}

#[test]
fn reparsed_counts_match() {
    let doc = parse(
        b"G\\PN:C;G\\106:17;G\\DSI-1:A;G\\DST-2:REC;G\\DSC-4:U;\
        R-1\\ID:A;R-1\\TK1-1:1;R-1\\CDLN-2:L2;R-1\\CHE-9:T;\
        R-3\\RMT:SSD;R-5\\PDP-1:UN;",
    )
    .unwrap();
    let out = serialize_to_vec(&doc).unwrap();
    let reparsed = parse(&out).unwrap();
    assert_eq!(reparsed.general.data_sources.len(), 3);
    assert_eq!(reparsed.recorders.len(), 3);
    assert_eq!(reparsed.recorders.get(&1).unwrap().channels.len(), 3);
    assert_eq!(reparsed.recorders.get(&3).unwrap().channels.len(), 0);
    assert_eq!(reparsed.recorders.get(&5).unwrap().channels.len(), 1);
}

#[test]
fn reparsed_document_has_no_counter_errors() {
    let doc = parse(
        b"G\\PN:P;G\\106:13;G\\DSI\\N:7;G\\DSI-1:SRC_1;G\\DST-1:REC;G\\DSC-1:U;\
        R-1\\ID:GEN_REC;R-1\\N:4;R-1\\TK1-1:17;R-1\\CDT-1:21;R-1\\CDLN-1:LINK_1;R-1\\PDP-1:UN;\
        R-2\\ID:EMPTY;",
    )
    .unwrap();
    let before = validate(&doc);
    assert!(before.diagnostics.iter().any(|d| d.rule_id == "TMATS-V010"));
    assert!(before.diagnostics.iter().any(|d| d.rule_id == "TMATS-V011"));
    let out = serialize_to_vec(&doc).unwrap();
    let report = validate(&parse(&out).unwrap());
    for rule in ["TMATS-V001", "TMATS-V002", "TMATS-V010", "TMATS-V011"] {
        assert!(!report.diagnostics.iter().any(|d| d.rule_id == rule), "{rule}: {:?}", report.diagnostics);
    }
}

#[test]
fn xml_text_holds_declaration_markup_and_escaped_text() {
    let doc = parse(b"G\\PN:A&B<C>'D\"E;G\\106:17;").unwrap();
    let xml = String::from_utf8(irig106_tmats::xml::serialize_xml_to_vec(&doc).unwrap()).unwrap();
    assert!(xml.starts_with("<?xml version=\"1.0\" encoding=\"UTF-8\"?>"));
    assert!(xml.contains("<Tmats>"));
    assert!(xml.trim_end().ends_with("</Tmats>"));
    assert!(xml.contains("A&amp;B&lt;C&gt;&apos;D&quot;E"));
    let mut out = b"prefix".to_vec();
    irig106_tmats::xml::serialize_xml(&doc, &mut out).unwrap();
    assert_eq!(&out[..6], b"prefix");
    assert_eq!(&out[6..], xml.as_bytes());
}

// ─── Parse errors ───────────────────────────────────────────────────────────

#[test]
fn parse_reports_missing_delimiters() {
    assert!(parse(b"G\\PN").is_err());
    assert!(parse(b"G\\PN:value").is_err());
    let e = parse(b"G\\PN:A").unwrap_err();
    assert_eq!(e.len(), 1);
    assert_eq!(e.to_string(), "1 error(s)");
}

#[test]
fn parse_rejects_invalid_utf8_value() {
    assert!(parse(b"G\\PN:\xff\xfe;").is_err());
}

#[test]
fn lenient_parse_of_garbage_is_empty() {
    let opts = ParseOptions { mode: ParseMode::Lenient, ..Default::default() };
    let doc = parse_with_options(b"no delimiters here", &opts).unwrap();
    assert!(doc.general.program_name.is_none());
}

// ─── Indexed maps ───────────────────────────────────────────────────────────

#[test]
fn ordered_map_keeps_insertion_order_and_replaces_in_place() {
    let src = |id: &str| DataSourceDecl { data_source_id: Some(owned(id)), ..Default::default() };
    let mut m: OrderedMap<DataSourceDecl> = OrderedMap::new();
    m.insert(5, src("a"));
    m.insert(2, src("b"));
    m.insert(5, src("c"));
    assert_eq!(m.len(), 2);
    assert_eq!(m.keys(), vec![5, 2]);
    assert_eq!(m.get(&5).unwrap().data_source_id.as_deref(), Some("c"));
    assert_eq!(m.position(2), Some(1));
    assert!(m.get(&9).is_none());
}

// ─── Types ──────────────────────────────────────────────────────────────────

#[test]
fn data_type_codes_survive_their_numbers() {
    for v in 0..=255u8 {
        assert_eq!(DataTypeCode::from_u8(v).to_u8(), v);
    }
    assert_eq!(DataTypeCode::from_u8(0x19), DataTypeCode::Mil1553Format1);
    assert_eq!(DataTypeCode::from_u8(0x07), DataTypeCode::Other(0x07));
}

#[test]
fn csdw_too_short_is_a_ch10_error() {
    match SetupRecordCsdw::decode(&[1, 2, 3]) {
        Err(e) => assert!(!e.message.is_empty()),
        Ok(_) => panic!("three bytes are not a CSDW"),
    }
    assert!(matches!(decode_setup_payload(&[0, 0, 0]), Err(TmatsError::Ch10(_))));
}

// ─── Generation ─────────────────────────────────────────────────────────────

#[test]
fn generation_needs_a_channel() {
    match TmatsBuilder::new(Irig106Version::V106_17).build() {
        Err(TmatsError::Parse(e)) => {
            assert_eq!(e.message, "at least one channel is required for generation")
        }
        other => panic!("unexpected {:?}", other.map(|d| d.general.program_name)),
    }
}

#[test]
fn generated_bus_stub_names_its_bus_type() {
    let doc = TmatsBuilder::new(Irig106Version::V106_17)
        .add_channel(ChannelInventoryEntry {
            channel_id: 7,
            data_type: DataTypeCode::Arinc429Format0,
            subchannel_count: None,
            observed_bit_rate: None,
            observed_sample_rate: None,
            packet_count: None,
        })
        .build()
        .unwrap();
    assert_eq!(doc.general.program_name.as_deref(), Some("UNKNOWN"));
    let b = doc.bus_data.get(&1).unwrap();
    assert_eq!(b.data_link_name.as_deref(), Some("LINK_7"));
    assert_eq!(b.bus_type.as_deref(), Some("A429"));
    assert_eq!(doc.recorders.get(&1).unwrap().channels.get(&1).unwrap().data_type.as_deref(), Some("38"));
}

fn entry(channel_id: u16, data_type: DataTypeCode, rate: Option<&str>) -> ChannelInventoryEntry {
    ChannelInventoryEntry {
        channel_id,
        data_type,
        subchannel_count: None,
        observed_bit_rate: rate.map(|r| r.to_string()),
        observed_sample_rate: None,
        packet_count: None,
    }
}

#[test]
fn generated_mixed_inventory_has_no_errors() {
    let doc = TmatsBuilder::new(Irig106Version::V106_09)
        .program_name("A_PROGRAM_NAME_LONGER_THAN_THIRTY_TWO_BYTES")
        .add_channel(entry(1, DataTypeCode::Pcm, Some("5000000")))
        .add_channel(entry(2, DataTypeCode::Mil1553Format2, None))
        .add_channel(entry(3, DataTypeCode::Arinc429Format0, None))
        .add_channel(entry(4, DataTypeCode::MessageData, None))
        .add_channel(entry(5, DataTypeCode::EthernetFormat0, None))
        .add_channel(entry(6, DataTypeCode::AnalogFormat1, None))
        .add_channel(entry(6, DataTypeCode::Other(0x7F), None))
        .build()
        .unwrap();
    let report = validate(&doc);
    assert_eq!(report.errors, 0, "{:?}", report.diagnostics);
    // The long program name and the channels without a format group are warnings.
    assert!(report.warnings >= 1);
}

#[test]
fn generated_pcm_without_bit_rate_misses_only_its_rate() {
    let doc = TmatsBuilder::new(Irig106Version::V106_17)
        .add_channel(entry(9, DataTypeCode::Pcm, None))
        .build()
        .unwrap();
    let report = validate(&doc);
    assert_eq!(report.errors, 1);
    assert_eq!(report.diagnostics[0].attribute_path.as_deref(), Some("P-1\\D1"));
}

// ─── Repair ─────────────────────────────────────────────────────────────────

#[test]
fn repair_does_not_increase_errors_and_settles() {
    let mut doc = parse(b"G\\PN:A;G\\106:17;G\\DSI\\N:4;G\\DSI-1:S;R-1\\ID:R;R-1\\N:7;R-1\\TK1-1:1;").unwrap();
    let before = validate(&doc).errors;
    let report = repair(&mut doc, &RepairOptions::default());
    assert!(report.post_repair_errors <= report.pre_repair_errors);
    assert_eq!(report.pre_repair_errors, before);
    let again = repair(&mut doc, &RepairOptions::default());
    assert!(again.actions_taken.is_empty());
}

// ─── XML ────────────────────────────────────────────────────────────────────

#[test]
fn xml_events_build_the_document() {
    let ev = vec![
        XmlEvent::Start(owned("Tmats")),
        XmlEvent::Start(owned("GeneralInformation")),
        XmlEvent::Start(owned("ProgramName")),
        XmlEvent::Text(owned("  P1 ")),
        XmlEvent::End(owned("ProgramName")),
        XmlEvent::Start(owned("DataSource")),
        XmlEvent::Start(owned("DataSourceType")),
        XmlEvent::Text(owned("telemetry")),
        XmlEvent::End(owned("DataSourceType")),
        XmlEvent::End(owned("DataSource")),
        XmlEvent::Other,
        XmlEvent::End(owned("GeneralInformation")),
        XmlEvent::Start(owned("BusDataAttributes")),
        XmlEvent::Start(owned("BusType")),
        XmlEvent::Text(owned("MIL-STD-1553")),
        XmlEvent::End(owned("BusType")),
        XmlEvent::End(owned("BusDataAttributes")),
        XmlEvent::End(owned("Tmats")),
    ];
    let doc = read_xml_events(&ev);
    assert_eq!(doc.general.program_name.as_deref(), Some("P1"));
    assert_eq!(doc.general.num_data_sources, Some(1));
    assert_eq!(doc.general.data_sources.get(&1).unwrap().data_source_type.as_deref(), Some("TEL"));
    // A bus type without a bus group before it has nowhere to go.
    assert_eq!(doc.bus_data.len(), 0);
}

#[test]
fn xml_syntax_error_is_reported() {
    match parse_xml(b"<Tmats><GeneralInformation></Tmats>") {
        Err(TmatsError::Xml(e)) => assert!(e.message.starts_with("XML parse error: ")),
        _ => panic!("mismatched tags must fail"),
    }
}

#[test]
fn ascii_to_xml_reports_parse_failure() {
    match ascii_to_xml(b"G\\PN:unterminated") {
        Err(TmatsError::Xml(e)) => assert_eq!(e.message, "ASCII parse failed: 1 error(s)"),
        _ => panic!("an unterminated attribute must fail"),
    }
}

#[test]
fn keywords_expand_and_collapse_in_any_case() {
    assert_eq!(expand_keyword("rec"), "Recorder");
    assert_eq!(expand_keyword(" UN "), "Unpacked");
    assert_eq!(expand_keyword("NOT_A_KEYWORD"), "NOT_A_KEYWORD");
    assert_eq!(collapse_keyword("binary-phase"), "binary-phase");
    assert_eq!(collapse_keyword("biphase-level"), "BIO-L");
}

#[test]
fn xml_round_trip_keeps_channels() {
    let doc = parse(b"G\\PN:X;G\\106:17;R-1\\ID:R;R-1\\N:1;R-1\\TK1-1:4;R-1\\CDT-1:09;R-1\\PDP-1:PFS;").unwrap();
    let xml = irig106_tmats::xml::serialize_xml_to_vec(&doc).unwrap();
    let back: TmatsDocument = parse_xml(&xml).unwrap();
    let ch = back.recorders.get(&1).unwrap().channels.get(&1).unwrap();
    assert_eq!(ch.channel_id, Some(4));
    assert_eq!(ch.data_type.as_deref(), Some("09"));
    assert_eq!(ch.data_packing_option.as_deref(), Some("PFS"));
}

#[test]
fn every_keyword_expands_and_collapses_back() {
    let table = [
        ("LO", "Longitudinal"), ("RO", "Rotary"), ("REC", "Recorder"), ("TEL", "Telemetry"),
        ("MUL", "Multiplex"), ("PRE", "Pre-Detect"), ("U", "Unclassified"), ("C", "Confidential"),
        ("S", "Secret"), ("NRZ-L", "NRZ-L"), ("NRZ-M", "NRZ-M"), ("NRZ-S", "NRZ-S"),
        ("RNRZ-L", "RNRZ-L"), ("BIO-L", "BiPhase-Level"), ("BIO-M", "BiPhase-Mark"),
        ("BIO-S", "BiPhase-Space"), ("N", "Normal"), ("R", "Reversed"), ("UN", "Unpacked"),
        ("PFS", "Packed"), ("TM", "Throughput"), ("T", "True"), ("F", "False"),
        ("1553", "MIL-STD-1553"), ("A429", "ARINC-429"), ("FM", "FM"), ("PM", "PM"), ("AM", "AM"),
        ("M", "MSB"), ("L", "LSB"), ("D", "Default"), ("PAIR", "PairSets"), ("COEF", "Coefficients"),
        ("TABL", "Table"), ("POLY", "Polynomial"), ("FORM", "Formula"),
    ];
    for (short, long) in table {
        assert_eq!(expand_keyword(short), long);
        assert_eq!(collapse_keyword(long), short);
        assert_eq!(collapse_keyword(expand_keyword(short)), short);
        assert_eq!(expand_keyword(collapse_keyword(long)), long);
    }
}
