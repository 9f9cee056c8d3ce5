//! TMATS XML: keyword expansion between the ASCII abbreviations and the
//! XML spellings, dates in XML order, writing a document as XML events and
//! reading one back from them.  The XML text itself is read and written by
//! `quick_xml`.
use vstd::prelude::*;
use vstd::utf8::*;
use quick_xml::events::{Event, BytesStart, BytesEnd, BytesText, BytesDecl};
use quick_xml::{Reader, Writer};
use crate::error::{TmatsError, XmlError, opt_text, views, texts};
use crate::model::{TmatsDocument, TmatsDocumentV, OwnedTmatsDocument, TmatsDate, date_from_parts, RawAttributeV, GGroup, GGroupV, RGroup, RGroupV, RChannel, RChannelV, PGroup, PGroupV, BGroup, BGroupV, CGroup, CGroupV, DataSourceDecl, DataSourceDeclV, TGroup, TGroupV, MGroup, MGroupV, DGroup, DGroupV, SGroup, SGroupV};
use crate::ordered_map::{OrderedMap, DefaultModel, assoc_put, assoc_get, or_default, assoc_find, lemma_put_over, lemma_assoc_find};
use crate::parse::{u16_of_text, float_of_text, u16_of, float_of, owned, parse, parse_spec, default_parse_options};
use crate::serial::{serialize_to_vec, serialized_text, default_serialize_options};
use crate::text::{upper, upper_char, trim_start, trim_end, lemma_upper_char, lemma_dec_padded_value, lemma_split_single, lemma_split_append, all_digits, is_digit, split, push_str, push_char, dec, dec_padded, push_dec_padded, trim, eq_ignore_case, chars_of, trimmed_chars, chars_eq_ignore_case, chars_eq_str, parse_unsigned, parse_unsigned_range, string_of, float_text_trimmed};
use crate::types_bridge::Irig106Version;

verus! {

// ─── Keywords ───────────────────────────────────────────────────────────────

/// Entry `i` of the keyword table: an abbreviation and its XML spelling.
pub open spec fn keyword_entry(i: int) -> (Seq<char>, Seq<char>) {
    if i == 0 {
        ("LO"@, "Longitudinal"@)
    } else if i == 1 {
        ("RO"@, "Rotary"@)
    } else if i == 2 {
        ("REC"@, "Recorder"@)
    } else if i == 3 {
        ("TEL"@, "Telemetry"@)
    } else if i == 4 {
        ("MUL"@, "Multiplex"@)
    } else if i == 5 {
        ("PRE"@, "Pre-Detect"@)
    } else if i == 6 {
        ("U"@, "Unclassified"@)
    } else if i == 7 {
        ("C"@, "Confidential"@)
    } else if i == 8 {
        ("S"@, "Secret"@)
    } else if i == 9 {
        ("NRZ-L"@, "NRZ-L"@)
    } else if i == 10 {
        ("NRZ-M"@, "NRZ-M"@)
    } else if i == 11 {
        ("NRZ-S"@, "NRZ-S"@)
    } else if i == 12 {
        ("RNRZ-L"@, "RNRZ-L"@)
    } else if i == 13 {
        ("BIO-L"@, "BiPhase-Level"@)
    } else if i == 14 {
        ("BIO-M"@, "BiPhase-Mark"@)
    } else if i == 15 {
        ("BIO-S"@, "BiPhase-Space"@)
    } else if i == 16 {
        ("N"@, "Normal"@)
    } else if i == 17 {
        ("R"@, "Reversed"@)
    } else if i == 18 {
        ("UN"@, "Unpacked"@)
    } else if i == 19 {
        ("PFS"@, "Packed"@)
    } else if i == 20 {
        ("TM"@, "Throughput"@)
    } else if i == 21 {
        ("T"@, "True"@)
    } else if i == 22 {
        ("F"@, "False"@)
    } else if i == 23 {
        ("1553"@, "MIL-STD-1553"@)
    } else if i == 24 {
        ("A429"@, "ARINC-429"@)
    } else if i == 25 {
        ("FM"@, "FM"@)
    } else if i == 26 {
        ("PM"@, "PM"@)
    } else if i == 27 {
        ("AM"@, "AM"@)
    } else if i == 28 {
        ("M"@, "MSB"@)
    } else if i == 29 {
        ("L"@, "LSB"@)
    } else if i == 30 {
        ("D"@, "Default"@)
    } else if i == 31 {
        ("PAIR"@, "PairSets"@)
    } else if i == 32 {
        ("COEF"@, "Coefficients"@)
    } else if i == 33 {
        ("TABL"@, "Table"@)
    } else if i == 34 {
        ("POLY"@, "Polynomial"@)
    } else {
        ("FORM"@, "Formula"@)
    }
}

/// Keyword abbreviations and their expanded XML spellings.
pub open spec fn keyword_table() -> Seq<(Seq<char>, Seq<char>)> {
    Seq::new(36, |i: int| keyword_entry(i))
}

pub open spec fn kw_views(v: Seq<(&'static str, &'static str)>) -> Seq<(Seq<char>, Seq<char>)> {
    v.map_values(|p: (&'static str, &'static str)| (p.0@, p.1@))
}

fn keyword_pairs() -> (r: Vec<(&'static str, &'static str)>)
    ensures
        kw_views(r@) == keyword_table(),
{
    let mut t: Vec<(&'static str, &'static str)> = Vec::new();
    t.push(("LO", "Longitudinal"));
    assert(kw_views(t@) =~= keyword_table().take(1));
    t.push(("RO", "Rotary"));
    assert(kw_views(t@) =~= keyword_table().take(2));
    t.push(("REC", "Recorder"));
    assert(kw_views(t@) =~= keyword_table().take(3));
    t.push(("TEL", "Telemetry"));
    assert(kw_views(t@) =~= keyword_table().take(4));
    t.push(("MUL", "Multiplex"));
    assert(kw_views(t@) =~= keyword_table().take(5));
    t.push(("PRE", "Pre-Detect"));
    assert(kw_views(t@) =~= keyword_table().take(6));
    t.push(("U", "Unclassified"));
    assert(kw_views(t@) =~= keyword_table().take(7));
    t.push(("C", "Confidential"));
    assert(kw_views(t@) =~= keyword_table().take(8));
    t.push(("S", "Secret"));
    assert(kw_views(t@) =~= keyword_table().take(9));
    t.push(("NRZ-L", "NRZ-L"));
    assert(kw_views(t@) =~= keyword_table().take(10));
    t.push(("NRZ-M", "NRZ-M"));
    assert(kw_views(t@) =~= keyword_table().take(11));
    t.push(("NRZ-S", "NRZ-S"));
    assert(kw_views(t@) =~= keyword_table().take(12));
    t.push(("RNRZ-L", "RNRZ-L"));
    assert(kw_views(t@) =~= keyword_table().take(13));
    t.push(("BIO-L", "BiPhase-Level"));
    assert(kw_views(t@) =~= keyword_table().take(14));
    t.push(("BIO-M", "BiPhase-Mark"));
    assert(kw_views(t@) =~= keyword_table().take(15));
    t.push(("BIO-S", "BiPhase-Space"));
    assert(kw_views(t@) =~= keyword_table().take(16));
    t.push(("N", "Normal"));
    assert(kw_views(t@) =~= keyword_table().take(17));
    t.push(("R", "Reversed"));
    assert(kw_views(t@) =~= keyword_table().take(18));
    t.push(("UN", "Unpacked"));
    assert(kw_views(t@) =~= keyword_table().take(19));
    t.push(("PFS", "Packed"));
    assert(kw_views(t@) =~= keyword_table().take(20));
    t.push(("TM", "Throughput"));
    assert(kw_views(t@) =~= keyword_table().take(21));
    t.push(("T", "True"));
    assert(kw_views(t@) =~= keyword_table().take(22));
    t.push(("F", "False"));
    assert(kw_views(t@) =~= keyword_table().take(23));
    t.push(("1553", "MIL-STD-1553"));
    assert(kw_views(t@) =~= keyword_table().take(24));
    t.push(("A429", "ARINC-429"));
    assert(kw_views(t@) =~= keyword_table().take(25));
    t.push(("FM", "FM"));
    assert(kw_views(t@) =~= keyword_table().take(26));
    t.push(("PM", "PM"));
    assert(kw_views(t@) =~= keyword_table().take(27));
    t.push(("AM", "AM"));
    assert(kw_views(t@) =~= keyword_table().take(28));
    t.push(("M", "MSB"));
    assert(kw_views(t@) =~= keyword_table().take(29));
    t.push(("L", "LSB"));
    assert(kw_views(t@) =~= keyword_table().take(30));
    t.push(("D", "Default"));
    assert(kw_views(t@) =~= keyword_table().take(31));
    t.push(("PAIR", "PairSets"));
    assert(kw_views(t@) =~= keyword_table().take(32));
    t.push(("COEF", "Coefficients"));
    assert(kw_views(t@) =~= keyword_table().take(33));
    t.push(("TABL", "Table"));
    assert(kw_views(t@) =~= keyword_table().take(34));
    t.push(("POLY", "Polynomial"));
    assert(kw_views(t@) =~= keyword_table().take(35));
    t.push(("FORM", "Formula"));
    assert(kw_views(t@) =~= keyword_table().take(36));
    assert(keyword_table().take(36) =~= keyword_table());
    t
}

/// Position of the first entry from `i` on whose abbreviation (`long`
/// false) or spelling (`long` true) equals `s` up to ASCII case, or -1.
pub open spec fn keyword_index(s: Seq<char>, long: bool, i: int) -> int
    decreases keyword_table().len() - i,
{
    if i < 0 || i >= keyword_table().len() {
        -1
    } else if eq_ignore_case(if long { keyword_table()[i].1 } else { keyword_table()[i].0 }, s) {
        i
    } else {
        keyword_index(s, long, i + 1)
    }
}

/// The XML spelling of an abbreviation (matched trimmed, in any case), or
/// the text itself when it is not one.
pub open spec fn expand_spec(a: Seq<char>) -> Seq<char> {
    let i = keyword_index(trim(a), false, 0);
    if i >= 0 {
        keyword_table()[i].1
    } else {
        a
    }
}

/// The abbreviation of an XML spelling (matched trimmed, in any case), or
/// the text itself when it is not one.
pub open spec fn collapse_spec(e: Seq<char>) -> Seq<char> {
    let i = keyword_index(trim(e), true, 0);
    if i >= 0 {
        keyword_table()[i].0
    } else {
        e
    }
}

fn keyword_lookup(s: &str, long: bool) -> (r: Option<&'static str>)
    ensures
        match r {
            Some(x) => keyword_index(trim(s@), long, 0) >= 0 && x@ == (if long {
                keyword_table()[keyword_index(trim(s@), long, 0)].0
            } else {
                keyword_table()[keyword_index(trim(s@), long, 0)].1
            }),
            None => keyword_index(trim(s@), long, 0) < 0,
        },
{
    let t = trimmed_chars(s);
    let table = keyword_pairs();
    let n = table.len();
    let mut i: usize = 0;
    while i < n
        invariant
            i <= n,
            n == keyword_table().len(),
            kw_views(table@) == keyword_table(),
            t@ == trim(s@),
            keyword_index(trim(s@), long, 0) == keyword_index(trim(s@), long, i as int),
        decreases n - i,
    {
        let (short, long_form) = table[i];
        let k = chars_of(if long { long_form } else { short });
        if chars_eq_ignore_case(&k, &t) {
            return Some(if long { short } else { long_form });
        }
        i = i + 1;
    }
    None
}

/// Expand a keyword abbreviation to its XML spelling.
pub fn expand_keyword(abbrev: &str) -> (r: &str)
    ensures
        r@ == expand_spec(abbrev@),
{
    match keyword_lookup(abbrev, false) {
        Some(x) => x,
        None => abbrev,
    }
}

/// Collapse an XML keyword spelling to its abbreviation.
pub fn collapse_keyword(expanded: &str) -> (r: &str)
    ensures
        r@ == collapse_spec(expanded@),
{
    match keyword_lookup(expanded, true) {
        Some(x) => x,
        None => expanded,
    }
}

// ─── Dates ──────────────────────────────────────────────────────────────────

/// The XML text of a date, `YYYY-MM-DD`.
pub open spec fn xml_date_text(d: TmatsDate) -> Seq<char> {
    dec_padded(d.year as nat, 4) + seq!['-'] + dec_padded(d.month as nat, 2) + seq!['-'] + dec_padded(d.day as nat, 2)
}

/// Convert a date to XML format "YYYY-MM-DD".
pub fn tmats_date_to_xml(date: &TmatsDate) -> (r: String)
    ensures
        r@ == xml_date_text(*date),
{
    let mut s = String::new();
    push_dec_padded(&mut s, date.year as u64, 4);
    push_char(&mut s, '-');
    push_dec_padded(&mut s, date.month as u64, 2);
    push_char(&mut s, '-');
    push_dec_padded(&mut s, date.day as u64, 2);
    assert(s@ =~= xml_date_text(*date));
    s
}

/// Parse an XML date "YYYY-MM-DD".
pub fn xml_date_to_tmats(xml_date: &str) -> (r: Option<TmatsDate>)
    ensures
        r == date_from_parts(xml_date@, true),
{
    TmatsDate::from_xml_str(xml_date)
}


// ─── Writing ────────────────────────────────────────────────────────────────

/// An XML event to write.
#[derive(Debug)]
pub enum XmlOut {
    /// The `<?xml version="1.0" encoding="UTF-8"?>` declaration.
    Decl,
    Start(String),
    End(String),
    Text(String),
}

/// The model of an [`XmlOut`].
pub enum XmlOutV {
    Decl,
    Start(Seq<char>),
    End(Seq<char>),
    Text(Seq<char>),
}

impl View for XmlOut {
    type V = XmlOutV;

    open spec fn view(&self) -> XmlOutV {
        match self {
            XmlOut::Decl => XmlOutV::Decl,
            XmlOut::Start(n) => XmlOutV::Start(n@),
            XmlOut::End(n) => XmlOutV::End(n@),
            XmlOut::Text(t) => XmlOutV::Text(t@),
        }
    }
}

pub open spec fn out_views(v: Seq<XmlOut>) -> Seq<XmlOutV> {
    v.map_values(|e: XmlOut| e@)
}

/// An element holding text: start, text, end.
pub open spec fn el(acc: Seq<XmlOutV>, name: Seq<char>, v: Seq<char>) -> Seq<XmlOutV> {
    acc.push(XmlOutV::Start(name)).push(XmlOutV::Text(v)).push(XmlOutV::End(name))
}

pub open spec fn el_opt(acc: Seq<XmlOutV>, name: Seq<char>, o: Option<Seq<char>>) -> Seq<XmlOutV> {
    match o {
        Some(v) => el(acc, name, v),
        None => acc,
    }
}

/// An element holding the expanded spelling of a keyword.
pub open spec fn el_exp(acc: Seq<XmlOutV>, name: Seq<char>, o: Option<Seq<char>>) -> Seq<XmlOutV> {
    match o {
        Some(v) => el(acc, name, expand_spec(v)),
        None => acc,
    }
}

pub open spec fn el_date(acc: Seq<XmlOutV>, name: Seq<char>, o: Option<TmatsDate>) -> Seq<XmlOutV> {
    match o {
        Some(d) => el(acc, name, xml_date_text(d)),
        None => acc,
    }
}

pub open spec fn el_u32(acc: Seq<XmlOutV>, name: Seq<char>, o: Option<u32>) -> Seq<XmlOutV> {
    match o {
        Some(n) => el(acc, name, dec(n as nat)),
        None => acc,
    }
}

pub open spec fn el_u16(acc: Seq<XmlOutV>, name: Seq<char>, o: Option<u16>) -> Seq<XmlOutV> {
    match o {
        Some(n) => el(acc, name, dec(n as nat)),
        None => acc,
    }
}

/// Booleans are written `True` or `False`.
pub open spec fn xml_bool(b: bool) -> Seq<char> {
    if b {
        "True"@
    } else {
        "False"@
    }
}

pub open spec fn el_bool(acc: Seq<XmlOutV>, name: Seq<char>, o: Option<bool>) -> Seq<XmlOutV> {
    match o {
        Some(b) => el(acc, name, xml_bool(b)),
        None => acc,
    }
}

fn st(s: &str) -> (r: String)
    ensures
        r@ == s@,
{
    let mut r = String::new();
    push_str(&mut r, s);
    r
}

fn out_push(ev: &mut Vec<XmlOut>, e: XmlOut)
    ensures
        out_views(final(ev)@) == out_views(old(ev)@).push(e@),
{
    let ghost before = out_views(ev@);
    let ghost w = e@;
    ev.push(e);
    assert(out_views(ev@) =~= before.push(w));
}

fn out_el(ev: &mut Vec<XmlOut>, name: &str, v: String)
    ensures
        out_views(final(ev)@) == el(out_views(old(ev)@), name@, v@),
{
    out_push(ev, XmlOut::Start(st(name)));
    out_push(ev, XmlOut::Text(v));
    out_push(ev, XmlOut::End(st(name)));
}

fn out_opt(ev: &mut Vec<XmlOut>, name: &str, o: &Option<String>)
    ensures
        out_views(final(ev)@) == el_opt(out_views(old(ev)@), name@, opt_text(*o)),
{
    if let Some(v) = o {
        out_el(ev, name, v.clone());
    }
}

fn out_exp(ev: &mut Vec<XmlOut>, name: &str, o: &Option<String>)
    ensures
        out_views(final(ev)@) == el_exp(out_views(old(ev)@), name@, opt_text(*o)),
{
    if let Some(v) = o {
        out_el(ev, name, st(expand_keyword(v.as_str())));
    }
}

fn out_date(ev: &mut Vec<XmlOut>, name: &str, o: &Option<TmatsDate>)
    ensures
        out_views(final(ev)@) == el_date(out_views(old(ev)@), name@, *o),
{
    if let Some(d) = o {
        out_el(ev, name, tmats_date_to_xml(d));
    }
}

fn out_u32(ev: &mut Vec<XmlOut>, name: &str, o: &Option<u32>)
    ensures
        out_views(final(ev)@) == el_u32(out_views(old(ev)@), name@, *o),
{
    if let Some(n) = o {
        out_el(ev, name, crate::text::dec_string(*n as u64));
    }
}

fn out_u16(ev: &mut Vec<XmlOut>, name: &str, o: &Option<u16>)
    ensures
        out_views(final(ev)@) == el_u16(out_views(old(ev)@), name@, *o),
{
    if let Some(n) = o {
        out_el(ev, name, crate::text::dec_string(*n as u64));
    }
}

fn out_bool(ev: &mut Vec<XmlOut>, name: &str, o: &Option<bool>)
    ensures
        out_views(final(ev)@) == el_bool(out_views(old(ev)@), name@, *o),
{
    if let Some(b) = o {
        out_el(ev, name, st(if *b { "True" } else { "False" }));
    }
}

pub open spec fn xml_ds(acc: Seq<XmlOutV>, ds: DataSourceDeclV) -> Seq<XmlOutV> {
    let a = acc.push(XmlOutV::Start("DataSource"@));
    let a = el_opt(a, "DataSourceID"@, ds.data_source_id);
    let a = el_exp(a, "DataSourceType"@, ds.data_source_type);
    let a = el_exp(a, "Classification"@, ds.classification);
    a.push(XmlOutV::End("DataSource"@))
}

pub open spec fn xml_ds_all(acc: Seq<XmlOutV>, m: Seq<(u32, DataSourceDeclV)>) -> Seq<XmlOutV>
    decreases m.len(),
{
    if m.len() == 0 {
        acc
    } else {
        xml_ds(xml_ds_all(acc, m.drop_last()), m.last().1)
    }
}

pub open spec fn xml_comments(acc: Seq<XmlOutV>, cs: Seq<Seq<char>>) -> Seq<XmlOutV>
    decreases cs.len(),
{
    if cs.len() == 0 {
        acc
    } else {
        el(xml_comments(acc, cs.drop_last()), "Comment"@, cs.last())
    }
}

pub open spec fn xml_g(acc: Seq<XmlOutV>, g: GGroupV) -> Seq<XmlOutV> {
    let a = acc.push(XmlOutV::Start("GeneralInformation"@));
    let a = el_opt(a, "ProgramName"@, g.program_name);
    let a = el_opt(a, "Irig106Version"@, g.irig106_version);
    let a = el_date(a, "OriginationDate"@, g.origination_date);
    let a = el_opt(a, "RevisionNumber"@, g.revision_number);
    let a = el_date(a, "RevisionDate"@, g.revision_date);
    let a = el_opt(a, "TestNumber"@, g.test_number);
    let a = xml_ds_all(a, g.data_sources);
    let a = xml_comments(a, g.comments);
    a.push(XmlOutV::End("GeneralInformation"@))
}

fn write_xml_g(ev: &mut Vec<XmlOut>, g: &GGroup)
    ensures
        out_views(final(ev)@) == xml_g(out_views(old(ev)@), g@),
{
    out_push(ev, XmlOut::Start(st("GeneralInformation")));
    out_opt(ev, "ProgramName", &g.program_name);
    out_opt(ev, "Irig106Version", &g.irig106_version);
    out_date(ev, "OriginationDate", &g.origination_date);
    out_opt(ev, "RevisionNumber", &g.revision_number);
    out_date(ev, "RevisionDate", &g.revision_date);
    out_opt(ev, "TestNumber", &g.test_number);
    let ghost acc = out_views(ev@);
    let m = &g.data_sources;
    let n = m.len();
    for i in 0..n
        invariant
            n == m@.len(),
            out_views(ev@) == xml_ds_all(acc, m@.take(i as int)),
    {
        assert(m@.take(i + 1).drop_last() =~= m@.take(i as int));
        let ds = m.value_at(i);
        out_push(ev, XmlOut::Start(st("DataSource")));
        out_opt(ev, "DataSourceID", &ds.data_source_id);
        out_exp(ev, "DataSourceType", &ds.data_source_type);
        out_exp(ev, "Classification", &ds.classification);
        out_push(ev, XmlOut::End(st("DataSource")));
    }
    assert(m@.take(n as int) =~= m@);
    let ghost acc2 = out_views(ev@);
    let ghost cs = texts(g.comments@);
    let n = g.comments.len();
    for i in 0..n
        invariant
            n == g.comments@.len(),
            cs == texts(g.comments@),
            out_views(ev@) == xml_comments(acc2, cs.take(i as int)),
    {
        assert(cs.take(i + 1).drop_last() =~= cs.take(i as int));
        out_el(ev, "Comment", g.comments[i].clone());
    }
    assert(cs.take(n as int) =~= cs);
    out_push(ev, XmlOut::End(st("GeneralInformation")));
}

pub open spec fn xml_channel(acc: Seq<XmlOutV>, ch: RChannelV) -> Seq<XmlOutV> {
    let a = acc.push(XmlOutV::Start("Channel"@));
    let a = el_u16(a, "ChannelID"@, ch.channel_id);
    let a = el_opt(a, "DataType"@, ch.data_type);
    let a = el_opt(a, "DataLinkName"@, ch.data_link_name);
    let a = el_exp(a, "DataPacking"@, ch.data_packing_option);
    let a = el_bool(a, "Enabled"@, ch.channel_enabled);
    a.push(XmlOutV::End("Channel"@))
}

pub open spec fn xml_channels(acc: Seq<XmlOutV>, m: Seq<(u32, RChannelV)>) -> Seq<XmlOutV>
    decreases m.len(),
{
    if m.len() == 0 {
        acc
    } else {
        xml_channel(xml_channels(acc, m.drop_last()), m.last().1)
    }
}

pub open spec fn xml_r(acc: Seq<XmlOutV>, g: RGroupV) -> Seq<XmlOutV> {
    let a = acc.push(XmlOutV::Start("RecorderAttributes"@));
    let a = el_opt(a, "RecorderID"@, g.recorder_id);
    let a = el_opt(a, "Description"@, g.recorder_description);
    let a = xml_channels(a, g.channels);
    let a = el_bool(a, "IndexEnabled"@, g.index_enabled);
    a.push(XmlOutV::End("RecorderAttributes"@))
}

fn write_xml_r(ev: &mut Vec<XmlOut>, g: &RGroup)
    ensures
        out_views(final(ev)@) == xml_r(out_views(old(ev)@), g@),
{
    out_push(ev, XmlOut::Start(st("RecorderAttributes")));
    out_opt(ev, "RecorderID", &g.recorder_id);
    out_opt(ev, "Description", &g.recorder_description);
    let ghost acc = out_views(ev@);
    let m = &g.channels;
    let n = m.len();
    for i in 0..n
        invariant
            n == m@.len(),
            out_views(ev@) == xml_channels(acc, m@.take(i as int)),
    {
        assert(m@.take(i + 1).drop_last() =~= m@.take(i as int));
        let ch = m.value_at(i);
        out_push(ev, XmlOut::Start(st("Channel")));
        out_u16(ev, "ChannelID", &ch.channel_id);
        out_opt(ev, "DataType", &ch.data_type);
        out_opt(ev, "DataLinkName", &ch.data_link_name);
        out_exp(ev, "DataPacking", &ch.data_packing_option);
        out_bool(ev, "Enabled", &ch.channel_enabled);
        out_push(ev, XmlOut::End(st("Channel")));
    }
    assert(m@.take(n as int) =~= m@);
    out_bool(ev, "IndexEnabled", &g.index_enabled);
    out_push(ev, XmlOut::End(st("RecorderAttributes")));
}

pub open spec fn xml_r_all(acc: Seq<XmlOutV>, m: Seq<(u32, RGroupV)>) -> Seq<XmlOutV>
    decreases m.len(),
{
    if m.len() == 0 {
        acc
    } else {
        xml_r(xml_r_all(acc, m.drop_last()), m.last().1)
    }
}

fn write_xml_r_all(ev: &mut Vec<XmlOut>, m: &OrderedMap<RGroup>)
    ensures
        out_views(final(ev)@) == xml_r_all(out_views(old(ev)@), m@),
{
    let ghost acc = out_views(ev@);
    let n = m.len();
    for i in 0..n
        invariant
            n == m@.len(),
            out_views(ev@) == xml_r_all(acc, m@.take(i as int)),
    {
        assert(m@.take(i + 1).drop_last() =~= m@.take(i as int));
        write_xml_r(ev, m.value_at(i));
    }
    assert(m@.take(n as int) =~= m@);
}

pub open spec fn xml_t(acc: Seq<XmlOutV>, g: TGroupV) -> Seq<XmlOutV> {
    let a = acc.push(XmlOutV::Start("TransmissionAttributes"@));
    let a = el_opt(a, "TransmitterID"@, g.transmitter_id);
    let a = el_opt(a, "CarrierFrequency"@, g.carrier_frequency_mhz);
    let a = el_exp(a, "ModulationType"@, g.modulation_type);
    a.push(XmlOutV::End("TransmissionAttributes"@))
}

fn write_xml_t(ev: &mut Vec<XmlOut>, g: &TGroup)
    ensures
        out_views(final(ev)@) == xml_t(out_views(old(ev)@), g@),
{
    out_push(ev, XmlOut::Start(st("TransmissionAttributes")));
    out_opt(ev, "TransmitterID", &g.transmitter_id);
    out_opt(ev, "CarrierFrequency", &g.carrier_frequency_mhz);
    out_exp(ev, "ModulationType", &g.modulation_type);
    out_push(ev, XmlOut::End(st("TransmissionAttributes")));
}

pub open spec fn xml_t_all(acc: Seq<XmlOutV>, m: Seq<(u32, TGroupV)>) -> Seq<XmlOutV>
    decreases m.len(),
{
    if m.len() == 0 {
        acc
    } else {
        xml_t(xml_t_all(acc, m.drop_last()), m.last().1)
    }
}

fn write_xml_t_all(ev: &mut Vec<XmlOut>, m: &OrderedMap<TGroup>)
    ensures
        out_views(final(ev)@) == xml_t_all(out_views(old(ev)@), m@),
{
    let ghost acc = out_views(ev@);
    let n = m.len();
    for i in 0..n
        invariant
            n == m@.len(),
            out_views(ev@) == xml_t_all(acc, m@.take(i as int)),
    {
        assert(m@.take(i + 1).drop_last() =~= m@.take(i as int));
        write_xml_t(ev, m.value_at(i));
    }
    assert(m@.take(n as int) =~= m@);
}

pub open spec fn xml_m(acc: Seq<XmlOutV>, g: MGroupV) -> Seq<XmlOutV> {
    let a = acc.push(XmlOutV::Start("MultiplexAttributes"@));
    let a = el_opt(a, "BasebandSignalType"@, g.baseband_signal_type);
    a.push(XmlOutV::End("MultiplexAttributes"@))
}

fn write_xml_m(ev: &mut Vec<XmlOut>, g: &MGroup)
    ensures
        out_views(final(ev)@) == xml_m(out_views(old(ev)@), g@),
{
    out_push(ev, XmlOut::Start(st("MultiplexAttributes")));
    out_opt(ev, "BasebandSignalType", &g.baseband_signal_type);
    out_push(ev, XmlOut::End(st("MultiplexAttributes")));
}

pub open spec fn xml_m_all(acc: Seq<XmlOutV>, m: Seq<(u32, MGroupV)>) -> Seq<XmlOutV>
    decreases m.len(),
{
    if m.len() == 0 {
        acc
    } else {
        xml_m(xml_m_all(acc, m.drop_last()), m.last().1)
    }
}

fn write_xml_m_all(ev: &mut Vec<XmlOut>, m: &OrderedMap<MGroup>)
    ensures
        out_views(final(ev)@) == xml_m_all(out_views(old(ev)@), m@),
{
    let ghost acc = out_views(ev@);
    let n = m.len();
    for i in 0..n
        invariant
            n == m@.len(),
            out_views(ev@) == xml_m_all(acc, m@.take(i as int)),
    {
        assert(m@.take(i + 1).drop_last() =~= m@.take(i as int));
        write_xml_m(ev, m.value_at(i));
    }
    assert(m@.take(n as int) =~= m@);
}

pub open spec fn xml_p(acc: Seq<XmlOutV>, g: PGroupV) -> Seq<XmlOutV> {
    let a = acc.push(XmlOutV::Start("PCMFormatAttributes"@));
    let a = el_opt(a, "DataLinkName"@, g.data_link_name);
    let a = el_opt(a, "BitRate"@, g.bit_rate);
    let a = el_exp(a, "Encoding"@, g.encoding);
    let a = el_exp(a, "Polarity"@, g.polarity);
    let a = el_u32(a, "WordsPerFrame"@, g.num_words_per_frame);
    let a = el_u32(a, "BitsPerWord"@, g.num_bits_per_word);
    let a = el_opt(a, "SyncPattern"@, g.sync_pattern);
    let a = el_u32(a, "SyncPatternLength"@, g.sync_pattern_length);
    a.push(XmlOutV::End("PCMFormatAttributes"@))
}

fn write_xml_p(ev: &mut Vec<XmlOut>, g: &PGroup)
    ensures
        out_views(final(ev)@) == xml_p(out_views(old(ev)@), g@),
{
    out_push(ev, XmlOut::Start(st("PCMFormatAttributes")));
    out_opt(ev, "DataLinkName", &g.data_link_name);
    out_opt(ev, "BitRate", &g.bit_rate);
    out_exp(ev, "Encoding", &g.encoding);
    out_exp(ev, "Polarity", &g.polarity);
    out_u32(ev, "WordsPerFrame", &g.num_words_per_frame);
    out_u32(ev, "BitsPerWord", &g.num_bits_per_word);
    out_opt(ev, "SyncPattern", &g.sync_pattern);
    out_u32(ev, "SyncPatternLength", &g.sync_pattern_length);
    out_push(ev, XmlOut::End(st("PCMFormatAttributes")));
}

pub open spec fn xml_p_all(acc: Seq<XmlOutV>, m: Seq<(u32, PGroupV)>) -> Seq<XmlOutV>
    decreases m.len(),
{
    if m.len() == 0 {
        acc
    } else {
        xml_p(xml_p_all(acc, m.drop_last()), m.last().1)
    }
}

fn write_xml_p_all(ev: &mut Vec<XmlOut>, m: &OrderedMap<PGroup>)
    ensures
        out_views(final(ev)@) == xml_p_all(out_views(old(ev)@), m@),
{
    let ghost acc = out_views(ev@);
    let n = m.len();
    for i in 0..n
        invariant
            n == m@.len(),
            out_views(ev@) == xml_p_all(acc, m@.take(i as int)),
    {
        assert(m@.take(i + 1).drop_last() =~= m@.take(i as int));
        write_xml_p(ev, m.value_at(i));
    }
    assert(m@.take(n as int) =~= m@);
}

pub open spec fn xml_d(acc: Seq<XmlOutV>, g: DGroupV) -> Seq<XmlOutV> {
    let a = acc.push(XmlOutV::Start("PCMMeasurementDescription"@));
    let a = el_opt(a, "MeasurementListName"@, g.measurement_list_name);
    let a = el_opt(a, "DataLinkName"@, g.data_link_name);
    a.push(XmlOutV::End("PCMMeasurementDescription"@))
}

fn write_xml_d(ev: &mut Vec<XmlOut>, g: &DGroup)
    ensures
        out_views(final(ev)@) == xml_d(out_views(old(ev)@), g@),
{
    out_push(ev, XmlOut::Start(st("PCMMeasurementDescription")));
    out_opt(ev, "MeasurementListName", &g.measurement_list_name);
    out_opt(ev, "DataLinkName", &g.data_link_name);
    out_push(ev, XmlOut::End(st("PCMMeasurementDescription")));
}

pub open spec fn xml_d_all(acc: Seq<XmlOutV>, m: Seq<(u32, DGroupV)>) -> Seq<XmlOutV>
    decreases m.len(),
{
    if m.len() == 0 {
        acc
    } else {
        xml_d(xml_d_all(acc, m.drop_last()), m.last().1)
    }
}

fn write_xml_d_all(ev: &mut Vec<XmlOut>, m: &OrderedMap<DGroup>)
    ensures
        out_views(final(ev)@) == xml_d_all(out_views(old(ev)@), m@),
{
    let ghost acc = out_views(ev@);
    let n = m.len();
    for i in 0..n
        invariant
            n == m@.len(),
            out_views(ev@) == xml_d_all(acc, m@.take(i as int)),
    {
        assert(m@.take(i + 1).drop_last() =~= m@.take(i as int));
        write_xml_d(ev, m.value_at(i));
    }
    assert(m@.take(n as int) =~= m@);
}

pub open spec fn xml_b(acc: Seq<XmlOutV>, g: BGroupV) -> Seq<XmlOutV> {
    let a = acc.push(XmlOutV::Start("BusDataAttributes"@));
    let a = el_opt(a, "DataLinkName"@, g.data_link_name);
    let a = el_exp(a, "BusType"@, g.bus_type);
    a.push(XmlOutV::End("BusDataAttributes"@))
}

fn write_xml_b(ev: &mut Vec<XmlOut>, g: &BGroup)
    ensures
        out_views(final(ev)@) == xml_b(out_views(old(ev)@), g@),
{
    out_push(ev, XmlOut::Start(st("BusDataAttributes")));
    out_opt(ev, "DataLinkName", &g.data_link_name);
    out_exp(ev, "BusType", &g.bus_type);
    out_push(ev, XmlOut::End(st("BusDataAttributes")));
}

pub open spec fn xml_b_all(acc: Seq<XmlOutV>, m: Seq<(u32, BGroupV)>) -> Seq<XmlOutV>
    decreases m.len(),
{
    if m.len() == 0 {
        acc
    } else {
        xml_b(xml_b_all(acc, m.drop_last()), m.last().1)
    }
}

fn write_xml_b_all(ev: &mut Vec<XmlOut>, m: &OrderedMap<BGroup>)
    ensures
        out_views(final(ev)@) == xml_b_all(out_views(old(ev)@), m@),
{
    let ghost acc = out_views(ev@);
    let n = m.len();
    for i in 0..n
        invariant
            n == m@.len(),
            out_views(ev@) == xml_b_all(acc, m@.take(i as int)),
    {
        assert(m@.take(i + 1).drop_last() =~= m@.take(i as int));
        write_xml_b(ev, m.value_at(i));
    }
    assert(m@.take(n as int) =~= m@);
}

pub open spec fn xml_s(acc: Seq<XmlOutV>, g: SGroupV) -> Seq<XmlOutV> {
    let a = acc.push(XmlOutV::Start("MessageDataAttributes"@));
    let a = el_opt(a, "DataLinkName"@, g.data_link_name);
    a.push(XmlOutV::End("MessageDataAttributes"@))
}

fn write_xml_s(ev: &mut Vec<XmlOut>, g: &SGroup)
    ensures
        out_views(final(ev)@) == xml_s(out_views(old(ev)@), g@),
{
    out_push(ev, XmlOut::Start(st("MessageDataAttributes")));
    out_opt(ev, "DataLinkName", &g.data_link_name);
    out_push(ev, XmlOut::End(st("MessageDataAttributes")));
}

pub open spec fn xml_s_all(acc: Seq<XmlOutV>, m: Seq<(u32, SGroupV)>) -> Seq<XmlOutV>
    decreases m.len(),
{
    if m.len() == 0 {
        acc
    } else {
        xml_s(xml_s_all(acc, m.drop_last()), m.last().1)
    }
}

fn write_xml_s_all(ev: &mut Vec<XmlOut>, m: &OrderedMap<SGroup>)
    ensures
        out_views(final(ev)@) == xml_s_all(out_views(old(ev)@), m@),
{
    let ghost acc = out_views(ev@);
    let n = m.len();
    for i in 0..n
        invariant
            n == m@.len(),
            out_views(ev@) == xml_s_all(acc, m@.take(i as int)),
    {
        assert(m@.take(i + 1).drop_last() =~= m@.take(i as int));
        write_xml_s(ev, m.value_at(i));
    }
    assert(m@.take(n as int) =~= m@);
}

pub open spec fn xml_c(acc: Seq<XmlOutV>, g: CGroupV) -> Seq<XmlOutV> {
    let a = acc.push(XmlOutV::Start("DataConversionAttributes"@));
    let a = el_opt(a, "MeasurementName"@, g.measurement_name);
    let a = el_exp(a, "ConversionType"@, g.conversion_type);
    let a = el_opt(a, "EngineeringUnits"@, g.eu_units);
    a.push(XmlOutV::End("DataConversionAttributes"@))
}

fn write_xml_c(ev: &mut Vec<XmlOut>, g: &CGroup)
    ensures
        out_views(final(ev)@) == xml_c(out_views(old(ev)@), g@),
{
    out_push(ev, XmlOut::Start(st("DataConversionAttributes")));
    out_opt(ev, "MeasurementName", &g.measurement_name);
    out_exp(ev, "ConversionType", &g.conversion_type);
    out_opt(ev, "EngineeringUnits", &g.eu_units);
    out_push(ev, XmlOut::End(st("DataConversionAttributes")));
}

pub open spec fn xml_c_all(acc: Seq<XmlOutV>, m: Seq<(u32, CGroupV)>) -> Seq<XmlOutV>
    decreases m.len(),
{
    if m.len() == 0 {
        acc
    } else {
        xml_c(xml_c_all(acc, m.drop_last()), m.last().1)
    }
}

fn write_xml_c_all(ev: &mut Vec<XmlOut>, m: &OrderedMap<CGroup>)
    ensures
        out_views(final(ev)@) == xml_c_all(out_views(old(ev)@), m@),
{
    let ghost acc = out_views(ev@);
    let n = m.len();
    for i in 0..n
        invariant
            n == m@.len(),
            out_views(ev@) == xml_c_all(acc, m@.take(i as int)),
    {
        assert(m@.take(i + 1).drop_last() =~= m@.take(i as int));
        write_xml_c(ev, m.value_at(i));
    }
    assert(m@.take(n as int) =~= m@);
}

/// The XML events of a document: the declaration, then the `Tmats` root
/// holding the groups in canonical order.
pub open spec fn xml_doc_events(d: TmatsDocumentV) -> Seq<XmlOutV> {
    let a = seq![XmlOutV::Decl, XmlOutV::Start("Tmats"@)];
    let a = xml_g(a, d.general);
    let a = xml_t_all(a, d.transmission);
    let a = xml_r_all(a, d.recorders);
    let a = xml_m_all(a, d.multiplex);
    let a = xml_p_all(a, d.pcm_formats);
    let a = xml_d_all(a, d.pcm_measurements);
    let a = xml_b_all(a, d.bus_data);
    let a = xml_s_all(a, d.message_data);
    let a = xml_c_all(a, d.data_conversion);
    a.push(XmlOutV::End("Tmats"@))
}

/// The XML events of a document.
pub fn xml_events(doc: &TmatsDocument) -> (r: Vec<XmlOut>)
    ensures
        out_views(r@) == xml_doc_events(doc@),
{
    let mut ev: Vec<XmlOut> = Vec::new();
    out_push(&mut ev, XmlOut::Decl);
    out_push(&mut ev, XmlOut::Start(st("Tmats")));
    assert(out_views(ev@) =~= seq![XmlOutV::Decl, XmlOutV::Start("Tmats"@)]);
    write_xml_g(&mut ev, &doc.general);
    write_xml_t_all(&mut ev, &doc.transmission);
    write_xml_r_all(&mut ev, &doc.recorders);
    write_xml_m_all(&mut ev, &doc.multiplex);
    write_xml_p_all(&mut ev, &doc.pcm_formats);
    write_xml_d_all(&mut ev, &doc.pcm_measurements);
    write_xml_b_all(&mut ev, &doc.bus_data);
    write_xml_s_all(&mut ev, &doc.message_data);
    write_xml_c_all(&mut ev, &doc.data_conversion);
    out_push(&mut ev, XmlOut::End(st("Tmats")));
    ev
}

#[verifier::external_type_specification]
#[verifier::external_body]
#[verifier::reject_recursive_types(W)]
pub struct ExXmlWriter<W>(Writer<W>);

/// What an indenting writer over a byte vector holds: the bytes it has
/// written, its current indentation width in spaces, and whether it puts a
/// line break before the next markup.
pub uninterp spec fn xml_writer_state(w: Writer<Vec<u8>>) -> (Seq<u8>, nat, bool);

/// A character as escaped text content: `<`, `>`, `&`, `'` and `"` become
/// `&lt;`, `&gt;`, `&amp;`, `&apos;` and `&quot;`; every other is kept.
pub open spec fn escape_char(c: char) -> Seq<char> {
    if c == '<' {
        "&lt;"@
    } else if c == '>' {
        "&gt;"@
    } else if c == '&' {
        "&amp;"@
    } else if c == '\'' {
        "&apos;"@
    } else if c == '"' {
        "&quot;"@
    } else {
        seq![c]
    }
}

/// Text with every character escaped.
pub open spec fn escape_text(t: Seq<char>) -> Seq<char>
    decreases t.len(),
{
    if t.len() == 0 {
        Seq::empty()
    } else {
        escape_text(t.drop_last()) + escape_char(t.last())
    }
}

/// The markup of one event: the declaration, `<name>`, `</name>`, or the
/// escaped text, as UTF-8 bytes.
pub open spec fn event_markup(e: XmlOutV) -> Seq<u8> {
    match e {
        XmlOutV::Decl => encode_utf8("<?xml version=\"1.0\" encoding=\"UTF-8\"?>"@),
        XmlOutV::Start(n) => encode_utf8(seq!['<'] + n + seq!['>']),
        XmlOutV::End(n) => encode_utf8(seq!['<', '/'] + n + seq!['>']),
        XmlOutV::Text(t) => encode_utf8(escape_text(t)),
    }
}

/// `n` spaces.
pub open spec fn spaces(n: nat) -> Seq<u8> {
    Seq::new(n, |i: int| 32u8)
}

/// The indentation width an event's markup is written at, the width being
/// `ind`: an end tag one level (two spaces) shallower, never below zero.
pub open spec fn indent_at(e: XmlOutV, ind: nat) -> nat {
    if e is End {
        if ind >= 2 { (ind - 2) as nat } else { 0 }
    } else {
        ind
    }
}

/// The indentation width after an event: one level deeper after a start tag.
pub open spec fn indent_after(e: XmlOutV, ind: nat) -> nat {
    if e is Start { ind + 2 } else { indent_at(e, ind) }
}

/// The whitespace the writer puts before an event: none before text or when
/// the previous event was text; otherwise a line break and the indentation.
pub open spec fn event_gap(e: XmlOutV, ind: nat, brk: bool) -> Seq<u8> {
    if e is Text || !brk {
        Seq::empty()
    } else {
        seq![10u8] + spaces(indent_at(e, ind))
    }
}

/// The writer's state after writing one more event.
pub open spec fn write_step(st: (Seq<u8>, nat, bool), e: XmlOutV) -> (Seq<u8>, nat, bool) {
    (st.0 + event_gap(e, st.1, st.2) + event_markup(e), indent_after(e, st.1), !(e is Text))
}

/// `Writer::new_with_indent` over a new byte vector, indenting by two spaces:
/// no bytes yet, width zero, no line break before the first markup.
#[verifier::external_body]
fn xml_writer_new() -> (w: Writer<Vec<u8>>)
    ensures
        xml_writer_state(w) == (Seq::<u8>::empty(), 0nat, false),
{
    Writer::new_with_indent(Vec::new(), b' ', 2)
}

/// `Writer::write_event`: writes one event.  Its only failure is one of the
/// inner writer's `write_all`, and writing into a byte vector does not fail,
/// so it succeeds.  Before markup other than text it writes a line break and
/// the current indentation when the previous event was not text (an end tag
/// first shrinks the width by two, never below zero); then the markup (names
/// as given, text escaped).  A start tag then grows the width by two, which
/// must fit in a `usize`.  After text no line break follows.
#[verifier::external_body]
fn xml_write(w: &mut Writer<Vec<u8>>, e: &XmlOut) -> (r: Result<(), String>)
    requires
        e@ is Start ==> xml_writer_state(*old(w)).1 + 2 <= usize::MAX,
    ensures
        r is Ok,
        xml_writer_state(*final(w)) == write_step(xml_writer_state(*old(w)), e@),
{
    let ev = match e {
        XmlOut::Decl => Event::Decl(BytesDecl::new("1.0", Some("UTF-8"), None)),
        XmlOut::Start(n) => Event::Start(BytesStart::new(n.as_str())),
        XmlOut::End(n) => Event::End(BytesEnd::new(n.as_str())),
        XmlOut::Text(t) => Event::Text(BytesText::new(t.as_str())),
    };
    w.write_event(ev).map_err(|err| err.to_string())
}

/// `Writer::into_inner`: the bytes written.
#[verifier::external_body]
fn xml_writer_bytes(w: Writer<Vec<u8>>) -> (r: Vec<u8>)
    ensures
        r@ == xml_writer_state(w).0,
{
    w.into_inner()
}

/// The writer's state after writing the events `es` into a new writer.
pub open spec fn xml_state(es: Seq<XmlOutV>) -> (Seq<u8>, nat, bool)
    decreases es.len(),
{
    if es.len() == 0 {
        (Seq::empty(), 0, false)
    } else {
        write_step(xml_state(es.drop_last()), es.last())
    }
}

/// The XML text of the events `es`: their markup in order, indented by two
/// spaces per open element.
pub open spec fn xml_bytes(es: Seq<XmlOutV>) -> Seq<u8> {
    xml_state(es).0
}

/// Whether the indentation width stays within a `usize` while `es` is written.
pub open spec fn indent_fits(es: Seq<XmlOutV>) -> bool {
    forall|j: int| 0 <= j < es.len() && (#[trigger] es[j]) is Start ==> xml_state(es.take(j)).1 + 2 <= usize::MAX
}

/// Serialize a document as TMATS XML into a new buffer: the XML text of the
/// document's events.  Only nesting deeper than the indentation width can
/// count fails.
pub fn serialize_xml_to_vec(doc: &TmatsDocument) -> (r: Result<Vec<u8>, TmatsError>)
    ensures
        indent_fits(xml_doc_events(doc@)) ==> (r matches Ok(b) && b@ == xml_bytes(xml_doc_events(doc@))),
        !indent_fits(xml_doc_events(doc@)) ==> (r matches Err(TmatsError::Xml(x))
            && x.message@ == "XML nesting too deep"@),
{
    let events = xml_events(doc);
    let ghost es = out_views(events@);
    let mut w = xml_writer_new();
    let mut ind: usize = 0;
    let n = events.len();
    for i in 0..n
        invariant
            n == events@.len(),
            es == out_views(events@),
            es == xml_doc_events(doc@),
            xml_writer_state(w) == xml_state(es.take(i as int)),
            ind == xml_state(es.take(i as int)).1,
            forall|j: int| 0 <= j < i && (#[trigger] es[j]) is Start ==> xml_state(es.take(j)).1 + 2 <= usize::MAX,
    {
        let e = &events[i];
        assert(e@ == es[i as int]);
        assert(es.take(i + 1).drop_last() =~= es.take(i as int));
        assert(es.take(i + 1).last() == es[i as int]);
        match e {
            XmlOut::Start(_) => {
                if ind > usize::MAX - 2 {
                    assert(es[i as int] is Start && !(xml_state(es.take(i as int)).1 + 2 <= usize::MAX));
                    assert(!indent_fits(es));
                    let mut m = String::new();
                    push_str(&mut m, "XML nesting too deep");
                    return Err(TmatsError::Xml(XmlError { message: m }));
                }
                ind = ind + 2;
            },
            XmlOut::End(_) => {
                if ind >= 2 {
                    ind = ind - 2;
                } else {
                    ind = 0;
                }
            },
            _ => {},
        }
        match xml_write(&mut w, e) {
            Ok(()) => {},
            Err(m) => return Err(TmatsError::Xml(XmlError { message: m })),
        }
    }
    assert(es.take(n as int) =~= es);
    let b = xml_writer_bytes(w);
    Ok(b)
}

/// Serialize a document as TMATS XML, appending to `out`: `out` gains the
/// XML text of the document's events.
pub fn serialize_xml(doc: &TmatsDocument, out: &mut Vec<u8>) -> (r: Result<(), TmatsError>)
    ensures
        indent_fits(xml_doc_events(doc@)) ==> r is Ok && final(out)@ == old(out)@ + xml_bytes(xml_doc_events(doc@)),
        !indent_fits(xml_doc_events(doc@)) ==> (r matches Err(TmatsError::Xml(x))
            && x.message@ == "XML nesting too deep"@ && final(out)@ == old(out)@),
{
    let bytes = match serialize_xml_to_vec(doc) {
        Ok(b) => b,
        Err(e) => return Err(e),
    };
    let ghost before = out@;
    let n = bytes.len();
    for i in 0..n
        invariant
            n == bytes@.len(),
            out@ == before + bytes@.take(i as int),
    {
        out.push(bytes[i]);
        assert(out@ =~= before + bytes@.take(i + 1));
    }
    assert(bytes@.take(n as int) =~= bytes@);
    Ok(())
}

// ─── Reading ────────────────────────────────────────────────────────────────

/// An XML event as the reader reports it, names and text decoded.  Events
/// that carry nothing for TMATS (comments, declarations, processing
/// instructions, CDATA, self-closing elements) are `Other`.
#[derive(Debug, Clone)]
pub enum XmlEvent {
    Start(String),
    End(String),
    Text(String),
    Eof,
    Other,
}

/// The model of an [`XmlEvent`].
pub enum XmlEventV {
    Start(Seq<char>),
    End(Seq<char>),
    Text(Seq<char>),
    Eof,
    Other,
}

impl View for XmlEvent {
    type V = XmlEventV;

    open spec fn view(&self) -> XmlEventV {
        match self {
            XmlEvent::Start(n) => XmlEventV::Start(n@),
            XmlEvent::End(n) => XmlEventV::End(n@),
            XmlEvent::Text(t) => XmlEventV::Text(t@),
            XmlEvent::Eof => XmlEventV::Eof,
            XmlEvent::Other => XmlEventV::Other,
        }
    }
}

/// What closing an element does, by the element's name and its parent's.
#[derive(Debug, Clone, Copy, PartialEq, Eq, Structural)]
pub enum EndKind {
    ProgramName,
    Irig106Version,
    OriginationDate,
    RevisionNumber,
    RevisionDate,
    TestNumber,
    Comment,
    DataSourceId,
    DataSourceType,
    Classification,
    DataSourceDone,
    RecorderId,
    ChannelId,
    ChannelDataType,
    ChannelLink,
    ChannelPacking,
    ChannelDone,
    RecorderDone,
    PcmLink,
    PcmBitRate,
    PcmEncoding,
    BusLink,
    BusType,
    ConversionName,
    ConversionType,
    ConversionUnits,
    Ignored,
}

/// The routing table of closing elements.
pub open spec fn end_kind(parent: Option<Seq<char>>, name: Seq<char>) -> EndKind {
    if parent == Some("GeneralInformation"@) && name == "ProgramName"@ {
        EndKind::ProgramName
    } else if parent == Some("GeneralInformation"@) && name == "Irig106Version"@ {
        EndKind::Irig106Version
    } else if parent == Some("GeneralInformation"@) && name == "OriginationDate"@ {
        EndKind::OriginationDate
    } else if parent == Some("GeneralInformation"@) && name == "RevisionNumber"@ {
        EndKind::RevisionNumber
    } else if parent == Some("GeneralInformation"@) && name == "RevisionDate"@ {
        EndKind::RevisionDate
    } else if parent == Some("GeneralInformation"@) && name == "TestNumber"@ {
        EndKind::TestNumber
    } else if parent == Some("GeneralInformation"@) && name == "Comment"@ {
        EndKind::Comment
    } else if parent == Some("DataSource"@) && name == "DataSourceID"@ {
        EndKind::DataSourceId
    } else if parent == Some("DataSource"@) && name == "DataSourceType"@ {
        EndKind::DataSourceType
    } else if parent == Some("DataSource"@) && name == "Classification"@ {
        EndKind::Classification
    } else if name == "DataSource"@ {
        EndKind::DataSourceDone
    } else if parent == Some("RecorderAttributes"@) && name == "RecorderID"@ {
        EndKind::RecorderId
    } else if parent == Some("Channel"@) && name == "ChannelID"@ {
        EndKind::ChannelId
    } else if parent == Some("Channel"@) && name == "DataType"@ {
        EndKind::ChannelDataType
    } else if parent == Some("Channel"@) && name == "DataLinkName"@ {
        EndKind::ChannelLink
    } else if parent == Some("Channel"@) && name == "DataPacking"@ {
        EndKind::ChannelPacking
    } else if name == "Channel"@ {
        EndKind::ChannelDone
    } else if name == "RecorderAttributes"@ {
        EndKind::RecorderDone
    } else if parent == Some("PCMFormatAttributes"@) && name == "DataLinkName"@ {
        EndKind::PcmLink
    } else if parent == Some("PCMFormatAttributes"@) && name == "BitRate"@ {
        EndKind::PcmBitRate
    } else if parent == Some("PCMFormatAttributes"@) && name == "Encoding"@ {
        EndKind::PcmEncoding
    } else if parent == Some("BusDataAttributes"@) && name == "DataLinkName"@ {
        EndKind::BusLink
    } else if parent == Some("BusDataAttributes"@) && name == "BusType"@ {
        EndKind::BusType
    } else if parent == Some("DataConversionAttributes"@) && name == "MeasurementName"@ {
        EndKind::ConversionName
    } else if parent == Some("DataConversionAttributes"@) && name == "ConversionType"@ {
        EndKind::ConversionType
    } else if parent == Some("DataConversionAttributes"@) && name == "EngineeringUnits"@ {
        EndKind::ConversionUnits
    } else {
        EndKind::Ignored
    }
}

fn is_some_of(p: &Option<Vec<char>>, lit: &str) -> (r: bool)
    ensures
        r == (opt_chars(*p) == Some(lit@)),
{
    match p {
        Some(v) => chars_eq_str(v, lit),
        None => false,
    }
}

pub open spec fn opt_chars(p: Option<Vec<char>>) -> Option<Seq<char>> {
    match p {
        Some(v) => Some(v@),
        None => None,
    }
}

/// The routing table of closing elements.
fn classify_end(parent: &Option<Vec<char>>, name: &Vec<char>) -> (k: EndKind)
    ensures
        k == end_kind(opt_chars(*parent), name@),
{
    let gi = is_some_of(parent, "GeneralInformation");
    let ds = is_some_of(parent, "DataSource");
    let rec = is_some_of(parent, "RecorderAttributes");
    let ch = is_some_of(parent, "Channel");
    let pcm = is_some_of(parent, "PCMFormatAttributes");
    let bus = is_some_of(parent, "BusDataAttributes");
    let conv = is_some_of(parent, "DataConversionAttributes");
    if gi && chars_eq_str(name, "ProgramName") {
        EndKind::ProgramName
    } else if gi && chars_eq_str(name, "Irig106Version") {
        EndKind::Irig106Version
    } else if gi && chars_eq_str(name, "OriginationDate") {
        EndKind::OriginationDate
    } else if gi && chars_eq_str(name, "RevisionNumber") {
        EndKind::RevisionNumber
    } else if gi && chars_eq_str(name, "RevisionDate") {
        EndKind::RevisionDate
    } else if gi && chars_eq_str(name, "TestNumber") {
        EndKind::TestNumber
    } else if gi && chars_eq_str(name, "Comment") {
        EndKind::Comment
    } else if ds && chars_eq_str(name, "DataSourceID") {
        EndKind::DataSourceId
    } else if ds && chars_eq_str(name, "DataSourceType") {
        EndKind::DataSourceType
    } else if ds && chars_eq_str(name, "Classification") {
        EndKind::Classification
    } else if chars_eq_str(name, "DataSource") {
        EndKind::DataSourceDone
    } else if rec && chars_eq_str(name, "RecorderID") {
        EndKind::RecorderId
    } else if ch && chars_eq_str(name, "ChannelID") {
        EndKind::ChannelId
    } else if ch && chars_eq_str(name, "DataType") {
        EndKind::ChannelDataType
    } else if ch && chars_eq_str(name, "DataLinkName") {
        EndKind::ChannelLink
    } else if ch && chars_eq_str(name, "DataPacking") {
        EndKind::ChannelPacking
    } else if chars_eq_str(name, "Channel") {
        EndKind::ChannelDone
    } else if chars_eq_str(name, "RecorderAttributes") {
        EndKind::RecorderDone
    } else if pcm && chars_eq_str(name, "DataLinkName") {
        EndKind::PcmLink
    } else if pcm && chars_eq_str(name, "BitRate") {
        EndKind::PcmBitRate
    } else if pcm && chars_eq_str(name, "Encoding") {
        EndKind::PcmEncoding
    } else if bus && chars_eq_str(name, "DataLinkName") {
        EndKind::BusLink
    } else if bus && chars_eq_str(name, "BusType") {
        EndKind::BusType
    } else if conv && chars_eq_str(name, "MeasurementName") {
        EndKind::ConversionName
    } else if conv && chars_eq_str(name, "ConversionType") {
        EndKind::ConversionType
    } else if conv && chars_eq_str(name, "EngineeringUnits") {
        EndKind::ConversionUnits
    } else {
        EndKind::Ignored
    }
}

/// The parent of the element being closed: the element before the last on
/// the open path, or the only one when a single element is open.
pub open spec fn parent_of(path: Seq<Seq<char>>) -> Option<Seq<char>> {
    if path.len() >= 2 {
        Some(path[path.len() - 2])
    } else if path.len() == 1 {
        Some(path[0])
    } else {
        None
    }
}

/// What the reader has gathered so far: the document, the names of the open
/// elements, the text of the element being read, and the data source,
/// channel and recorder being assembled with their counters.
pub struct XmlRead {
    pub doc: TmatsDocument,
    pub path: Vec<String>,
    pub text: String,
    pub ds: Option<DataSourceDecl>,
    pub ds_idx: u32,
    pub ch: Option<RChannel>,
    pub ch_idx: u32,
    pub rg: Option<RGroup>,
}

/// The model of an [`XmlRead`].
pub struct XmlReadV {
    pub doc: TmatsDocumentV,
    pub path: Seq<Seq<char>>,
    pub text: Seq<char>,
    pub ds: Option<DataSourceDeclV>,
    pub ds_idx: u32,
    pub ch: Option<RChannelV>,
    pub ch_idx: u32,
    pub rg: Option<RGroupV>,
}

pub open spec fn opt_view<T: View>(o: Option<T>) -> Option<T::V> {
    match o {
        Some(x) => Some(x@),
        None => None,
    }
}

impl View for XmlRead {
    type V = XmlReadV;

    open spec fn view(&self) -> XmlReadV {
        XmlReadV {
            doc: self.doc@,
            path: texts(self.path@),
            text: self.text@,
            ds: opt_view(self.ds),
            ds_idx: self.ds_idx,
            ch: opt_view(self.ch),
            ch_idx: self.ch_idx,
            rg: opt_view(self.rg),
        }
    }
}

/// The state before the first event.
pub open spec fn xml_read_start() -> XmlReadV {
    XmlReadV {
        doc: TmatsDocumentV::empty(),
        path: Seq::empty(),
        text: Seq::empty(),
        ds: None,
        ds_idx: 0,
        ch: None,
        ch_idx: 0,
        rg: None,
    }
}

pub open spec fn ds_or_default(o: Option<DataSourceDeclV>) -> DataSourceDeclV {
    match o {
        Some(d) => d,
        None => DataSourceDecl::default_model(),
    }
}

pub open spec fn ch_or_default(o: Option<RChannelV>) -> RChannelV {
    match o {
        Some(c) => c,
        None => RChannel::default_model(),
    }
}

pub open spec fn rg_or_default(o: Option<RGroupV>) -> RGroupV {
    match o {
        Some(r) => r,
        None => RGroup::default_model(),
    }
}

/// The G group after closing one of its elements holding `t`.
pub open spec fn end_general(g: GGroupV, k: EndKind, t: Seq<char>) -> GGroupV {
    match k {
        EndKind::ProgramName => GGroupV { program_name: Some(t), ..g },
        EndKind::Irig106Version => GGroupV { irig106_version: Some(t), ..g },
        EndKind::OriginationDate => GGroupV { origination_date: date_from_parts(t, true), ..g },
        EndKind::RevisionNumber => GGroupV { revision_number: Some(t), ..g },
        EndKind::RevisionDate => GGroupV { revision_date: date_from_parts(t, true), ..g },
        EndKind::TestNumber => GGroupV { test_number: Some(t), ..g },
        _ => GGroupV { comments: g.comments.push(t), ..g },
    }
}

pub open spec fn is_general(k: EndKind) -> bool {
    ||| k == EndKind::ProgramName
    ||| k == EndKind::Irig106Version
    ||| k == EndKind::OriginationDate
    ||| k == EndKind::RevisionNumber
    ||| k == EndKind::RevisionDate
    ||| k == EndKind::TestNumber
    ||| k == EndKind::Comment
}

/// The channel being assembled after closing one of its elements holding `t`.
pub open spec fn end_channel_field(c: RChannelV, k: EndKind, t: Seq<char>) -> RChannelV {
    match k {
        EndKind::ChannelId => RChannelV { channel_id: u16_of_text(t), ..c },
        EndKind::ChannelDataType => RChannelV { data_type: Some(t), ..c },
        EndKind::ChannelLink => RChannelV { data_link_name: Some(t), ..c },
        _ => RChannelV { data_packing_option: Some(collapse_spec(t)), ..c },
    }
}

/// The data source being assembled after closing one of its elements holding `t`.
pub open spec fn end_source_field(d: DataSourceDeclV, k: EndKind, t: Seq<char>) -> DataSourceDeclV {
    match k {
        EndKind::DataSourceId => DataSourceDeclV { data_source_id: Some(t), ..d },
        EndKind::DataSourceType => DataSourceDeclV { data_source_type: Some(collapse_spec(t)), ..d },
        _ => DataSourceDeclV { classification: Some(collapse_spec(t)), ..d },
    }
}

/// The index a new group of a map of `n` entries is stored under: `n + 1`
/// as a `u32`.
pub open spec fn next_key(n: nat) -> u32 {
    (n as u32).wrapping_add(1)
}

/// The state after closing an element of kind `k` whose text, trimmed, is `t`.
#[verifier::opaque]
pub open spec fn end_apply(s: XmlReadV, k: EndKind, t: Seq<char>) -> XmlReadV {
    let d = s.doc;
    if is_general(k) {
        let g = end_general(d.general, k, t);
        let v = if k == EndKind::Irig106Version {
            Irig106Version::spec_from_g106(t)
        } else {
            d.source_version
        };
        XmlReadV { doc: TmatsDocumentV { general: g, source_version: v, ..d }, ..s }
    } else {
        match k {
            EndKind::DataSourceId | EndKind::DataSourceType | EndKind::Classification => XmlReadV {
                ds: Some(end_source_field(ds_or_default(s.ds), k, t)),
                ..s
            },
            EndKind::DataSourceDone => match s.ds {
                Some(x) => {
                    let i = s.ds_idx.wrapping_add(1);
                    let g = GGroupV { data_sources: assoc_put(d.general.data_sources, i, x), ..d.general };
                    XmlReadV { doc: TmatsDocumentV { general: g, ..d }, ds: None, ds_idx: i, ..s }
                },
                None => s,
            },
            EndKind::RecorderId => XmlReadV {
                rg: Some(RGroupV { recorder_id: Some(t), ..rg_or_default(s.rg) }),
                ..s
            },
            EndKind::ChannelId | EndKind::ChannelDataType | EndKind::ChannelLink | EndKind::ChannelPacking => XmlReadV {
                ch: Some(end_channel_field(ch_or_default(s.ch), k, t)),
                ..s
            },
            EndKind::ChannelDone => match s.ch {
                Some(c) => {
                    let i = s.ch_idx.wrapping_add(1);
                    let r = match s.rg {
                        Some(r) => Some(RGroupV { channels: assoc_put(r.channels, i, c), ..r }),
                        None => None,
                    };
                    XmlReadV { ch: None, ch_idx: i, rg: r, ..s }
                },
                None => s,
            },
            EndKind::RecorderDone => match s.rg {
                Some(r) => {
                    let r2 = RGroupV { num_channels: Some(r.channels.len() as u32), ..r };
                    let i = next_key(d.recorders.len());
                    XmlReadV {
                        doc: TmatsDocumentV { recorders: assoc_put(d.recorders, i, r2), ..d },
                        rg: None,
                        ch_idx: 0,
                        ..s
                    }
                },
                None => s,
            },
            EndKind::PcmLink => {
                let i = next_key(d.pcm_formats.len());
                let p = or_default(d.pcm_formats, i, PGroup::default_model());
                XmlReadV {
                    doc: TmatsDocumentV {
                        pcm_formats: assoc_put(d.pcm_formats, i, PGroupV { data_link_name: Some(t), ..p }),
                        ..d
                    },
                    ..s
                }
            },
            EndKind::PcmBitRate | EndKind::PcmEncoding => {
                let i = d.pcm_formats.len() as u32;
                match assoc_get(d.pcm_formats, i) {
                    Some(p) => {
                        let p2 = if k == EndKind::PcmBitRate {
                            PGroupV { bit_rate: float_of_text(t), ..p }
                        } else {
                            PGroupV { encoding: Some(collapse_spec(t)), ..p }
                        };
                        XmlReadV { doc: TmatsDocumentV { pcm_formats: assoc_put(d.pcm_formats, i, p2), ..d }, ..s }
                    },
                    None => s,
                }
            },
            EndKind::BusLink => {
                let i = next_key(d.bus_data.len());
                let b = or_default(d.bus_data, i, BGroup::default_model());
                XmlReadV {
                    doc: TmatsDocumentV {
                        bus_data: assoc_put(d.bus_data, i, BGroupV { data_link_name: Some(t), ..b }),
                        ..d
                    },
                    ..s
                }
            },
            EndKind::BusType => {
                let i = d.bus_data.len() as u32;
                match assoc_get(d.bus_data, i) {
                    Some(b) => XmlReadV {
                        doc: TmatsDocumentV {
                            bus_data: assoc_put(d.bus_data, i, BGroupV { bus_type: Some(collapse_spec(t)), ..b }),
                            ..d
                        },
                        ..s
                    },
                    None => s,
                }
            },
            EndKind::ConversionName => {
                let i = next_key(d.data_conversion.len());
                let c = or_default(d.data_conversion, i, CGroup::default_model());
                XmlReadV {
                    doc: TmatsDocumentV {
                        data_conversion: assoc_put(d.data_conversion, i, CGroupV { measurement_name: Some(t), ..c }),
                        ..d
                    },
                    ..s
                }
            },
            EndKind::ConversionType | EndKind::ConversionUnits => {
                let i = d.data_conversion.len() as u32;
                match assoc_get(d.data_conversion, i) {
                    Some(c) => {
                        let c2 = if k == EndKind::ConversionType {
                            CGroupV { conversion_type: Some(collapse_spec(t)), ..c }
                        } else {
                            CGroupV { eu_units: Some(t), ..c }
                        };
                        XmlReadV {
                            doc: TmatsDocumentV { data_conversion: assoc_put(d.data_conversion, i, c2), ..d },
                            ..s
                        }
                    },
                    None => s,
                }
            },
            _ => s,
        }
    }
}

/// One reading step.  An opening tag is pushed on the path and starts a new
/// text; a closing tag is routed by its name and its parent's, then popped;
/// text is gathered; anything else changes nothing.
pub open spec fn xml_step(s: XmlReadV, e: XmlEventV) -> XmlReadV {
    match e {
        XmlEventV::Start(n) => XmlReadV { path: s.path.push(n), text: Seq::empty(), ..s },
        XmlEventV::End(n) => {
            let a = end_apply(s, end_kind(parent_of(s.path), n), trim(s.text));
            XmlReadV {
                path: if s.path.len() > 0 { s.path.drop_last() } else { s.path },
                text: Seq::empty(),
                ..a
            }
        },
        XmlEventV::Text(t) => XmlReadV { text: s.text + t, ..s },
        _ => s,
    }
}

/// The state after a sequence of events.
pub open spec fn xml_run(evs: Seq<XmlEventV>) -> XmlReadV
    decreases evs.len(),
{
    if evs.len() == 0 {
        xml_read_start()
    } else {
        xml_step(xml_run(evs.drop_last()), evs.last())
    }
}

/// The document read from a sequence of events: the gathered document with
/// its data-source count set.
pub open spec fn xml_document(evs: Seq<XmlEventV>) -> TmatsDocumentV {
    let d = xml_run(evs).doc;
    TmatsDocumentV {
        general: GGroupV { num_data_sources: Some(d.general.data_sources.len() as u32), ..d.general },
        ..d
    }
}

fn general_kind(k: EndKind) -> (r: bool)
    ensures
        r == is_general(k),
{
    match k {
        EndKind::ProgramName | EndKind::Irig106Version | EndKind::OriginationDate | EndKind::RevisionNumber
        | EndKind::RevisionDate | EndKind::TestNumber | EndKind::Comment => true,
        _ => false,
    }
}

/// The parent of the element being closed, as `parent_of` says.
fn parent_chars(path: &Vec<String>) -> (r: Option<Vec<char>>)
    ensures
        opt_chars(r) == parent_of(texts(path@)),
{
    let n = path.len();
    if n >= 2 {
        Some(chars_of(path[n - 2].as_str()))
    } else if n == 1 {
        Some(chars_of(path[0].as_str()))
    } else {
        None
    }
}

impl XmlRead {
    fn new() -> (r: Self)
        ensures
            r@ == xml_read_start(),
    {
        let r = XmlRead {
            doc: TmatsDocument::empty(),
            path: Vec::new(),
            text: String::new(),
            ds: None,
            ds_idx: 0,
            ch: None,
            ch_idx: 0,
            rg: None,
        };
        assert(texts(r.path@) =~= Seq::<Seq<char>>::empty());
        r
    }

    fn end_general(&mut self, k: EndKind, t: String)
        requires
            is_general(k),
        ensures
            final(self)@ == end_apply(old(self)@, k, t@),
    {
        proof {
            reveal(end_apply);
        }
        match k {
            EndKind::ProgramName => {
                self.doc.general.program_name = Some(t);
            },
            EndKind::Irig106Version => {
                self.doc.source_version = Irig106Version::from_g106_str(t.as_str());
                self.doc.general.irig106_version = Some(t);
            },
            EndKind::OriginationDate => {
                self.doc.general.origination_date = xml_date_to_tmats(t.as_str());
            },
            EndKind::RevisionNumber => {
                self.doc.general.revision_number = Some(t);
            },
            EndKind::RevisionDate => {
                self.doc.general.revision_date = xml_date_to_tmats(t.as_str());
            },
            EndKind::TestNumber => {
                self.doc.general.test_number = Some(t);
            },
            _ => {
                let ghost old_comments = self.doc.general.comments@;
                let ghost tv = t@;
                self.doc.general.comments.push(t);
                assert(texts(self.doc.general.comments@) =~= texts(old_comments).push(tv));
            },
        }
    }

    fn end_source(&mut self, k: EndKind, t: String)
        requires
            k == EndKind::DataSourceId || k == EndKind::DataSourceType || k == EndKind::Classification,
        ensures
            final(self)@ == end_apply(old(self)@, k, t@),
    {
        proof {
            reveal(end_apply);
        }
        let mut d = match self.ds.take() {
            Some(d) => d,
            None => DataSourceDecl::default_value(),
        };
        if k == EndKind::DataSourceId {
            d.data_source_id = Some(t);
        } else if k == EndKind::DataSourceType {
            d.data_source_type = Some(owned(collapse_keyword(t.as_str())));
        } else {
            d.classification = Some(owned(collapse_keyword(t.as_str())));
        }
        self.ds = Some(d);
    }

    fn end_source_done(&mut self)
        ensures
            final(self)@ == end_apply(old(self)@, EndKind::DataSourceDone, Seq::empty()),
    {
        proof {
            reveal(end_apply);
        }
        match self.ds.take() {
            Some(x) => {
                let i = self.ds_idx.wrapping_add(1);
                self.doc.general.data_sources.insert(i, x);
                self.ds_idx = i;
            },
            None => {},
        }
    }

    fn end_recorder_id(&mut self, t: String)
        ensures
            final(self)@ == end_apply(old(self)@, EndKind::RecorderId, t@),
    {
        proof {
            reveal(end_apply);
        }
        let mut r = match self.rg.take() {
            Some(r) => r,
            None => RGroup::default_value(),
        };
        r.recorder_id = Some(t);
        self.rg = Some(r);
    }

    fn end_channel(&mut self, k: EndKind, t: String)
        requires
            k == EndKind::ChannelId || k == EndKind::ChannelDataType || k == EndKind::ChannelLink
                || k == EndKind::ChannelPacking,
        ensures
            final(self)@ == end_apply(old(self)@, k, t@),
    {
        proof {
            reveal(end_apply);
        }
        let mut c = match self.ch.take() {
            Some(c) => c,
            None => RChannel::default_value(),
        };
        if k == EndKind::ChannelId {
            c.channel_id = u16_of(&t);
        } else if k == EndKind::ChannelDataType {
            c.data_type = Some(t);
        } else if k == EndKind::ChannelLink {
            c.data_link_name = Some(t);
        } else {
            c.data_packing_option = Some(owned(collapse_keyword(t.as_str())));
        }
        self.ch = Some(c);
    }

    fn end_channel_done(&mut self)
        ensures
            final(self)@ == end_apply(old(self)@, EndKind::ChannelDone, Seq::empty()),
    {
        proof {
            reveal(end_apply);
        }
        match self.ch.take() {
            Some(c) => {
                let i = self.ch_idx.wrapping_add(1);
                self.ch_idx = i;
                match self.rg.take() {
                    Some(mut r) => {
                        r.channels.insert(i, c);
                        self.rg = Some(r);
                    },
                    None => {},
                }
            },
            None => {},
        }
    }

    fn end_recorder_done(&mut self)
        ensures
            final(self)@ == end_apply(old(self)@, EndKind::RecorderDone, Seq::empty()),
    {
        proof {
            reveal(end_apply);
        }
        match self.rg.take() {
            Some(mut r) => {
                r.num_channels = Some(r.channels.len() as u32);
                let i = (self.doc.recorders.len() as u32).wrapping_add(1);
                self.doc.recorders.insert(i, r);
                self.ch_idx = 0;
            },
            None => {},
        }
    }

    fn end_pcm(&mut self, k: EndKind, t: String)
        requires
            k == EndKind::PcmLink || k == EndKind::PcmBitRate || k == EndKind::PcmEncoding,
        ensures
            final(self)@ == end_apply(old(self)@, k, t@),
    {
        proof {
            reveal(end_apply);
        }
        let ghost m = self.doc.pcm_formats@;
        if k == EndKind::PcmLink {
            let i = (self.doc.pcm_formats.len() as u32).wrapping_add(1);
            let (pos, mut p) = self.doc.pcm_formats.take_entry(i);
            p.data_link_name = Some(t);
            let ghost pv = p@;
            self.doc.pcm_formats.put_at(pos, p);
            proof {
                lemma_put_over(m, i, PGroup::default_model(), pv);
            }
            assert(self@ == end_apply(old(self)@, k, t@));
        } else {
            let i = self.doc.pcm_formats.len() as u32;
            match self.doc.pcm_formats.position(i) {
                Some(pos) => {
                    let mut p = self.doc.pcm_formats.take_at(pos);
                    if k == EndKind::PcmBitRate {
                        p.bit_rate = float_of(&t);
                    } else {
                        p.encoding = Some(owned(collapse_keyword(t.as_str())));
                    }
                    let ghost nv = p@;
                    self.doc.pcm_formats.put_at(pos, p);
                    proof {
                        lemma_assoc_find(m, i);
                    }
                    assert(self.doc.pcm_formats@ == assoc_put(m, i, nv));
                    assert(self@ == end_apply(old(self)@, k, t@));
                },
                None => {},
            }
        }
    }

    fn end_bus(&mut self, k: EndKind, t: String)
        requires
            k == EndKind::BusLink || k == EndKind::BusType,
        ensures
            final(self)@ == end_apply(old(self)@, k, t@),
    {
        proof {
            reveal(end_apply);
        }
        let ghost m = self.doc.bus_data@;
        if k == EndKind::BusLink {
            let i = (self.doc.bus_data.len() as u32).wrapping_add(1);
            let (pos, mut b) = self.doc.bus_data.take_entry(i);
            b.data_link_name = Some(t);
            let ghost bv = b@;
            self.doc.bus_data.put_at(pos, b);
            proof {
                lemma_put_over(m, i, BGroup::default_model(), bv);
            }
            assert(self@ == end_apply(old(self)@, k, t@));
        } else {
            let i = self.doc.bus_data.len() as u32;
            match self.doc.bus_data.position(i) {
                Some(pos) => {
                    let mut b = self.doc.bus_data.take_at(pos);
                    b.bus_type = Some(owned(collapse_keyword(t.as_str())));
                    let ghost nv = b@;
                    self.doc.bus_data.put_at(pos, b);
                    proof {
                        lemma_assoc_find(m, i);
                    }
                    assert(self.doc.bus_data@ == assoc_put(m, i, nv));
                    assert(self@ == end_apply(old(self)@, k, t@));
                },
                None => {},
            }
        }
    }

    fn end_conversion(&mut self, k: EndKind, t: String)
        requires
            k == EndKind::ConversionName || k == EndKind::ConversionType || k == EndKind::ConversionUnits,
        ensures
            final(self)@ == end_apply(old(self)@, k, t@),
    {
        proof {
            reveal(end_apply);
        }
        let ghost m = self.doc.data_conversion@;
        if k == EndKind::ConversionName {
            let i = (self.doc.data_conversion.len() as u32).wrapping_add(1);
            let (pos, mut c) = self.doc.data_conversion.take_entry(i);
            c.measurement_name = Some(t);
            let ghost cv = c@;
            self.doc.data_conversion.put_at(pos, c);
            proof {
                lemma_put_over(m, i, CGroup::default_model(), cv);
            }
            assert(self@ == end_apply(old(self)@, k, t@));
        } else {
            let i = self.doc.data_conversion.len() as u32;
            match self.doc.data_conversion.position(i) {
                Some(pos) => {
                    let mut c = self.doc.data_conversion.take_at(pos);
                    if k == EndKind::ConversionType {
                        c.conversion_type = Some(owned(collapse_keyword(t.as_str())));
                    } else {
                        c.eu_units = Some(t);
                    }
                    let ghost nv = c@;
                    self.doc.data_conversion.put_at(pos, c);
                    proof {
                        lemma_assoc_find(m, i);
                    }
                    assert(self.doc.data_conversion@ == assoc_put(m, i, nv));
                    assert(self@ == end_apply(old(self)@, k, t@));
                },
                None => {},
            }
        }
    }

    fn apply_end(&mut self, k: EndKind, t: String)
        ensures
            final(self)@ == end_apply(old(self)@, k, t@),
    {
        proof {
            reveal(end_apply);
        }
        if general_kind(k) {
            self.end_general(k, t);
        } else {
            match k {
                EndKind::DataSourceId | EndKind::DataSourceType | EndKind::Classification => self.end_source(k, t),
                EndKind::DataSourceDone => self.end_source_done(),
                EndKind::RecorderId => self.end_recorder_id(t),
                EndKind::ChannelId | EndKind::ChannelDataType | EndKind::ChannelLink | EndKind::ChannelPacking => {
                    self.end_channel(k, t)
                },
                EndKind::ChannelDone => self.end_channel_done(),
                EndKind::RecorderDone => self.end_recorder_done(),
                EndKind::PcmLink | EndKind::PcmBitRate | EndKind::PcmEncoding => self.end_pcm(k, t),
                EndKind::BusLink | EndKind::BusType => self.end_bus(k, t),
                EndKind::ConversionName | EndKind::ConversionType | EndKind::ConversionUnits => {
                    self.end_conversion(k, t)
                },
                _ => {},
            }
        }
    }

    fn step(&mut self, e: &XmlEvent)
        ensures
            final(self)@ == xml_step(old(self)@, e@),
    {
        proof {
            reveal(end_apply);
        }
        match e {
            XmlEvent::Start(n) => {
                let ghost old_path = self.path@;
                self.path.push(owned(n.as_str()));
                self.text = String::new();
                assert(texts(self.path@) =~= texts(old_path).push(n@));
            },
            XmlEvent::End(n) => {
                let nm = chars_of(n.as_str());
                let parent = parent_chars(&self.path);
                let k = classify_end(&parent, &nm);
                let t = string_of(&trimmed_chars(self.text.as_str()));
                self.apply_end(k, t);
                let ghost mid_path = self.path@;
                let _ = self.path.pop();
                self.text = String::new();
                assert(texts(self.path@) =~= (if mid_path.len() > 0 {
                    texts(mid_path).drop_last()
                } else {
                    texts(mid_path)
                }));
            },
            XmlEvent::Text(t) => {
                push_str(&mut self.text, t.as_str());
            },
            _ => {},
        }
    }
}

/// The document read from a sequence of XML events: the state machine of
/// `xml_step` run over them, then the data-source count set.
pub fn read_xml_events(events: &Vec<XmlEvent>) -> (r: TmatsDocument)
    ensures
        r@ == xml_document(views(events@)),
{
    let ghost ev = views(events@);
    let mut st = XmlRead::new();
    let n = events.len();
    for i in 0..n
        invariant
            n == events@.len(),
            ev == views(events@),
            st@ == xml_run(ev.take(i as int)),
    {
        st.step(&events[i]);
        assert(ev.take(i + 1).drop_last() =~= ev.take(i as int));
    }
    assert(ev.take(n as int) =~= ev);
    let mut doc = st.doc;
    doc.general.num_data_sources = Some(doc.general.data_sources.len() as u32);
    doc
}

#[verifier::external_type_specification]
#[verifier::external_body]
#[verifier::reject_recursive_types(R)]
pub struct ExXmlReader<R>(Reader<R>);

/// What a reader still reports: the events, through the first `Eof`, or the
/// events before the syntax error it stops at, and that error's text.
pub uninterp spec fn xml_pending(r: Reader<&[u8]>) -> (Seq<XmlEventV>, Option<Seq<char>>);

/// What a new reader over the bytes reports, in the sense of [`xml_pending`].
pub uninterp spec fn xml_events_of(input: Seq<u8>) -> (Seq<XmlEventV>, Option<Seq<char>>);

/// Whether what a reader reports has its shape: without an error, events
/// that end with the only `Eof`; with one, events without `Eof`.
pub open spec fn reader_report(p: (Seq<XmlEventV>, Option<Seq<char>>)) -> bool {
    match p.1 {
        None => p.0.len() > 0 && p.0.last() is Eof && forall|i: int| 0 <= i < p.0.len() - 1 ==> !(#[trigger] p.0[i] is Eof),
        Some(_) => forall|i: int| 0 <= i < p.0.len() ==> !(#[trigger] p.0[i] is Eof),
    }
}

/// `Reader::from_reader` over the bytes, configured with `trim_text(true)`:
/// text is reported without surrounding whitespace, and whitespace-only
/// text not at all.  It will report what the bytes hold (a function of them
/// alone): events until the input ends, then `Eof`, or until a syntax error.
#[verifier::external_body]
fn xml_reader_new<'a>(input: &'a [u8]) -> (r: Reader<&'a [u8]>)
    ensures
        xml_pending(r) == xml_events_of(input@),
        reader_report(xml_pending(r)),
{
    let mut r = Reader::from_reader(input);
    r.config_mut().trim_text(true);
    r
}

/// `Reader::read_event`: the next event, with element names decoded as
/// UTF-8 (lossily) and text unescaped (empty when unescaping fails); a
/// syntax error comes back as its display text.  It reports the first of
/// the events still pending, or, when none is left, the error.  Which events
/// the bytes give is the XML grammar that `quick_xml` implements; it is named,
/// not stated.
#[verifier::external_body]
fn xml_read(r: &mut Reader<&[u8]>) -> (res: Result<XmlEvent, String>)
    ensures
        xml_pending(*old(r)).0.len() > 0 ==> (res matches Ok(e) && e@ == xml_pending(*old(r)).0[0]
            && xml_pending(*final(r)) == (xml_pending(*old(r)).0.drop_first(), xml_pending(*old(r)).1)),
        (xml_pending(*old(r)).0.len() == 0 && xml_pending(*old(r)).1 is Some) ==> (res matches Err(m)
            && m@ == xml_pending(*old(r)).1.unwrap()),
{
    match r.read_event() {
        Ok(Event::Start(e)) => Ok(XmlEvent::Start(String::from_utf8_lossy(e.name().as_ref()).into_owned())),
        Ok(Event::End(e)) => Ok(XmlEvent::End(String::from_utf8_lossy(e.name().as_ref()).into_owned())),
        Ok(Event::Text(e)) => Ok(XmlEvent::Text(e.unescape().map(|c| c.into_owned()).unwrap_or_default())),
        Ok(Event::Eof) => Ok(XmlEvent::Eof),
        Ok(_) => Ok(XmlEvent::Other),
        Err(e) => Err(e.to_string()),
    }
}

/// What parsing TMATS XML gives for bytes that a reader reports as `p`: the
/// document of the events before `Eof`, or the reader's error.
pub open spec fn xml_parse_result(p: (Seq<XmlEventV>, Option<Seq<char>>)) -> Result<TmatsDocumentV, Seq<char>> {
    match p.1 {
        None => Ok(xml_document(p.0.drop_last())),
        Some(m) => Err("XML parse error: "@ + m),
    }
}

/// Parse TMATS XML into a document: the events are read until the end of
/// the input and then run through [`read_xml_events`]; a syntax error is an
/// XML error.
pub fn parse_xml(input: &[u8]) -> (r: Result<OwnedTmatsDocument, TmatsError>)
    ensures
        match xml_parse_result(xml_events_of(input@)) {
            Ok(d) => r matches Ok(x) && x@ == d,
            Err(m) => r matches Err(TmatsError::Xml(x)) && x.message@ == m,
        },
{
    let mut reader = xml_reader_new(input);
    let ghost all = xml_events_of(input@);
    let mut events: Vec<XmlEvent> = Vec::new();
    loop
        invariant_except_break
            xml_pending(reader) == (all.0.skip(events@.len() as int), all.1),
            views(events@) == all.0.take(events@.len() as int),
            forall|i: int| 0 <= i < events@.len() ==> !(#[trigger] all.0[i] is Eof),
        invariant
            reader_report(all),
            all == xml_events_of(input@),
            events@.len() <= all.0.len(),
        ensures
            all.1 is None,
            views(events@) == all.0.drop_last(),
        decreases all.0.len() - events@.len(),
    {
        let ghost k = events@.len() as int;
        let ghost rest = all.0.skip(k);
        match xml_read(&mut reader) {
            Ok(XmlEvent::Eof) => {
                proof {
                    assert(rest.len() > 0);
                    assert(rest[0] == all.0[k]);
                    if all.1 is Some || k < all.0.len() - 1 {
                        assert(!(all.0[k] is Eof));
                    }
                    assert(all.0.drop_last() =~= all.0.take(k));
                }
                break;
            },
            Ok(e) => {
                proof {
                    assert(rest.len() > 0);
                    assert(rest[0] == all.0[k]);
                    assert(!(all.0[k] is Eof));
                }
                let ghost before = views(events@);
                let ghost ev = e@;
                events.push(e);
                proof {
                    assert(views(events@) =~= before.push(ev));
                    assert(all.0.take(k + 1) =~= all.0.take(k).push(all.0[k]));
                    assert(rest.drop_first() =~= all.0.skip(k + 1));
                }
            },
            Err(msg) => {
                proof {
                    if rest.len() > 0 {
                        assert(false);
                    }
                    if all.1 is None {
                        assert(all.0[all.0.len() - 1] is Eof);
                        assert(k < all.0.len());
                    }
                }
                let mut m = owned("XML parse error: ");
                push_str(&mut m, msg.as_str());
                return Err(TmatsError::Xml(XmlError { message: m }));
            },
        }
    }
    let d = read_xml_events(&events);
    Ok(d)
}

// ─── Conversion ─────────────────────────────────────────────────────────────

/// Convert TMATS ASCII to XML bytes.
pub fn ascii_to_xml(ascii_input: &[u8]) -> (r: Result<Vec<u8>, TmatsError>)
    requires
        crate::parse::count_nl(ascii_input@) < u32::MAX,
    ensures
        parse_spec(ascii_input@, default_parse_options()) matches Err(es) ==> r matches Err(TmatsError::Xml(x))
            && x.message@ == "ASCII parse failed: "@ + dec(es.len()) + " error(s)"@,
        parse_spec(ascii_input@, default_parse_options()) matches Ok(d) ==> (indent_fits(xml_doc_events(d)) ==> (r matches Ok(b)
            && b@ == xml_bytes(xml_doc_events(d)))),
        parse_spec(ascii_input@, default_parse_options()) matches Ok(d) ==> (!indent_fits(xml_doc_events(d)) ==> (r matches Err(TmatsError::Xml(x))
            && x.message@ == "XML nesting too deep"@)),
{
    match parse(ascii_input) {
        Ok(doc) => serialize_xml_to_vec(&doc),
        Err(errs) => {
            let mut m = owned("ASCII parse failed: ");
            let s = errs.to_string();
            push_str(&mut m, s.as_str());
            Err(TmatsError::Xml(XmlError { message: m }))
        },
    }
}

/// Convert TMATS XML to ASCII bytes.
pub fn xml_to_ascii(xml_input: &[u8]) -> (r: Result<Vec<u8>, TmatsError>)
    ensures
        match xml_parse_result(xml_events_of(xml_input@)) {
            Ok(d) => r matches Ok(b) && b@ == encode_utf8(serialized_text(d, default_serialize_options())),
            Err(m) => r matches Err(TmatsError::Xml(x)) && x.message@ == m,
        },
{
    let doc = match parse_xml(xml_input) {
        Ok(d) => d,
        Err(e) => return Err(e),
    };
    match serialize_to_vec(&doc) {
        Ok(b) => Ok(b),
        Err(e) => Err(TmatsError::Serialize(e)),
    }
}

// ─── Laws ───────────────────────────────────────────────────────────────────

proof fn lemma_digits_lack(t: Seq<char>, c: char)
    requires
        all_digits(t),
        !is_digit(c),
    ensures
        !t.contains(c),
{
    if t.contains(c) {
        let j = choose|j: int| 0 <= j < t.len() && t[j] == c;
        assert(is_digit(t[j]));
    }
}

proof fn lemma_three_numbers(a: nat, wa: nat, b: nat, wb: nat, c: nat, wc: nat)
    ensures
        ({
            let (x, y, z) = (dec_padded(a, wa), dec_padded(b, wb), dec_padded(c, wc));
            let t = x + seq!['-'] + y + seq!['-'] + z;
            &&& split(t, '-') == seq![x, y, z]
            &&& parse_unsigned(x, 65535) == (if a <= 65535 { Some(a) } else { None::<nat> })
            &&& parse_unsigned(x, 255) == (if a <= 255 { Some(a) } else { None::<nat> })
            &&& parse_unsigned(y, 255) == (if b <= 255 { Some(b) } else { None::<nat> })
            &&& parse_unsigned(z, 255) == (if c <= 255 { Some(c) } else { None::<nat> })
            &&& parse_unsigned(y, 65535) == (if b <= 65535 { Some(b) } else { None::<nat> })
            &&& parse_unsigned(z, 65535) == (if c <= 65535 { Some(c) } else { None::<nat> })
        }),
{
    let (x, y, z) = (dec_padded(a, wa), dec_padded(b, wb), dec_padded(c, wc));
    lemma_dec_padded_value(a, wa);
    lemma_dec_padded_value(b, wb);
    lemma_dec_padded_value(c, wc);
    lemma_digits_lack(x, '-');
    lemma_digits_lack(y, '-');
    lemma_digits_lack(z, '-');
    lemma_split_single(x, '-');
    lemma_split_append(x, '-', y);
    lemma_split_append(x + seq!['-'] + y, '-', z);
    assert(split(x + seq!['-'] + y + seq!['-'] + z, '-') =~= seq![x, y, z]);
    assert(is_digit(x[0]) && is_digit(y[0]) && is_digit(z[0]));
}

/// A date survives the trip through its TMATS text `MM-DD-YYYY`, and
/// through its XML text `YYYY-MM-DD`.
pub proof fn law_date_round_trip(d: TmatsDate)
    ensures
        date_from_parts(d.spec_tmats_text(), false) == Some(d),
        date_from_parts(xml_date_text(d), true) == Some(d),
{
    lemma_three_numbers(d.month as nat, 2, d.day as nat, 2, d.year as nat, 4);
    lemma_three_numbers(d.year as nat, 4, d.month as nat, 2, d.day as nat, 2);
}

// ─── Expansion and collapse undo each other ─────────────────────────────────

/// Length, first and last character of a text, upper-cased: enough to tell
/// the table's entries apart in either column.
spec fn kw_key(s: Seq<char>) -> (nat, char, char) {
    (s.len(), upper_char(s[0]), upper_char(s.last()))
}

/// The key of entry `i`'s abbreviation.
spec fn short_key(i: int) -> (nat, char, char) {
    if i == 0 {
        (2nat, 'L', 'O')
    } else if i == 1 {
        (2nat, 'R', 'O')
    } else if i == 2 {
        (3nat, 'R', 'C')
    } else if i == 3 {
        (3nat, 'T', 'L')
    } else if i == 4 {
        (3nat, 'M', 'L')
    } else if i == 5 {
        (3nat, 'P', 'E')
    } else if i == 6 {
        (1nat, 'U', 'U')
    } else if i == 7 {
        (1nat, 'C', 'C')
    } else if i == 8 {
        (1nat, 'S', 'S')
    } else if i == 9 {
        (5nat, 'N', 'L')
    } else if i == 10 {
        (5nat, 'N', 'M')
    } else if i == 11 {
        (5nat, 'N', 'S')
    } else if i == 12 {
        (6nat, 'R', 'L')
    } else if i == 13 {
        (5nat, 'B', 'L')
    } else if i == 14 {
        (5nat, 'B', 'M')
    } else if i == 15 {
        (5nat, 'B', 'S')
    } else if i == 16 {
        (1nat, 'N', 'N')
    } else if i == 17 {
        (1nat, 'R', 'R')
    } else if i == 18 {
        (2nat, 'U', 'N')
    } else if i == 19 {
        (3nat, 'P', 'S')
    } else if i == 20 {
        (2nat, 'T', 'M')
    } else if i == 21 {
        (1nat, 'T', 'T')
    } else if i == 22 {
        (1nat, 'F', 'F')
    } else if i == 23 {
        (4nat, '1', '3')
    } else if i == 24 {
        (4nat, 'A', '9')
    } else if i == 25 {
        (2nat, 'F', 'M')
    } else if i == 26 {
        (2nat, 'P', 'M')
    } else if i == 27 {
        (2nat, 'A', 'M')
    } else if i == 28 {
        (1nat, 'M', 'M')
    } else if i == 29 {
        (1nat, 'L', 'L')
    } else if i == 30 {
        (1nat, 'D', 'D')
    } else if i == 31 {
        (4nat, 'P', 'R')
    } else if i == 32 {
        (4nat, 'C', 'F')
    } else if i == 33 {
        (4nat, 'T', 'L')
    } else if i == 34 {
        (4nat, 'P', 'Y')
    } else {
        (4nat, 'F', 'M')
    }
}

/// The key of entry `i`'s XML spelling.
spec fn long_key(i: int) -> (nat, char, char) {
    if i == 0 {
        (12nat, 'L', 'L')
    } else if i == 1 {
        (6nat, 'R', 'Y')
    } else if i == 2 {
        (8nat, 'R', 'R')
    } else if i == 3 {
        (9nat, 'T', 'Y')
    } else if i == 4 {
        (9nat, 'M', 'X')
    } else if i == 5 {
        (10nat, 'P', 'T')
    } else if i == 6 {
        (12nat, 'U', 'D')
    } else if i == 7 {
        (12nat, 'C', 'L')
    } else if i == 8 {
        (6nat, 'S', 'T')
    } else if i == 9 {
        (5nat, 'N', 'L')
    } else if i == 10 {
        (5nat, 'N', 'M')
    } else if i == 11 {
        (5nat, 'N', 'S')
    } else if i == 12 {
        (6nat, 'R', 'L')
    } else if i == 13 {
        (13nat, 'B', 'L')
    } else if i == 14 {
        (12nat, 'B', 'K')
    } else if i == 15 {
        (13nat, 'B', 'E')
    } else if i == 16 {
        (6nat, 'N', 'L')
    } else if i == 17 {
        (8nat, 'R', 'D')
    } else if i == 18 {
        (8nat, 'U', 'D')
    } else if i == 19 {
        (6nat, 'P', 'D')
    } else if i == 20 {
        (10nat, 'T', 'T')
    } else if i == 21 {
        (4nat, 'T', 'E')
    } else if i == 22 {
        (5nat, 'F', 'E')
    } else if i == 23 {
        (12nat, 'M', '3')
    } else if i == 24 {
        (9nat, 'A', '9')
    } else if i == 25 {
        (2nat, 'F', 'M')
    } else if i == 26 {
        (2nat, 'P', 'M')
    } else if i == 27 {
        (2nat, 'A', 'M')
    } else if i == 28 {
        (3nat, 'M', 'B')
    } else if i == 29 {
        (3nat, 'L', 'B')
    } else if i == 30 {
        (7nat, 'D', 'T')
    } else if i == 31 {
        (8nat, 'P', 'S')
    } else if i == 32 {
        (12nat, 'C', 'S')
    } else if i == 33 {
        (5nat, 'T', 'E')
    } else if i == 34 {
        (10nat, 'P', 'L')
    } else {
        (7nat, 'F', 'A')
    }
}

proof fn lemma_keys_of_entries()
    ensures
        forall|i: int| 0 <= i < 36 ==> kw_key(#[trigger] keyword_table()[i].0) == short_key(i),
        forall|i: int| 0 <= i < 36 ==> kw_key(#[trigger] keyword_table()[i].1) == long_key(i),
{
    reveal_strlit("1553");
    reveal_strlit("A429");
    reveal_strlit("AM");
    reveal_strlit("ARINC-429");
    reveal_strlit("BIO-L");
    reveal_strlit("BIO-M");
    reveal_strlit("BIO-S");
    reveal_strlit("BiPhase-Level");
    reveal_strlit("BiPhase-Mark");
    reveal_strlit("BiPhase-Space");
    reveal_strlit("C");
    reveal_strlit("COEF");
    reveal_strlit("Coefficients");
    reveal_strlit("Confidential");
    reveal_strlit("D");
    reveal_strlit("Default");
    reveal_strlit("F");
    reveal_strlit("FM");
    reveal_strlit("FORM");
    reveal_strlit("False");
    reveal_strlit("Formula");
    reveal_strlit("L");
    reveal_strlit("LO");
    reveal_strlit("LSB");
    reveal_strlit("Longitudinal");
    reveal_strlit("M");
    reveal_strlit("MIL-STD-1553");
    reveal_strlit("MSB");
    reveal_strlit("MUL");
    reveal_strlit("Multiplex");
    reveal_strlit("N");
    reveal_strlit("NRZ-L");
    reveal_strlit("NRZ-M");
    reveal_strlit("NRZ-S");
    reveal_strlit("Normal");
    reveal_strlit("PAIR");
    reveal_strlit("PFS");
    reveal_strlit("PM");
    reveal_strlit("POLY");
    reveal_strlit("PRE");
    reveal_strlit("Packed");
    reveal_strlit("PairSets");
    reveal_strlit("Polynomial");
    reveal_strlit("Pre-Detect");
    reveal_strlit("R");
    reveal_strlit("REC");
    reveal_strlit("RNRZ-L");
    reveal_strlit("RO");
    reveal_strlit("Recorder");
    reveal_strlit("Reversed");
    reveal_strlit("Rotary");
    reveal_strlit("S");
    reveal_strlit("Secret");
    reveal_strlit("T");
    reveal_strlit("TABL");
    reveal_strlit("TEL");
    reveal_strlit("TM");
    reveal_strlit("Table");
    reveal_strlit("Telemetry");
    reveal_strlit("Throughput");
    reveal_strlit("True");
    reveal_strlit("U");
    reveal_strlit("UN");
    reveal_strlit("Unclassified");
    reveal_strlit("Unpacked");
}

proof fn lemma_keys_distinct()
    ensures
        forall|i: int, j: int| 0 <= j < i < 36 ==> short_key(j) != short_key(i) && long_key(j) != long_key(i),
{
}

/// The column `long` of entry `i`: its XML spelling when `long`, else its abbreviation.
spec fn column(i: int, long: bool) -> Seq<char> {
    if long {
        keyword_table()[i].1
    } else {
        keyword_table()[i].0
    }
}

spec fn column_key(i: int, long: bool) -> (nat, char, char) {
    if long {
        long_key(i)
    } else {
        short_key(i)
    }
}

/// Texts with different keys differ even up to case.
proof fn lemma_keys_tell_apart(a: Seq<char>, b: Seq<char>)
    requires
        a.len() > 0,
        b.len() > 0,
        kw_key(a) != kw_key(b),
    ensures
        !eq_ignore_case(a, b),
{
    if eq_ignore_case(a, b) {
        assert(upper(a).len() == upper(b).len());
        assert(upper(a)[0] == upper(b)[0]);
        assert(upper(a)[a.len() - 1] == upper(b)[b.len() - 1]);
    }
}

proof fn lemma_index_from(i: int, long: bool, k: int)
    requires
        0 <= k <= i < 36,
    ensures
        keyword_index(column(i, long), long, k) == i,
    decreases i - k,
{
    lemma_keys_of_entries();
    lemma_keys_distinct();
    if k < i {
        assert(column_key(k, long) != column_key(i, long));
        lemma_keys_tell_apart(column(k, long), column(i, long));
        lemma_index_from(i, long, k + 1);
    } else {
        assert(eq_ignore_case(column(i, long), column(i, long)));
    }
}

/// A table entry is its own trimmed text.
proof fn lemma_entry_trimmed(i: int, long: bool)
    requires
        0 <= i < 36,
    ensures
        trim(column(i, long)) == column(i, long),
{
    lemma_keys_of_entries();
    let s = column(i, long);
    assert(s.len() > 0);
    lemma_upper_char(s[0]);
    lemma_upper_char(s.last());
    assert(trim_start(s) == s);
    assert(trim_end(s) == s);
}

/// Expanding an abbreviation of the keyword table and collapsing the result
/// gives the abbreviation back; collapsing an XML spelling of the table and
/// expanding the result gives the spelling back.
pub proof fn law_keyword_expansion_round_trip(i: int)
    requires
        0 <= i < keyword_table().len(),
    ensures
        expand_spec(keyword_table()[i].0) == keyword_table()[i].1,
        collapse_spec(keyword_table()[i].1) == keyword_table()[i].0,
        collapse_spec(expand_spec(keyword_table()[i].0)) == keyword_table()[i].0,
        expand_spec(collapse_spec(keyword_table()[i].1)) == keyword_table()[i].1,
{
    lemma_entry_trimmed(i, false);
    lemma_entry_trimmed(i, true);
    lemma_index_from(i, false, 0);
    lemma_index_from(i, true, 0);
}

} // verus!
