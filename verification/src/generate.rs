//! Synthesis of a TMATS document from a channel inventory: one recorder
//! whose channels each get a data source, and a P, B or S format group as
//! their data type calls for.
use vstd::prelude::*;
use crate::error::{TmatsError, ParseError, ParseErrorKind, DiagnosticV, opt_text, views};
use crate::model::{TmatsDocument, TmatsDocumentV, OwnedTmatsDocument, RawAttributeV, GGroup, GGroupV, RGroup, RGroupV, RChannel, RChannelV, PGroup, PGroupV, BGroup, BGroupV, SGroup, SGroupV, DataSourceDecl, DataSourceDeclV};
use crate::ordered_map::{OrderedMap, DefaultModel, assoc_put, lemma_assoc_find};
use crate::text::{push_str, push_char, push_dec, dec};
use crate::types_bridge::{DataTypeCode, GroupPrefix, Irig106Version};
use crate::validate::{lookup, known_spec, keyword_findings, mfs_findings, v001, v002, v010, v011, v011_all, v020, v020_all, v040, v060_all, v061_all, v020_chans, v030_all, v031_all, v031_chans, v032_all, v033_all};
use crate::repair::{error_count, errs, lemma_error_count_rules, lemma_errs_push};
use crate::version::{AttrMetaV, attr_entry, attr_table, pattern_index_from};
use crate::text::{is_white, trim, trim_start, trim_end, upper, eq_ignore_case};

verus! {

/// One channel observed in a recording.
#[derive(Debug, Clone)]
pub struct ChannelInventoryEntry {
    pub channel_id: u16,
    pub data_type: DataTypeCode,
    pub subchannel_count: Option<u16>,
    /// Observed bit rate, as its decimal text.
    pub observed_bit_rate: Option<String>,
    /// Observed sample rate, as its decimal text.
    pub observed_sample_rate: Option<String>,
    pub packet_count: Option<u64>,
}

/// The model of a [`ChannelInventoryEntry`].
pub struct ChannelInventoryEntryV {
    pub channel_id: u16,
    pub data_type: DataTypeCode,
    pub subchannel_count: Option<u16>,
    pub observed_bit_rate: Option<Seq<char>>,
    pub observed_sample_rate: Option<Seq<char>>,
    pub packet_count: Option<u64>,
}

impl View for ChannelInventoryEntry {
    type V = ChannelInventoryEntryV;

    open spec fn view(&self) -> ChannelInventoryEntryV {
        ChannelInventoryEntryV {
            channel_id: self.channel_id,
            data_type: self.data_type,
            subchannel_count: self.subchannel_count,
            observed_bit_rate: opt_text(self.observed_bit_rate),
            observed_sample_rate: opt_text(self.observed_sample_rate),
            packet_count: self.packet_count,
        }
    }
}

/// Builds a document from a channel inventory.
#[derive(Debug)]
pub struct TmatsBuilder {
    version: Irig106Version,
    program_name: Option<String>,
    test_number: Option<String>,
    channels: Vec<ChannelInventoryEntry>,
}

/// The model of a [`TmatsBuilder`].
pub struct TmatsBuilderV {
    pub version: Irig106Version,
    pub program_name: Option<Seq<char>>,
    pub test_number: Option<Seq<char>>,
    pub channels: Seq<ChannelInventoryEntryV>,
}

impl View for TmatsBuilder {
    type V = TmatsBuilderV;

    closed spec fn view(&self) -> TmatsBuilderV {
        TmatsBuilderV {
            version: self.version,
            program_name: opt_text(self.program_name),
            test_number: opt_text(self.test_number),
            channels: self.channels@.map_values(|e: ChannelInventoryEntry| e@),
        }
    }
}

/// An upper-case hexadecimal digit.
pub open spec fn hex_digit(n: nat) -> char {
    if n < 10 {
        ((('0' as u32) + n) as char)
    } else {
        ((('A' as u32) + n - 10) as char)
    }
}

/// A byte as two upper-case hexadecimal digits (`{:02X}`).
pub open spec fn hex2(v: u8) -> Seq<char> {
    seq![hex_digit((v / 16) as nat), hex_digit((v % 16) as nat)]
}

fn hex_char(n: u8) -> (r: char)
    requires
        n < 16,
    ensures
        r == hex_digit(n as nat),
{
    if n < 10 {
        (n + 48) as char
    } else {
        (n + 55) as char
    }
}

fn hex2_string(v: u8) -> (r: String)
    ensures
        r@ == hex2(v),
{
    let mut s = String::new();
    push_char(&mut s, hex_char(v / 16));
    push_char(&mut s, hex_char(v % 16));
    assert(s@ =~= hex2(v));
    s
}

/// A string holding `a` then the digits of `n`.
fn pre_num(a: &str, n: u64) -> (r: String)
    ensures
        r@ == a@ + dec(n as nat),
{
    let mut s = String::new();
    push_str(&mut s, a);
    push_dec(&mut s, n);
    s
}

fn st(s: &str) -> (r: String)
    ensures
        r@ == s@,
{
    let mut r = String::new();
    push_str(&mut r, s);
    r
}

pub open spec fn chan_text(cid: u16) -> Seq<char> {
    "CHAN_"@ + dec(cid as nat)
}

pub open spec fn link_text(cid: u16) -> Seq<char> {
    "LINK_"@ + dec(cid as nat)
}

/// The data source declared for an inventory entry.
pub open spec fn source_of(e: ChannelInventoryEntryV) -> DataSourceDeclV {
    DataSourceDeclV {
        data_source_id: Some(chan_text(e.channel_id)),
        data_source_type: Some("REC"@),
        classification: Some("U"@),
        extra: Seq::empty(),
    }
}

/// The recorder channel for an inventory entry.
pub open spec fn channel_of(e: ChannelInventoryEntryV) -> RChannelV {
    RChannelV {
        channel_id: Some(e.channel_id),
        data_type: Some(hex2(e.data_type.spec_code())),
        data_source_id: Some(chan_text(e.channel_id)),
        data_link_name: Some(link_text(e.channel_id)),
        data_packing_option: Some("UN"@),
        channel_enabled: Some(true),
        extra: Seq::empty(),
    }
}

/// The PCM format stub for an inventory entry: its link name and observed
/// bit rate, with a placeholder frame layout that satisfies the required
/// attributes (NRZ-L, 128 words of 16 bits, sync pattern FE6B2840 of 32 bits)
/// until the real layout is filled in.
pub open spec fn pcm_stub(e: ChannelInventoryEntryV) -> PGroupV {
    PGroupV {
        data_link_name: Some(link_text(e.channel_id)),
        bit_rate: e.observed_bit_rate,
        encoding: Some("NRZ-L"@),
        num_words_per_frame: Some(128),
        num_bits_per_word: Some(16),
        sync_pattern: Some("FE6B2840"@),
        sync_pattern_length: Some(32),
        ..PGroup::default_model()
    }
}

/// The bus type keyword of a bus data type: `1553` for MIL-STD-1553,
/// `A429` for ARINC 429.
pub open spec fn bus_type_of(t: DataTypeCode) -> Option<Seq<char>> {
    match t {
        DataTypeCode::Mil1553Format1 | DataTypeCode::Mil1553Format2 => Some("1553"@),
        DataTypeCode::Arinc429Format0 => Some("A429"@),
        _ => None,
    }
}

fn bus_type_text(t: DataTypeCode) -> (r: Option<String>)
    ensures
        opt_text(r) == bus_type_of(t),
{
    match t {
        DataTypeCode::Mil1553Format1 | DataTypeCode::Mil1553Format2 => Some(st("1553")),
        DataTypeCode::Arinc429Format0 => Some(st("A429")),
        _ => None,
    }
}

/// The generated document's parts for the first `k` entries: data sources,
/// channels, and P, B and S groups, each keyed by the entry's position plus one.
pub open spec fn gen_parts(es: Seq<ChannelInventoryEntryV>) -> (Seq<(u32, DataSourceDeclV)>, Seq<(u32, RChannelV)>, Seq<(u32, PGroupV)>, Seq<(u32, BGroupV)>, Seq<(u32, SGroupV)>)
    decreases es.len(),
{
    if es.len() == 0 {
        (Seq::empty(), Seq::empty(), Seq::empty(), Seq::empty(), Seq::empty())
    } else {
        let (ds, chs, ps, bs, ss) = gen_parts(es.drop_last());
        let e = es.last();
        let k = es.len() as u32;
        let dln = Some(link_text(e.channel_id));
        let ds = assoc_put(ds, k, source_of(e));
        let chs = assoc_put(chs, k, channel_of(e));
        match e.data_type.spec_tmats_group() {
            Some(GroupPrefix::P) => (ds, chs, assoc_put(ps, k, pcm_stub(e)), bs, ss),
            Some(GroupPrefix::B) => (ds, chs, ps, assoc_put(bs, k, BGroupV { data_link_name: dln, bus_type: bus_type_of(e.data_type), ..BGroup::default_model() }), ss),
            Some(GroupPrefix::S) => (ds, chs, ps, bs, assoc_put(ss, k, SGroupV { data_link_name: dln, ..SGroup::default_model() })),
            _ => (ds, chs, ps, bs, ss),
        }
    }
}

/// The document generated from a builder with at least one channel.
pub open spec fn generated(b: TmatsBuilderV) -> TmatsDocumentV {
    let (ds, chs, ps, bs, ss) = gen_parts(b.channels);
    let n = b.channels.len() as u32;
    let e = TmatsDocumentV::empty();
    TmatsDocumentV {
        general: GGroupV {
            program_name: Some(match b.program_name {
                Some(p) => p,
                None => "UNKNOWN"@,
            }),
            irig106_version: Some(b.version.spec_g106()),
            test_number: b.test_number,
            num_data_sources: Some(n),
            data_sources: ds,
            ..e.general
        },
        recorders: seq![(1u32, RGroupV { recorder_id: Some("GENERATED"@), num_channels: Some(n), channels: chs, ..RGroup::default_model() })],
        pcm_formats: ps,
        bus_data: bs,
        message_data: ss,
        source_version: Some(b.version),
        ..e
    }
}

impl TmatsBuilder {
    pub fn new(version: Irig106Version) -> (r: Self)
        ensures
            r@.version == version,
            r@.program_name is None,
            r@.test_number is None,
            r@.channels.len() == 0,
    {
        let r = TmatsBuilder { version, program_name: None, test_number: None, channels: Vec::new() };
        assert(r@.channels =~= Seq::<ChannelInventoryEntryV>::empty());
        r
    }

    pub fn program_name(self, name: &str) -> (r: Self)
        ensures
            r@ == (TmatsBuilderV { program_name: Some(name@), ..self@ }),
    {
        let mut b = self;
        b.program_name = Some(st(name));
        b
    }

    pub fn test_number(self, tn: &str) -> (r: Self)
        ensures
            r@ == (TmatsBuilderV { test_number: Some(tn@), ..self@ }),
    {
        let mut b = self;
        b.test_number = Some(st(tn));
        b
    }

    pub fn add_channel(self, entry: ChannelInventoryEntry) -> (r: Self)
        ensures
            r@ == (TmatsBuilderV { channels: self@.channels.push(entry@), ..self@ }),
    {
        let mut b = self;
        let ghost cv = b@.channels;
        let ghost ev = entry@;
        b.channels.push(entry);
        assert(b@.channels =~= cv.push(ev));
        b
    }

    /// Build the document; at least one channel is required.  Each channel
    /// gets a data source, a recorder channel and, by its data type, a PCM,
    /// bus or message format stub linked to it, so that the document passes
    /// validation once the bit rates are known.
    pub fn build(self) -> (r: Result<OwnedTmatsDocument, TmatsError>)
        ensures
            self@.channels.len() == 0 ==> (r matches Err(TmatsError::Parse(e)) && e.kind == ParseErrorKind::InvalidValue
                && e.message@ == "at least one channel is required for generation"@ && e.code_name is None
                && e.byte_offset == 0 && e.line == 0),
            self@.channels.len() > 0 ==> (r matches Ok(d) && d@ == generated(self@)),
    {
        if self.channels.len() == 0 {
            return Err(TmatsError::Parse(ParseError {
                kind: ParseErrorKind::InvalidValue,
                byte_offset: 0,
                line: 0,
                code_name: None,
                message: st("at least one channel is required for generation"),
            }));
        }
        let ghost bv = self@;
        let TmatsBuilder { version, program_name, test_number, channels } = self;
        let mut doc = TmatsDocument::empty();
        doc.source_version = Some(version);
        doc.general.program_name = Some(match program_name {
            Some(p) => p,
            None => st("UNKNOWN"),
        });
        doc.general.irig106_version = Some(st(version.as_g106_str()));
        if let Some(tn) = test_number {
            doc.general.test_number = Some(tn);
        }
        let n = channels.len();
        doc.general.num_data_sources = Some(#[verifier::truncate] (n as u32));
        let mut r_group = RGroup::default_value();
        r_group.recorder_id = Some(st("GENERATED"));
        r_group.num_channels = Some(#[verifier::truncate] (n as u32));
        let ghost es = channels@.map_values(|e: ChannelInventoryEntry| e@);
        let ghost d0 = doc@;
        let ghost r0 = r_group@;
        for i in 0..n
            invariant
                n == channels@.len(),
                es == channels@.map_values(|e: ChannelInventoryEntry| e@),
                ({
                    let (ds, chs, ps, bs, ss) = gen_parts(es.take(i as int));
                    &&& doc@ == (TmatsDocumentV {
                        general: GGroupV { data_sources: ds, ..d0.general },
                        pcm_formats: ps,
                        bus_data: bs,
                        message_data: ss,
                        ..d0
                    })
                    &&& r_group@ == (RGroupV { channels: chs, ..r0 })
                }),
        {
            assert(es.take(i + 1).drop_last() =~= es.take(i as int));
            let idx = #[verifier::truncate] ((i + 1) as u32);
            let ch = &channels[i];
            let ds = DataSourceDecl {
                data_source_id: Some(pre_num("CHAN_", ch.channel_id as u64)),
                data_source_type: Some(st("REC")),
                classification: Some(st("U")),
                extra: Vec::new(),
            };
            assert(views(ds.extra@) =~= Seq::<RawAttributeV>::empty());
            assert(ds@ == source_of(es[i as int]));
            doc.general.data_sources.insert(idx, ds);
            let rc = RChannel {
                channel_id: Some(ch.channel_id),
                data_type: Some(hex2_string(ch.data_type.to_u8())),
                data_source_id: Some(pre_num("CHAN_", ch.channel_id as u64)),
                data_link_name: Some(pre_num("LINK_", ch.channel_id as u64)),
                data_packing_option: Some(st("UN")),
                channel_enabled: Some(true),
                extra: Vec::new(),
            };
            assert(views(rc.extra@) =~= Seq::<RawAttributeV>::empty());
            assert(rc@ == channel_of(es[i as int]));
            r_group.channels.insert(idx, rc);
            match ch.data_type.tmats_group() {
                Some(GroupPrefix::P) => {
                    let mut p = PGroup::default_value();
                    p.data_link_name = Some(pre_num("LINK_", ch.channel_id as u64));
                    p.bit_rate = match &ch.observed_bit_rate {
                        Some(t) => Some(t.clone()),
                        None => None,
                    };
                    p.encoding = Some(st("NRZ-L"));
                    p.num_words_per_frame = Some(128);
                    p.num_bits_per_word = Some(16);
                    p.sync_pattern = Some(st("FE6B2840"));
                    p.sync_pattern_length = Some(32);
                    doc.pcm_formats.insert(idx, p);
                },
                Some(GroupPrefix::B) => {
                    let mut b = BGroup::default_value();
                    b.data_link_name = Some(pre_num("LINK_", ch.channel_id as u64));
                    b.bus_type = bus_type_text(ch.data_type);
                    doc.bus_data.insert(idx, b);
                },
                Some(GroupPrefix::S) => {
                    let mut s = SGroup::default_value();
                    s.data_link_name = Some(pre_num("LINK_", ch.channel_id as u64));
                    doc.message_data.insert(idx, s);
                },
                _ => {},
            }
        }
        assert(es.take(n as int) =~= es);
        let ghost rv = r_group@;
        doc.recorders.insert(1, r_group);
        assert(doc@.recorders =~= seq![(1u32, rv)]);
        Ok(doc)
    }
}

// ─── What validation finds in a generated document ─────────────────────────

/// The table entry of `G\DST-n` is entry 5.
proof fn lemma_lookup_dst()
    ensures
        lookup("G\\DST-n"@) == Some(attr_entry(5)),
{
    reveal_strlit("G\\PN");
    reveal_strlit("G\\106");
    reveal_strlit("G\\OD");
    reveal_strlit("G\\DSI\\N");
    reveal_strlit("G\\DSI-n");
    reveal_strlit("G\\DST-n");
    let t = attr_table();
    let p = "G\\DST-n"@;
    assert(t[5].code_name_pattern == p);
    assert(pattern_index_from(t, p, 5) == 5);
    assert(t[4].code_name_pattern[4] != p[4]);
    assert(pattern_index_from(t, p, 4) == 5);
    assert(t[3].code_name_pattern[4] != p[4]);
    assert(pattern_index_from(t, p, 3) == 5);
    assert(t[2].code_name_pattern != p);
    assert(pattern_index_from(t, p, 2) == 5);
    assert(t[1].code_name_pattern != p);
    assert(pattern_index_from(t, p, 1) == 5);
    assert(t[0].code_name_pattern != p);
    assert(pattern_index_from(t, p, 0) == 5);
}

/// The table entry of `R-x\PDP-n` is entry 11.
proof fn lemma_lookup_pdp()
    ensures
        lookup("R-x\\PDP-n"@) == Some(attr_entry(11)),
{
    reveal_strlit("G\\106");
    reveal_strlit("G\\DSC-n");
    reveal_strlit("G\\DSI-n");
    reveal_strlit("G\\DSI\\N");
    reveal_strlit("G\\DST-n");
    reveal_strlit("G\\OD");
    reveal_strlit("G\\PN");
    reveal_strlit("R-x\\CDT-n");
    reveal_strlit("R-x\\ID");
    reveal_strlit("R-x\\N");
    reveal_strlit("R-x\\PDP-n");
    reveal_strlit("R-x\\TK1-n");
    let t = attr_table();
    let p = "R-x\\PDP-n"@;
    assert(t[11].code_name_pattern == p);
    assert(pattern_index_from(t, p, 11) == 11);
    assert(t[10].code_name_pattern[4] != p[4]);
    assert(pattern_index_from(t, p, 10) == 11);
    assert(t[9].code_name_pattern[4] != p[4]);
    assert(pattern_index_from(t, p, 9) == 11);
    assert(t[8].code_name_pattern.len() != p.len());
    assert(pattern_index_from(t, p, 8) == 11);
    assert(t[7].code_name_pattern.len() != p.len());
    assert(pattern_index_from(t, p, 7) == 11);
    assert(t[6].code_name_pattern.len() != p.len());
    assert(pattern_index_from(t, p, 6) == 11);
    assert(t[5].code_name_pattern.len() != p.len());
    assert(pattern_index_from(t, p, 5) == 11);
    assert(t[4].code_name_pattern.len() != p.len());
    assert(pattern_index_from(t, p, 4) == 11);
    assert(t[3].code_name_pattern.len() != p.len());
    assert(pattern_index_from(t, p, 3) == 11);
    assert(t[2].code_name_pattern.len() != p.len());
    assert(pattern_index_from(t, p, 2) == 11);
    assert(t[1].code_name_pattern.len() != p.len());
    assert(pattern_index_from(t, p, 1) == 11);
    assert(t[0].code_name_pattern.len() != p.len());
    assert(pattern_index_from(t, p, 0) == 11);
}

/// The table entry of `P-n\D2` is entry 14.
proof fn lemma_lookup_d2()
    ensures
        lookup("P-n\\D2"@) == Some(attr_entry(14)),
{
    reveal_strlit("G\\106");
    reveal_strlit("G\\DSC-n");
    reveal_strlit("G\\DSI-n");
    reveal_strlit("G\\DSI\\N");
    reveal_strlit("G\\DST-n");
    reveal_strlit("G\\OD");
    reveal_strlit("G\\PN");
    reveal_strlit("P-n\\D1");
    reveal_strlit("P-n\\D2");
    reveal_strlit("P-n\\DLN");
    reveal_strlit("R-x\\CDT-n");
    reveal_strlit("R-x\\ID");
    reveal_strlit("R-x\\N");
    reveal_strlit("R-x\\PDP-n");
    reveal_strlit("R-x\\TK1-n");
    let t = attr_table();
    let p = "P-n\\D2"@;
    assert(t[14].code_name_pattern == p);
    assert(pattern_index_from(t, p, 14) == 14);
    assert(t[13].code_name_pattern[5] != p[5]);
    assert(pattern_index_from(t, p, 13) == 14);
    assert(t[12].code_name_pattern.len() != p.len());
    assert(pattern_index_from(t, p, 12) == 14);
    assert(t[11].code_name_pattern.len() != p.len());
    assert(pattern_index_from(t, p, 11) == 14);
    assert(t[10].code_name_pattern.len() != p.len());
    assert(pattern_index_from(t, p, 10) == 14);
    assert(t[9].code_name_pattern.len() != p.len());
    assert(pattern_index_from(t, p, 9) == 14);
    assert(t[8].code_name_pattern.len() != p.len());
    assert(pattern_index_from(t, p, 8) == 14);
    assert(t[7].code_name_pattern[0] != p[0]);
    assert(pattern_index_from(t, p, 7) == 14);
    assert(t[6].code_name_pattern.len() != p.len());
    assert(pattern_index_from(t, p, 6) == 14);
    assert(t[5].code_name_pattern.len() != p.len());
    assert(pattern_index_from(t, p, 5) == 14);
    assert(t[4].code_name_pattern.len() != p.len());
    assert(pattern_index_from(t, p, 4) == 14);
    assert(t[3].code_name_pattern.len() != p.len());
    assert(pattern_index_from(t, p, 3) == 14);
    assert(t[2].code_name_pattern.len() != p.len());
    assert(pattern_index_from(t, p, 2) == 14);
    assert(t[1].code_name_pattern.len() != p.len());
    assert(pattern_index_from(t, p, 1) == 14);
    assert(t[0].code_name_pattern.len() != p.len());
    assert(pattern_index_from(t, p, 0) == 14);
}

/// The table entry of `B-n\BT` is entry 19.
proof fn lemma_lookup_bt()
    ensures
        lookup("B-n\\BT"@) == Some(attr_entry(19)),
{
    reveal_strlit("B-n\\BT");
    reveal_strlit("B-n\\DLN");
    reveal_strlit("G\\106");
    reveal_strlit("G\\DSC-n");
    reveal_strlit("G\\DSI-n");
    reveal_strlit("G\\DSI\\N");
    reveal_strlit("G\\DST-n");
    reveal_strlit("G\\OD");
    reveal_strlit("G\\PN");
    reveal_strlit("P-n\\D1");
    reveal_strlit("P-n\\D2");
    reveal_strlit("P-n\\DLN");
    reveal_strlit("P-n\\F1");
    reveal_strlit("P-n\\F2");
    reveal_strlit("P-n\\F3");
    reveal_strlit("R-x\\CDT-n");
    reveal_strlit("R-x\\ID");
    reveal_strlit("R-x\\N");
    reveal_strlit("R-x\\PDP-n");
    reveal_strlit("R-x\\TK1-n");
    let t = attr_table();
    let p = "B-n\\BT"@;
    assert(t[19].code_name_pattern == p);
    assert(pattern_index_from(t, p, 19) == 19);
    assert(t[18].code_name_pattern.len() != p.len());
    assert(pattern_index_from(t, p, 18) == 19);
    assert(t[17].code_name_pattern[0] != p[0]);
    assert(pattern_index_from(t, p, 17) == 19);
    assert(t[16].code_name_pattern[0] != p[0]);
    assert(pattern_index_from(t, p, 16) == 19);
    assert(t[15].code_name_pattern[0] != p[0]);
    assert(pattern_index_from(t, p, 15) == 19);
    assert(t[14].code_name_pattern[0] != p[0]);
    assert(pattern_index_from(t, p, 14) == 19);
    assert(t[13].code_name_pattern[0] != p[0]);
    assert(pattern_index_from(t, p, 13) == 19);
    assert(t[12].code_name_pattern.len() != p.len());
    assert(pattern_index_from(t, p, 12) == 19);
    assert(t[11].code_name_pattern.len() != p.len());
    assert(pattern_index_from(t, p, 11) == 19);
    assert(t[10].code_name_pattern.len() != p.len());
    assert(pattern_index_from(t, p, 10) == 19);
    assert(t[9].code_name_pattern.len() != p.len());
    assert(pattern_index_from(t, p, 9) == 19);
    assert(t[8].code_name_pattern.len() != p.len());
    assert(pattern_index_from(t, p, 8) == 19);
    assert(t[7].code_name_pattern[0] != p[0]);
    assert(pattern_index_from(t, p, 7) == 19);
    assert(t[6].code_name_pattern.len() != p.len());
    assert(pattern_index_from(t, p, 6) == 19);
    assert(t[5].code_name_pattern.len() != p.len());
    assert(pattern_index_from(t, p, 5) == 19);
    assert(t[4].code_name_pattern.len() != p.len());
    assert(pattern_index_from(t, p, 4) == 19);
    assert(t[3].code_name_pattern.len() != p.len());
    assert(pattern_index_from(t, p, 3) == 19);
    assert(t[2].code_name_pattern.len() != p.len());
    assert(pattern_index_from(t, p, 2) == 19);
    assert(t[1].code_name_pattern.len() != p.len());
    assert(pattern_index_from(t, p, 1) == 19);
    assert(t[0].code_name_pattern.len() != p.len());
    assert(pattern_index_from(t, p, 0) == 19);
}

/// A keyword of the table, as written there, passes its own keyword check.
proof fn lemma_keyword_listed(m: AttrMetaV, i: int)
    requires
        0 <= i < m.keywords.len(),
        m.keywords[i].len() > 0,
        !is_white(m.keywords[i][0]),
        !is_white(m.keywords[i].last()),
    ensures
        m.keyword_ok(m.keywords[i]),
{
    let v = m.keywords[i];
    assert(trim_start(v) == v);
    assert(trim_end(v) == v);
    assert(upper(upper(v)) =~= upper(v));
    assert(eq_ignore_case(m.keywords[i], upper(trim(v))));
}

/// The values that generation writes pass the keyword checks of their attributes.
proof fn lemma_generated_keywords()
    ensures
        attr_entry(5).keyword_ok("REC"@),
        attr_entry(11).keyword_ok("UN"@),
        attr_entry(14).keyword_ok("NRZ-L"@),
        attr_entry(19).keyword_ok("1553"@),
        attr_entry(19).keyword_ok("A429"@),
{
    reveal_strlit("REC");
    reveal_strlit("UN");
    reveal_strlit("NRZ-L");
    reveal_strlit("1553");
    reveal_strlit("A429");
    lemma_keyword_listed(attr_entry(5), 0);
    lemma_keyword_listed(attr_entry(11), 0);
    lemma_keyword_listed(attr_entry(14), 0);
    lemma_keyword_listed(attr_entry(19), 0);
    lemma_keyword_listed(attr_entry(19), 1);
}

/// Every PCM entry of the inventory carries an observed bit rate.
pub open spec fn pcm_rates_known(es: Seq<ChannelInventoryEntryV>) -> bool {
    forall|i: int| 0 <= i < es.len() && (#[trigger] es[i]).data_type.spec_tmats_group() == Some(GroupPrefix::P)
        ==> es[i].observed_bit_rate is Some
}

/// Every key of `m` is at most `n`.
spec fn keys_at_most<W>(m: Seq<(u32, W)>, n: int) -> bool {
    forall|j: int| 0 <= j < m.len() ==> (#[trigger] m[j]).0 <= n
}

/// Every data source is of type `REC`.
spec fn sources_ok(ds: Seq<(u32, DataSourceDeclV)>) -> bool {
    forall|j: int| 0 <= j < ds.len() ==> (#[trigger] ds[j]).1.data_source_type == Some("REC"@)
}

/// Every channel is unpacked (`UN`).
spec fn channels_ok(chs: Seq<(u32, RChannelV)>) -> bool {
    forall|j: int| 0 <= j < chs.len() ==> (#[trigger] chs[j]).1.data_packing_option == Some("UN"@)
}

/// Every PCM format has its required attributes, encoded NRZ-L.
spec fn pcm_ok(ps: Seq<(u32, PGroupV)>) -> bool {
    forall|j: int| 0 <= j < ps.len() ==> {
        let p = (#[trigger] ps[j]).1;
        &&& p.data_link_name is Some
        &&& p.bit_rate is Some
        &&& p.encoding == Some("NRZ-L"@)
        &&& p.num_words_per_frame is Some
        &&& p.num_bits_per_word is Some
        &&& p.sync_pattern is Some
    }
}

/// Every bus format has a link name and a bus type of `1553` or `A429`.
spec fn bus_ok(bs: Seq<(u32, BGroupV)>) -> bool {
    forall|j: int| 0 <= j < bs.len() ==> {
        let b = (#[trigger] bs[j]).1;
        &&& b.data_link_name is Some
        &&& (b.bus_type == Some("1553"@) || b.bus_type == Some("A429"@))
    }
}

/// Putting a key above every key of `m` appends it.
proof fn lemma_put_fresh<W>(m: Seq<(u32, W)>, k: u32, v: W)
    requires
        forall|j: int| 0 <= j < m.len() ==> (#[trigger] m[j]).0 < k,
    ensures
        assoc_put(m, k, v) == m.push((k, v)),
{
    lemma_assoc_find(m, k);
}

/// The shape of the generated parts: one data source and one channel per
/// entry, keyed by position, with the values generation writes.
proof fn lemma_gen_parts(es: Seq<ChannelInventoryEntryV>)
    requires
        es.len() <= u32::MAX,
        pcm_rates_known(es),
    ensures
        ({
            let (ds, chs, ps, bs, ss) = gen_parts(es);
            &&& ds.len() == es.len()
            &&& chs.len() == es.len()
            &&& keys_at_most(ds, es.len() as int)
            &&& keys_at_most(chs, es.len() as int)
            &&& keys_at_most(ps, es.len() as int)
            &&& keys_at_most(bs, es.len() as int)
            &&& keys_at_most(ss, es.len() as int)
            &&& sources_ok(ds)
            &&& channels_ok(chs)
            &&& pcm_ok(ps)
            &&& bus_ok(bs)
        }),
    decreases es.len(),
{
    if es.len() > 0 {
        let es0 = es.drop_last();
        assert forall|i: int| 0 <= i < es0.len() && (#[trigger] es0[i]).data_type.spec_tmats_group() == Some(GroupPrefix::P)
            implies es0[i].observed_bit_rate is Some by {
            assert(es0[i] == es[i]);
        }
        lemma_gen_parts(es0);
        let (ds, chs, ps, bs, ss) = gen_parts(es0);
        let e = es.last();
        let k = es.len() as u32;
        assert(k == es.len());
        lemma_put_fresh(ds, k, source_of(e));
        lemma_put_fresh(chs, k, channel_of(e));
        lemma_put_fresh(ps, k, pcm_stub(e));
        lemma_put_fresh(bs, k, BGroupV { data_link_name: Some(link_text(e.channel_id)), bus_type: bus_type_of(e.data_type), ..BGroup::default_model() });
        lemma_put_fresh(ss, k, SGroupV { data_link_name: Some(link_text(e.channel_id)), ..SGroup::default_model() });
        assert(e == es[es.len() - 1]);
    }
}

/// PCM formats with their required attributes raise no V060 finding.
proof fn lemma_v060_clean(ps: Seq<(u32, PGroupV)>)
    requires
        pcm_ok(ps),
    ensures
        v060_all(ps) == Seq::<DiagnosticV>::empty(),
    decreases ps.len(),
{
    if ps.len() > 0 {
        let p0 = ps.drop_last();
        assert forall|j: int| 0 <= j < p0.len() implies #[trigger] p0[j] == ps[j] by {}
        lemma_v060_clean(p0);
        assert(ps.last() == ps[ps.len() - 1]);
    }
}

/// Bus formats with link name and bus type raise no V061 finding.
proof fn lemma_v061_clean(bs: Seq<(u32, BGroupV)>)
    requires
        bus_ok(bs),
    ensures
        v061_all(bs) == Seq::<DiagnosticV>::empty(),
    decreases bs.len(),
{
    if bs.len() > 0 {
        let b0 = bs.drop_last();
        assert forall|j: int| 0 <= j < b0.len() implies #[trigger] b0[j] == bs[j] by {}
        lemma_v061_clean(b0);
        assert(bs.last() == bs[bs.len() - 1]);
    }
}

/// `REC` data sources raise no V030 finding when `REC` is a keyword.
proof fn lemma_v030_clean(ds: Seq<(u32, DataSourceDeclV)>, m: AttrMetaV)
    requires
        sources_ok(ds),
        m.keyword_ok("REC"@),
    ensures
        v030_all(ds, m) == Seq::<DiagnosticV>::empty(),
    decreases ds.len(),
{
    if ds.len() > 0 {
        let d0 = ds.drop_last();
        assert forall|j: int| 0 <= j < d0.len() implies #[trigger] d0[j] == ds[j] by {}
        lemma_v030_clean(d0, m);
        assert(ds.last() == ds[ds.len() - 1]);
    }
}

/// Unpacked channels raise no V031 finding when `UN` is a keyword.
proof fn lemma_v031_clean(acc: Seq<DiagnosticV>, ri: u32, chs: Seq<(u32, RChannelV)>, m: AttrMetaV)
    requires
        channels_ok(chs),
        m.keyword_ok("UN"@),
    ensures
        v031_chans(acc, ri, chs, m) == acc,
    decreases chs.len(),
{
    if chs.len() > 0 {
        let c0 = chs.drop_last();
        assert forall|j: int| 0 <= j < c0.len() implies #[trigger] c0[j] == chs[j] by {}
        lemma_v031_clean(acc, ri, c0, m);
        assert(chs.last() == chs[chs.len() - 1]);
    }
}

/// NRZ-L formats raise no V032 finding when `NRZ-L` is a keyword.
proof fn lemma_v032_clean(ps: Seq<(u32, PGroupV)>, m: AttrMetaV)
    requires
        pcm_ok(ps),
        m.keyword_ok("NRZ-L"@),
    ensures
        v032_all(ps, m) == Seq::<DiagnosticV>::empty(),
    decreases ps.len(),
{
    if ps.len() > 0 {
        let p0 = ps.drop_last();
        assert forall|j: int| 0 <= j < p0.len() implies #[trigger] p0[j] == ps[j] by {}
        lemma_v032_clean(p0, m);
        assert(ps.last() == ps[ps.len() - 1]);
    }
}

/// `1553` and `A429` bus types raise no V033 finding when both are keywords.
proof fn lemma_v033_clean(bs: Seq<(u32, BGroupV)>, m: AttrMetaV)
    requires
        bus_ok(bs),
        m.keyword_ok("1553"@),
        m.keyword_ok("A429"@),
    ensures
        v033_all(bs, m) == Seq::<DiagnosticV>::empty(),
    decreases bs.len(),
{
    if bs.len() > 0 {
        let b0 = bs.drop_last();
        assert forall|j: int| 0 <= j < b0.len() implies #[trigger] b0[j] == bs[j] by {}
        lemma_v033_clean(b0, m);
        assert(bs.last() == bs[bs.len() - 1]);
    }
}

/// Unmatched link names are warnings: they add no error.
proof fn lemma_v020_chans_errs(acc: Seq<DiagnosticV>, ri: u32, chs: Seq<(u32, RChannelV)>, known: Seq<Seq<char>>)
    ensures
        errs(v020_chans(acc, ri, chs, known)) == errs(acc),
    decreases chs.len(),
{
    if chs.len() > 0 {
        lemma_v020_chans_errs(acc, ri, chs.drop_last(), known);
        lemma_errs_push(v020_chans(acc, ri, chs.drop_last(), known));
    }
}

/// A document generated from an inventory whose PCM entries all carry an
/// observed bit rate passes validation without errors: each data source,
/// channel and format stub has its required attributes, the counters match,
/// and every keyword it writes is one the attribute table lists.
pub proof fn law_generated_document_has_no_errors(b: TmatsBuilderV)
    requires
        b.channels.len() <= u32::MAX,
        pcm_rates_known(b.channels),
    ensures
        error_count(generated(b)) == 0,
{
    let d = generated(b);
    let (ds, _chs, ps, bs, _ss) = gen_parts(b.channels);
    lemma_gen_parts(b.channels);
    lemma_error_count_rules(d);
    let e = Seq::<DiagnosticV>::empty();
    assert(errs(e) == 0);
    assert(v001(d) == e);
    assert(v002(d) == e);
    lemma_v060_clean(ps);
    lemma_v061_clean(bs);
    assert(v010(d) == e);
    let r = d.recorders[0].1;
    assert(d.recorders.drop_last() =~= Seq::<(u32, RGroupV)>::empty());
    assert(d.recorders.last() == (1u32, r));
    assert(v011_all(d.recorders.drop_last()) == e);
    assert(r.channels.len() == b.channels.len());
    assert(v011(d) == e);
    lemma_v020_chans_errs(e, 1, r.channels, known_spec(d));
    assert(v020_all(d.recorders.drop_last(), known_spec(d)) == e);
    assert(errs(v020(d)) == 0);
    lemma_lookup_dst();
    lemma_lookup_pdp();
    lemma_lookup_d2();
    lemma_lookup_bt();
    lemma_generated_keywords();
    lemma_v030_clean(ds, attr_entry(5));
    lemma_v031_clean(e, 1, r.channels, attr_entry(11));
    assert(v031_all(d.recorders.drop_last(), attr_entry(11)) == e);
    lemma_v032_clean(ps, attr_entry(14));
    lemma_v033_clean(bs, attr_entry(19));
    assert(keyword_findings("G\\DST-n"@, d, 30) == e);
    assert(keyword_findings("R-x\\PDP-n"@, d, 31) == e);
    assert(keyword_findings("P-n\\D2"@, d, 32) == e);
    assert(keyword_findings("B-n\\BT"@, d, 33) == e);
    assert(v040(d) == e);
    lemma_errs_push(e);
    assert(errs(mfs_findings(d)) == 0);
}

} // verus!
