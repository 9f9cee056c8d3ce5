//! The TMATS domain model: one type per attribute group, their repeated
//! entries keyed by occurrence index, and the attributes that no typed field
//! holds kept raw for lossless round-tripping.
//!
//! Every type has a view in which texts are character sequences and keyed
//! maps are sequences of `(index, entry)` pairs in insertion order.
//! Decimal-valued attributes (bit rate, frequencies, power) are held as the
//! trimmed text that parses as a floating-point literal.
use vstd::prelude::*;
use crate::error::{opt_text, texts, views, Diagnostic, DiagnosticV};
use crate::ordered_map::{OrderedMap, DefaultModel};
use crate::text::{split, split_chars, chars_of, parse_unsigned, parse_unsigned_range, dec_padded, push_str, push_dec_padded};
use crate::types_bridge::{GroupPrefix, Irig106Version};

verus! {

// ─── Raw attributes and code-names ──────────────────────────────────────────

/// A single segment in a code-name path, e.g. `TK1-3` in `R-1\TK1-3`.
#[derive(Debug, Clone)]
pub struct PathSegment {
    /// Attribute name within this segment.
    pub name: String,
    /// Optional occurrence index (the `-N` suffix).
    pub index: Option<u32>,
}

/// The model of a [`PathSegment`].
pub struct PathSegmentV {
    pub name: Seq<char>,
    pub index: Option<u32>,
}

impl View for PathSegment {
    type V = PathSegmentV;

    open spec fn view(&self) -> PathSegmentV {
        PathSegmentV { name: self.name@, index: self.index }
    }
}

/// Decomposed TMATS code-name: `R-1\TK1-3` is group `R`, occurrence `1`,
/// path `[TK1 (3)]`.
#[derive(Debug, Clone)]
pub struct CodeName {
    /// Group prefix letter (G, T, R, M, P, D, B, S, C).
    pub group: GroupPrefix,
    /// Top-level occurrence index (e.g., `R-1` gives `Some(1)`).
    pub occurrence: Option<u32>,
    /// Hierarchical path segments after the group prefix.
    pub path: Vec<PathSegment>,
}

/// The model of a [`CodeName`].
pub struct CodeNameV {
    pub group: GroupPrefix,
    pub occurrence: Option<u32>,
    pub path: Seq<PathSegmentV>,
}

impl View for CodeName {
    type V = CodeNameV;

    open spec fn view(&self) -> CodeNameV {
        CodeNameV { group: self.group, occurrence: self.occurrence, path: views(self.path@) }
    }
}

impl CodeName {
    /// The same value; every text of the model is already owned.
    pub fn into_owned_cn(self) -> (r: CodeName)
        ensures
            r@ == self@,
    {
        self
    }
}

/// A parsed but un-structured TMATS attribute, also used to keep the
/// attributes that no typed field holds.
#[derive(Debug, Clone)]
pub struct RawAttribute {
    /// Parsed code-name components.
    pub code_name: CodeName,
    /// The code-name exactly as it was written.
    pub raw_code_name: String,
    /// Attribute value.
    pub value: String,
    /// Byte offset in source input.
    pub byte_offset: usize,
    /// 1-based line number.
    pub line: u32,
}

/// The model of a [`RawAttribute`].
pub struct RawAttributeV {
    pub code_name: CodeNameV,
    pub raw_code_name: Seq<char>,
    pub value: Seq<char>,
    pub byte_offset: usize,
    pub line: u32,
}

impl View for RawAttribute {
    type V = RawAttributeV;

    open spec fn view(&self) -> RawAttributeV {
        RawAttributeV {
            code_name: self.code_name@,
            raw_code_name: self.raw_code_name@,
            value: self.value@,
            byte_offset: self.byte_offset,
            line: self.line,
        }
    }
}

impl RawAttribute {
    /// The same value; every text of the model is already owned.
    pub fn into_owned(self) -> (r: RawAttribute)
        ensures
            r@ == self@,
    {
        self
    }
}

// ─── Dates ──────────────────────────────────────────────────────────────────

/// Date as represented in TMATS (MM-DD-YYYY).
#[derive(Debug, Clone, Copy, PartialEq, Eq, Hash, Structural)]
pub struct TmatsDate {
    pub month: u8,
    pub day: u8,
    pub year: u16,
}

/// The date whose three `-`-separated parts `a`, `b`, `c` parse as numbers,
/// read in the order month, day, year (`xml_order` false) or year, month, day.
pub open spec fn date_from_parts(s: Seq<char>, xml_order: bool) -> Option<TmatsDate> {
    let parts = split(s, '-');
    if parts.len() != 3 {
        None
    } else {
        let (pm, pd, py) = if xml_order {
            (parts[1], parts[2], parts[0])
        } else {
            (parts[0], parts[1], parts[2])
        };
        match (parse_unsigned(pm, 255), parse_unsigned(pd, 255), parse_unsigned(py, 65535)) {
            (Some(m), Some(d), Some(y)) => Some(TmatsDate { month: m as u8, day: d as u8, year: y as u16 }),
            _ => None,
        }
    }
}

impl TmatsDate {
    /// The TMATS text of a date, `MM-DD-YYYY`, zero-padded.
    pub open spec fn spec_tmats_text(self) -> Seq<char> {
        dec_padded(self.month as nat, 2) + seq!['-'] + dec_padded(self.day as nat, 2) + seq!['-']
            + dec_padded(self.year as nat, 4)
    }

    /// Parse from TMATS ASCII format "MM-DD-YYYY".
    pub fn from_tmats_str(s: &str) -> (r: Option<Self>)
        ensures
            r == date_from_parts(s@, false),
    {
        Self::from_parts(s, false)
    }

    /// Parse from XML standard format "YYYY-MM-DD".
    pub fn from_xml_str(s: &str) -> (r: Option<Self>)
        ensures
            r == date_from_parts(s@, true),
    {
        Self::from_parts(s, true)
    }

    fn from_parts(s: &str, xml_order: bool) -> (r: Option<Self>)
        ensures
            r == date_from_parts(s@, xml_order),
    {
        let v = chars_of(s);
        let parts = split_chars(&v, '-');
        proof {
            assert(parts@.len() == split(s@, '-').len());
        }
        if parts.len() != 3 {
            return None;
        }
        let ghost sp = split(s@, '-');
        assert(parts[0]@ == sp[0]);
        assert(parts[1]@ == sp[1]);
        assert(parts[2]@ == sp[2]);
        let (im, id, iy) = if xml_order { (1usize, 2usize, 0usize) } else { (0usize, 1usize, 2usize) };
        let m = parse_unsigned_range(&parts[im], 0, parts[im].len(), 255);
        let d = parse_unsigned_range(&parts[id], 0, parts[id].len(), 255);
        let y = parse_unsigned_range(&parts[iy], 0, parts[iy].len(), 65535);
        assert(parts[im as int]@.subrange(0, parts[im as int]@.len() as int) =~= parts[im as int]@);
        assert(parts[id as int]@.subrange(0, parts[id as int]@.len() as int) =~= parts[id as int]@);
        assert(parts[iy as int]@.subrange(0, parts[iy as int]@.len() as int) =~= parts[iy as int]@);
        match (m, d, y) {
            (Some(m), Some(d), Some(y)) => Some(TmatsDate { month: m as u8, day: d as u8, year: y as u16 }),
            _ => None,
        }
    }

    /// Emits TMATS ASCII format "MM-DD-YYYY".
    pub fn to_string(&self) -> (r: String)
        ensures
            r@ == self.spec_tmats_text(),
    {
        let mut s = String::new();
        push_dec_padded(&mut s, self.month as u64, 2);
        push_str(&mut s, "-");
        push_dec_padded(&mut s, self.day as u64, 2);
        push_str(&mut s, "-");
        push_dec_padded(&mut s, self.year as u64, 4);
        proof {
            reveal_strlit("-");
        }
        assert(s@ =~= self.spec_tmats_text());
        s
    }
}

// ─── Data link names ────────────────────────────────────────────────────────

/// Typed cross-group reference key, linking R-group channels to the
/// P/B/S/D/C groups that describe their data.
#[derive(Debug, Clone)]
pub struct DataLinkName(pub String);

impl DataLinkName {
    pub fn as_str(&self) -> (r: &str)
        ensures
            r@ == self.0@,
    {
        self.0.as_str()
    }

    pub fn to_owned_link(&self) -> (r: DataLinkName)
        ensures
            r.0@ == self.0@,
    {
        DataLinkName(self.0.clone())
    }
}

// ─── Conversion pairs ───────────────────────────────────────────────────────

/// A single raw-to-EU conversion pair, each value as its decimal text.
#[derive(Debug, Clone)]
pub struct ConversionPairSet {
    pub raw_value: String,
    pub eu_value: String,
}

/// The model of a [`ConversionPairSet`].
pub struct ConversionPairSetV {
    pub raw_value: Seq<char>,
    pub eu_value: Seq<char>,
}

impl View for ConversionPairSet {
    type V = ConversionPairSetV;

    open spec fn view(&self) -> ConversionPairSetV {
        ConversionPairSetV { raw_value: self.raw_value@, eu_value: self.eu_value@ }
    }
}

// ─── Groups ──────────────────────────────────────────────────────────────────

/// General Information group (G).
#[derive(Debug, Clone)]
pub struct GGroup {
    /// G\PN — Program Name
    pub program_name: Option<String>,
    /// G\106 — IRIG 106 Standard Version
    pub irig106_version: Option<String>,
    /// G\OD — Origination Date (MM-DD-YYYY)
    pub origination_date: Option<TmatsDate>,
    /// G\RN — Revision Number
    pub revision_number: Option<String>,
    /// G\RD — Revision Date
    pub revision_date: Option<TmatsDate>,
    /// G\UN — Update Number
    pub update_number: Option<String>,
    /// G\UD — Update Date
    pub update_date: Option<TmatsDate>,
    /// G\TN — Test Number
    pub test_number: Option<String>,
    /// G\DSI\N — Number of Data Sources
    pub num_data_sources: Option<u32>,
    /// Data source declarations, keyed by occurrence index.
    pub data_sources: OrderedMap<DataSourceDecl>,
    /// G\POC\N — Number of Points of Contact
    pub num_points_of_contact: Option<u32>,
    /// Points of contact, keyed by occurrence index.
    pub points_of_contact: OrderedMap<PointOfContact>,
    /// G\COM — Comments
    pub comments: Vec<String>,
    /// Unrecognized G-group attributes
    pub extra: Vec<RawAttribute>,
}

/// The model of a [`GGroup`]: texts as character sequences, maps as keyed sequences.
pub struct GGroupV {
    pub program_name: Option<Seq<char>>,
    pub irig106_version: Option<Seq<char>>,
    pub origination_date: Option<TmatsDate>,
    pub revision_number: Option<Seq<char>>,
    pub revision_date: Option<TmatsDate>,
    pub update_number: Option<Seq<char>>,
    pub update_date: Option<TmatsDate>,
    pub test_number: Option<Seq<char>>,
    pub num_data_sources: Option<u32>,
    pub data_sources: Seq<(u32, DataSourceDeclV)>,
    pub num_points_of_contact: Option<u32>,
    pub points_of_contact: Seq<(u32, PointOfContactV)>,
    pub comments: Seq<Seq<char>>,
    pub extra: Seq<RawAttributeV>,
}

impl View for GGroup {
    type V = GGroupV;

    open spec fn view(&self) -> GGroupV {
        GGroupV {
            program_name: opt_text(self.program_name),
            irig106_version: opt_text(self.irig106_version),
            origination_date: self.origination_date,
            revision_number: opt_text(self.revision_number),
            revision_date: self.revision_date,
            update_number: opt_text(self.update_number),
            update_date: self.update_date,
            test_number: opt_text(self.test_number),
            num_data_sources: self.num_data_sources,
            data_sources: self.data_sources@,
            num_points_of_contact: self.num_points_of_contact,
            points_of_contact: self.points_of_contact@,
            comments: texts(self.comments@),
            extra: views(self.extra@),
        }
    }
}

impl DefaultModel for GGroup {
    open spec fn default_model() -> GGroupV {
        GGroupV {
            program_name: None,
            irig106_version: None,
            origination_date: None,
            revision_number: None,
            revision_date: None,
            update_number: None,
            update_date: None,
            test_number: None,
            num_data_sources: None,
            data_sources: Seq::<(u32, DataSourceDeclV)>::empty(),
            num_points_of_contact: None,
            points_of_contact: Seq::<(u32, PointOfContactV)>::empty(),
            comments: Seq::<Seq<char>>::empty(),
            extra: Seq::<RawAttributeV>::empty(),
        }
    }

    fn default_value() -> (r: Self) {
        let r = GGroup {
            program_name: None,
            irig106_version: None,
            origination_date: None,
            revision_number: None,
            revision_date: None,
            update_number: None,
            update_date: None,
            test_number: None,
            num_data_sources: None,
            data_sources: OrderedMap::new(),
            num_points_of_contact: None,
            points_of_contact: OrderedMap::new(),
            comments: Vec::new(),
            extra: Vec::new(),
        };

        assert(texts(r.comments@) =~= Seq::<Seq<char>>::empty());
        assert(views(r.extra@) =~= Seq::<RawAttributeV>::empty());
        r
    }
}

impl Default for GGroup {
    fn default() -> (r: Self)
        ensures
            r@ == GGroup::default_model(),
    {
        GGroup::default_value()
    }
}

impl GGroup {
    /// The same value; every text of the model is already owned.
    pub fn into_owned(self) -> (r: GGroup)
        ensures
            r@ == self@,
    {
        self
    }
}

/// Data source declaration from the G-group.
#[derive(Debug, Clone)]
pub struct DataSourceDecl {
    /// G\DSI-n — Data Source Identifier
    pub data_source_id: Option<String>,
    /// G\DST-n — Data Source Type
    pub data_source_type: Option<String>,
    /// G\DSC-n — Data Source Classification
    pub classification: Option<String>,
    /// Unrecognized attributes in this data source scope.
    pub extra: Vec<RawAttribute>,
}

/// The model of a [`DataSourceDecl`]: texts as character sequences, maps as keyed sequences.
pub struct DataSourceDeclV {
    pub data_source_id: Option<Seq<char>>,
    pub data_source_type: Option<Seq<char>>,
    pub classification: Option<Seq<char>>,
    pub extra: Seq<RawAttributeV>,
}

impl View for DataSourceDecl {
    type V = DataSourceDeclV;

    open spec fn view(&self) -> DataSourceDeclV {
        DataSourceDeclV {
            data_source_id: opt_text(self.data_source_id),
            data_source_type: opt_text(self.data_source_type),
            classification: opt_text(self.classification),
            extra: views(self.extra@),
        }
    }
}

impl DefaultModel for DataSourceDecl {
    open spec fn default_model() -> DataSourceDeclV {
        DataSourceDeclV {
            data_source_id: None,
            data_source_type: None,
            classification: None,
            extra: Seq::<RawAttributeV>::empty(),
        }
    }

    fn default_value() -> (r: Self) {
        let r = DataSourceDecl {
            data_source_id: None,
            data_source_type: None,
            classification: None,
            extra: Vec::new(),
        };

        assert(views(r.extra@) =~= Seq::<RawAttributeV>::empty());
        r
    }
}

impl Default for DataSourceDecl {
    fn default() -> (r: Self)
        ensures
            r@ == DataSourceDecl::default_model(),
    {
        DataSourceDecl::default_value()
    }
}

impl DataSourceDecl {
    /// The same value; every text of the model is already owned.
    pub fn into_owned(self) -> (r: DataSourceDecl)
        ensures
            r@ == self@,
    {
        self
    }
}

/// Point of contact from the G-group.
#[derive(Debug, Clone)]
pub struct PointOfContact {
    pub name: Option<String>,
    pub agency: Option<String>,
    pub address: Option<String>,
    pub telephone: Option<String>,
    pub extra: Vec<RawAttribute>,
}

/// The model of a [`PointOfContact`]: texts as character sequences, maps as keyed sequences.
pub struct PointOfContactV {
    pub name: Option<Seq<char>>,
    pub agency: Option<Seq<char>>,
    pub address: Option<Seq<char>>,
    pub telephone: Option<Seq<char>>,
    pub extra: Seq<RawAttributeV>,
}

impl View for PointOfContact {
    type V = PointOfContactV;

    open spec fn view(&self) -> PointOfContactV {
        PointOfContactV {
            name: opt_text(self.name),
            agency: opt_text(self.agency),
            address: opt_text(self.address),
            telephone: opt_text(self.telephone),
            extra: views(self.extra@),
        }
    }
}

impl DefaultModel for PointOfContact {
    open spec fn default_model() -> PointOfContactV {
        PointOfContactV {
            name: None,
            agency: None,
            address: None,
            telephone: None,
            extra: Seq::<RawAttributeV>::empty(),
        }
    }

    fn default_value() -> (r: Self) {
        let r = PointOfContact {
            name: None,
            agency: None,
            address: None,
            telephone: None,
            extra: Vec::new(),
        };

        assert(views(r.extra@) =~= Seq::<RawAttributeV>::empty());
        r
    }
}

impl Default for PointOfContact {
    fn default() -> (r: Self)
        ensures
            r@ == PointOfContact::default_model(),
    {
        PointOfContact::default_value()
    }
}

impl PointOfContact {
    /// The same value; every text of the model is already owned.
    pub fn into_owned(self) -> (r: PointOfContact)
        ensures
            r@ == self@,
    {
        self
    }
}

/// Transmission Attributes group (T).
#[derive(Debug, Clone)]
pub struct TGroup {
    /// T-n\ID — Transmitter Identification
    pub transmitter_id: Option<String>,
    /// T-n\CF — Carrier Frequency (MHz), as its decimal text
    pub carrier_frequency_mhz: Option<String>,
    /// T-n\MT — Modulation Type
    pub modulation_type: Option<String>,
    /// T-n\PW — Total Transmitted Power (Watts), as its decimal text
    pub power_watts: Option<String>,
    /// T-n\AT — Transmit Antenna Type
    pub antenna_type: Option<String>,
    /// T-n\AP — Transmit Antenna Polarization
    pub antenna_polarization: Option<String>,
    /// T-n\COM — Comments
    pub comments: Vec<String>,
    pub extra: Vec<RawAttribute>,
}

/// The model of a [`TGroup`]: texts as character sequences, maps as keyed sequences.
pub struct TGroupV {
    pub transmitter_id: Option<Seq<char>>,
    pub carrier_frequency_mhz: Option<Seq<char>>,
    pub modulation_type: Option<Seq<char>>,
    pub power_watts: Option<Seq<char>>,
    pub antenna_type: Option<Seq<char>>,
    pub antenna_polarization: Option<Seq<char>>,
    pub comments: Seq<Seq<char>>,
    pub extra: Seq<RawAttributeV>,
}

impl View for TGroup {
    type V = TGroupV;

    open spec fn view(&self) -> TGroupV {
        TGroupV {
            transmitter_id: opt_text(self.transmitter_id),
            carrier_frequency_mhz: opt_text(self.carrier_frequency_mhz),
            modulation_type: opt_text(self.modulation_type),
            power_watts: opt_text(self.power_watts),
            antenna_type: opt_text(self.antenna_type),
            antenna_polarization: opt_text(self.antenna_polarization),
            comments: texts(self.comments@),
            extra: views(self.extra@),
        }
    }
}

impl DefaultModel for TGroup {
    open spec fn default_model() -> TGroupV {
        TGroupV {
            transmitter_id: None,
            carrier_frequency_mhz: None,
            modulation_type: None,
            power_watts: None,
            antenna_type: None,
            antenna_polarization: None,
            comments: Seq::<Seq<char>>::empty(),
            extra: Seq::<RawAttributeV>::empty(),
        }
    }

    fn default_value() -> (r: Self) {
        let r = TGroup {
            transmitter_id: None,
            carrier_frequency_mhz: None,
            modulation_type: None,
            power_watts: None,
            antenna_type: None,
            antenna_polarization: None,
            comments: Vec::new(),
            extra: Vec::new(),
        };

        assert(texts(r.comments@) =~= Seq::<Seq<char>>::empty());
        assert(views(r.extra@) =~= Seq::<RawAttributeV>::empty());
        r
    }
}

impl Default for TGroup {
    fn default() -> (r: Self)
        ensures
            r@ == TGroup::default_model(),
    {
        TGroup::default_value()
    }
}

impl TGroup {
    /// The same value; every text of the model is already owned.
    pub fn into_owned(self) -> (r: TGroup)
        ensures
            r@ == self@,
    {
        self
    }
}

/// Recorder-Reproducer Attributes group (R).
#[derive(Debug, Clone)]
pub struct RGroup {
    /// R-x\ID — Recorder Identification
    pub recorder_id: Option<String>,
    /// R-x\RI1 — Recorder Description
    pub recorder_description: Option<String>,
    /// R-x\RMT — Recorder Media Type
    pub media_type: Option<String>,
    /// R-x\N — Number of channels/tracks
    pub num_channels: Option<u32>,
    /// Channel definitions, keyed by track index.
    pub channels: OrderedMap<RChannel>,
    /// Drive definitions.
    pub drives: OrderedMap<RDrive>,
    /// R-x\IDX\E — Index enabled ("T"/"F")
    pub index_enabled: Option<bool>,
    /// R-x\EV\E — Events enabled
    pub events_enabled: Option<bool>,
    /// R-x\COM — Comments
    pub comments: Vec<String>,
    pub extra: Vec<RawAttribute>,
}

/// The model of a [`RGroup`]: texts as character sequences, maps as keyed sequences.
pub struct RGroupV {
    pub recorder_id: Option<Seq<char>>,
    pub recorder_description: Option<Seq<char>>,
    pub media_type: Option<Seq<char>>,
    pub num_channels: Option<u32>,
    pub channels: Seq<(u32, RChannelV)>,
    pub drives: Seq<(u32, RDriveV)>,
    pub index_enabled: Option<bool>,
    pub events_enabled: Option<bool>,
    pub comments: Seq<Seq<char>>,
    pub extra: Seq<RawAttributeV>,
}

impl View for RGroup {
    type V = RGroupV;

    open spec fn view(&self) -> RGroupV {
        RGroupV {
            recorder_id: opt_text(self.recorder_id),
            recorder_description: opt_text(self.recorder_description),
            media_type: opt_text(self.media_type),
            num_channels: self.num_channels,
            channels: self.channels@,
            drives: self.drives@,
            index_enabled: self.index_enabled,
            events_enabled: self.events_enabled,
            comments: texts(self.comments@),
            extra: views(self.extra@),
        }
    }
}

impl DefaultModel for RGroup {
    open spec fn default_model() -> RGroupV {
        RGroupV {
            recorder_id: None,
            recorder_description: None,
            media_type: None,
            num_channels: None,
            channels: Seq::<(u32, RChannelV)>::empty(),
            drives: Seq::<(u32, RDriveV)>::empty(),
            index_enabled: None,
            events_enabled: None,
            comments: Seq::<Seq<char>>::empty(),
            extra: Seq::<RawAttributeV>::empty(),
        }
    }

    fn default_value() -> (r: Self) {
        let r = RGroup {
            recorder_id: None,
            recorder_description: None,
            media_type: None,
            num_channels: None,
            channels: OrderedMap::new(),
            drives: OrderedMap::new(),
            index_enabled: None,
            events_enabled: None,
            comments: Vec::new(),
            extra: Vec::new(),
        };

        assert(texts(r.comments@) =~= Seq::<Seq<char>>::empty());
        assert(views(r.extra@) =~= Seq::<RawAttributeV>::empty());
        r
    }
}

impl Default for RGroup {
    fn default() -> (r: Self)
        ensures
            r@ == RGroup::default_model(),
    {
        RGroup::default_value()
    }
}

impl RGroup {
    /// The same value; every text of the model is already owned.
    pub fn into_owned(self) -> (r: RGroup)
        ensures
            r@ == self@,
    {
        self
    }
}

/// A single channel/track within an R-group.
#[derive(Debug, Clone)]
pub struct RChannel {
    /// R-x\TK1-n — Track/Channel Number
    pub channel_id: Option<u16>,
    /// R-x\CDT-n — Channel Data Type
    pub data_type: Option<String>,
    /// R-x\DSI-n — Data Source ID (link to G-group data source)
    pub data_source_id: Option<String>,
    /// R-x\CDLN-n — Channel Data Link Name (cross-group link to P/B/S)
    pub data_link_name: Option<String>,
    /// R-x\PDP-n — Data Packing Option (UN/PFS/TM)
    pub data_packing_option: Option<String>,
    /// R-x\CHE-n — Channel Enabled
    pub channel_enabled: Option<bool>,
    pub extra: Vec<RawAttribute>,
}

/// The model of a [`RChannel`]: texts as character sequences, maps as keyed sequences.
pub struct RChannelV {
    pub channel_id: Option<u16>,
    pub data_type: Option<Seq<char>>,
    pub data_source_id: Option<Seq<char>>,
    pub data_link_name: Option<Seq<char>>,
    pub data_packing_option: Option<Seq<char>>,
    pub channel_enabled: Option<bool>,
    pub extra: Seq<RawAttributeV>,
}

impl View for RChannel {
    type V = RChannelV;

    open spec fn view(&self) -> RChannelV {
        RChannelV {
            channel_id: self.channel_id,
            data_type: opt_text(self.data_type),
            data_source_id: opt_text(self.data_source_id),
            data_link_name: opt_text(self.data_link_name),
            data_packing_option: opt_text(self.data_packing_option),
            channel_enabled: self.channel_enabled,
            extra: views(self.extra@),
        }
    }
}

impl DefaultModel for RChannel {
    open spec fn default_model() -> RChannelV {
        RChannelV {
            channel_id: None,
            data_type: None,
            data_source_id: None,
            data_link_name: None,
            data_packing_option: None,
            channel_enabled: None,
            extra: Seq::<RawAttributeV>::empty(),
        }
    }

    fn default_value() -> (r: Self) {
        let r = RChannel {
            channel_id: None,
            data_type: None,
            data_source_id: None,
            data_link_name: None,
            data_packing_option: None,
            channel_enabled: None,
            extra: Vec::new(),
        };

        assert(views(r.extra@) =~= Seq::<RawAttributeV>::empty());
        r
    }
}

impl Default for RChannel {
    fn default() -> (r: Self)
        ensures
            r@ == RChannel::default_model(),
    {
        RChannel::default_value()
    }
}

impl RChannel {
    /// The same value; every text of the model is already owned.
    pub fn into_owned(self) -> (r: RChannel)
        ensures
            r@ == self@,
    {
        self
    }
}

/// Drive definition within an R-group.
#[derive(Debug, Clone)]
pub struct RDrive {
    /// R-x\DRN-n — Drive Number
    pub drive_number: Option<u32>,
    /// R-x\DRN-n drive name
    pub drive_name: Option<String>,
    pub extra: Vec<RawAttribute>,
}

/// The model of a [`RDrive`]: texts as character sequences, maps as keyed sequences.
pub struct RDriveV {
    pub drive_number: Option<u32>,
    pub drive_name: Option<Seq<char>>,
    pub extra: Seq<RawAttributeV>,
}

impl View for RDrive {
    type V = RDriveV;

    open spec fn view(&self) -> RDriveV {
        RDriveV {
            drive_number: self.drive_number,
            drive_name: opt_text(self.drive_name),
            extra: views(self.extra@),
        }
    }
}

impl DefaultModel for RDrive {
    open spec fn default_model() -> RDriveV {
        RDriveV {
            drive_number: None,
            drive_name: None,
            extra: Seq::<RawAttributeV>::empty(),
        }
    }

    fn default_value() -> (r: Self) {
        let r = RDrive {
            drive_number: None,
            drive_name: None,
            extra: Vec::new(),
        };

        assert(views(r.extra@) =~= Seq::<RawAttributeV>::empty());
        r
    }
}

impl Default for RDrive {
    fn default() -> (r: Self)
        ensures
            r@ == RDrive::default_model(),
    {
        RDrive::default_value()
    }
}

impl RDrive {
    /// The same value; every text of the model is already owned.
    pub fn into_owned(self) -> (r: RDrive)
        ensures
            r@ == self@,
    {
        self
    }
}

/// Multiplex/Modulation Attributes group (M).
#[derive(Debug, Clone)]
pub struct MGroup {
    /// M-n\BSG — Baseband Signal Type
    pub baseband_signal_type: Option<String>,
    /// M-n\MS — Modulation Sense
    pub modulation_sense: Option<String>,
    /// Subcarrier definitions.
    pub subcarriers: OrderedMap<MSubcarrier>,
    pub comments: Vec<String>,
    pub extra: Vec<RawAttribute>,
}

/// The model of a [`MGroup`]: texts as character sequences, maps as keyed sequences.
pub struct MGroupV {
    pub baseband_signal_type: Option<Seq<char>>,
    pub modulation_sense: Option<Seq<char>>,
    pub subcarriers: Seq<(u32, MSubcarrierV)>,
    pub comments: Seq<Seq<char>>,
    pub extra: Seq<RawAttributeV>,
}

impl View for MGroup {
    type V = MGroupV;

    open spec fn view(&self) -> MGroupV {
        MGroupV {
            baseband_signal_type: opt_text(self.baseband_signal_type),
            modulation_sense: opt_text(self.modulation_sense),
            subcarriers: self.subcarriers@,
            comments: texts(self.comments@),
            extra: views(self.extra@),
        }
    }
}

impl DefaultModel for MGroup {
    open spec fn default_model() -> MGroupV {
        MGroupV {
            baseband_signal_type: None,
            modulation_sense: None,
            subcarriers: Seq::<(u32, MSubcarrierV)>::empty(),
            comments: Seq::<Seq<char>>::empty(),
            extra: Seq::<RawAttributeV>::empty(),
        }
    }

    fn default_value() -> (r: Self) {
        let r = MGroup {
            baseband_signal_type: None,
            modulation_sense: None,
            subcarriers: OrderedMap::new(),
            comments: Vec::new(),
            extra: Vec::new(),
        };

        assert(texts(r.comments@) =~= Seq::<Seq<char>>::empty());
        assert(views(r.extra@) =~= Seq::<RawAttributeV>::empty());
        r
    }
}

impl Default for MGroup {
    fn default() -> (r: Self)
        ensures
            r@ == MGroup::default_model(),
    {
        MGroup::default_value()
    }
}

impl MGroup {
    /// The same value; every text of the model is already owned.
    pub fn into_owned(self) -> (r: MGroup)
        ensures
            r@ == self@,
    {
        self
    }
}

/// Subcarrier definition within an M-group.
#[derive(Debug, Clone)]
pub struct MSubcarrier {
    /// Subcarrier frequency (Hz), as its decimal text
    pub frequency_hz: Option<String>,
    pub extra: Vec<RawAttribute>,
}

/// The model of a [`MSubcarrier`]: texts as character sequences, maps as keyed sequences.
pub struct MSubcarrierV {
    pub frequency_hz: Option<Seq<char>>,
    pub extra: Seq<RawAttributeV>,
}

impl View for MSubcarrier {
    type V = MSubcarrierV;

    open spec fn view(&self) -> MSubcarrierV {
        MSubcarrierV {
            frequency_hz: opt_text(self.frequency_hz),
            extra: views(self.extra@),
        }
    }
}

impl DefaultModel for MSubcarrier {
    open spec fn default_model() -> MSubcarrierV {
        MSubcarrierV {
            frequency_hz: None,
            extra: Seq::<RawAttributeV>::empty(),
        }
    }

    fn default_value() -> (r: Self) {
        let r = MSubcarrier {
            frequency_hz: None,
            extra: Vec::new(),
        };

        assert(views(r.extra@) =~= Seq::<RawAttributeV>::empty());
        r
    }
}

impl Default for MSubcarrier {
    fn default() -> (r: Self)
        ensures
            r@ == MSubcarrier::default_model(),
    {
        MSubcarrier::default_value()
    }
}

impl MSubcarrier {
    /// The same value; every text of the model is already owned.
    pub fn into_owned(self) -> (r: MSubcarrier)
        ensures
            r@ == self@,
    {
        self
    }
}

/// PCM Format Attributes group (P).
#[derive(Debug, Clone)]
pub struct PGroup {
    /// P-n\DLN — Data Link Name
    pub data_link_name: Option<String>,
    /// P-n\D1 — Bit Rate (bps), as its decimal text
    pub bit_rate: Option<String>,
    /// P-n\D2 — Encoding
    pub encoding: Option<String>,
    /// P-n\D3 — Polarity
    pub polarity: Option<String>,
    /// P-n\D4 — Auto-Polarity Correction
    pub auto_polarity_correction: Option<bool>,
    /// P-n\MF\N — Number of Minor Frames (per Major Frame)
    pub num_minor_frames: Option<u32>,
    /// P-n\F1 — Words per Minor Frame
    pub num_words_per_frame: Option<u32>,
    /// P-n\F2 — Bits per Word (common word length)
    pub num_bits_per_word: Option<u32>,
    /// P-n\F3 — Sync Pattern
    pub sync_pattern: Option<String>,
    /// P-n\F3\L — Sync Pattern Length (bits)
    pub sync_pattern_length: Option<u32>,
    /// Subframe definitions.
    pub subframes: OrderedMap<PSubframe>,
    /// Word position definitions.
    pub word_definitions: OrderedMap<PWordDef>,
    /// Embedded format definitions.
    pub embedded_formats: OrderedMap<PEmbeddedFormat>,
    pub comments: Vec<String>,
    pub extra: Vec<RawAttribute>,
}

/// The model of a [`PGroup`]: texts as character sequences, maps as keyed sequences.
pub struct PGroupV {
    pub data_link_name: Option<Seq<char>>,
    pub bit_rate: Option<Seq<char>>,
    pub encoding: Option<Seq<char>>,
    pub polarity: Option<Seq<char>>,
    pub auto_polarity_correction: Option<bool>,
    pub num_minor_frames: Option<u32>,
    pub num_words_per_frame: Option<u32>,
    pub num_bits_per_word: Option<u32>,
    pub sync_pattern: Option<Seq<char>>,
    pub sync_pattern_length: Option<u32>,
    pub subframes: Seq<(u32, PSubframeV)>,
    pub word_definitions: Seq<(u32, PWordDefV)>,
    pub embedded_formats: Seq<(u32, PEmbeddedFormatV)>,
    pub comments: Seq<Seq<char>>,
    pub extra: Seq<RawAttributeV>,
}

impl View for PGroup {
    type V = PGroupV;

    open spec fn view(&self) -> PGroupV {
        PGroupV {
            data_link_name: opt_text(self.data_link_name),
            bit_rate: opt_text(self.bit_rate),
            encoding: opt_text(self.encoding),
            polarity: opt_text(self.polarity),
            auto_polarity_correction: self.auto_polarity_correction,
            num_minor_frames: self.num_minor_frames,
            num_words_per_frame: self.num_words_per_frame,
            num_bits_per_word: self.num_bits_per_word,
            sync_pattern: opt_text(self.sync_pattern),
            sync_pattern_length: self.sync_pattern_length,
            subframes: self.subframes@,
            word_definitions: self.word_definitions@,
            embedded_formats: self.embedded_formats@,
            comments: texts(self.comments@),
            extra: views(self.extra@),
        }
    }
}

impl DefaultModel for PGroup {
    open spec fn default_model() -> PGroupV {
        PGroupV {
            data_link_name: None,
            bit_rate: None,
            encoding: None,
            polarity: None,
            auto_polarity_correction: None,
            num_minor_frames: None,
            num_words_per_frame: None,
            num_bits_per_word: None,
            sync_pattern: None,
            sync_pattern_length: None,
            subframes: Seq::<(u32, PSubframeV)>::empty(),
            word_definitions: Seq::<(u32, PWordDefV)>::empty(),
            embedded_formats: Seq::<(u32, PEmbeddedFormatV)>::empty(),
            comments: Seq::<Seq<char>>::empty(),
            extra: Seq::<RawAttributeV>::empty(),
        }
    }

    fn default_value() -> (r: Self) {
        let r = PGroup {
            data_link_name: None,
            bit_rate: None,
            encoding: None,
            polarity: None,
            auto_polarity_correction: None,
            num_minor_frames: None,
            num_words_per_frame: None,
            num_bits_per_word: None,
            sync_pattern: None,
            sync_pattern_length: None,
            subframes: OrderedMap::new(),
            word_definitions: OrderedMap::new(),
            embedded_formats: OrderedMap::new(),
            comments: Vec::new(),
            extra: Vec::new(),
        };

        assert(texts(r.comments@) =~= Seq::<Seq<char>>::empty());
        assert(views(r.extra@) =~= Seq::<RawAttributeV>::empty());
        r
    }
}

impl Default for PGroup {
    fn default() -> (r: Self)
        ensures
            r@ == PGroup::default_model(),
    {
        PGroup::default_value()
    }
}

impl PGroup {
    /// The same value; every text of the model is already owned.
    pub fn into_owned(self) -> (r: PGroup)
        ensures
            r@ == self@,
    {
        self
    }
}

/// Subframe definition within a P-group.
#[derive(Debug, Clone)]
pub struct PSubframe {
    pub extra: Vec<RawAttribute>,
}

/// The model of a [`PSubframe`]: texts as character sequences, maps as keyed sequences.
pub struct PSubframeV {
    pub extra: Seq<RawAttributeV>,
}

impl View for PSubframe {
    type V = PSubframeV;

    open spec fn view(&self) -> PSubframeV {
        PSubframeV {
            extra: views(self.extra@),
        }
    }
}

impl DefaultModel for PSubframe {
    open spec fn default_model() -> PSubframeV {
        PSubframeV {
            extra: Seq::<RawAttributeV>::empty(),
        }
    }

    fn default_value() -> (r: Self) {
        let r = PSubframe {
            extra: Vec::new(),
        };

        assert(views(r.extra@) =~= Seq::<RawAttributeV>::empty());
        r
    }
}

impl Default for PSubframe {
    fn default() -> (r: Self)
        ensures
            r@ == PSubframe::default_model(),
    {
        PSubframe::default_value()
    }
}

impl PSubframe {
    /// The same value; every text of the model is already owned.
    pub fn into_owned(self) -> (r: PSubframe)
        ensures
            r@ == self@,
    {
        self
    }
}

/// Word position definition within a P-group.
#[derive(Debug, Clone)]
pub struct PWordDef {
    pub extra: Vec<RawAttribute>,
}

/// The model of a [`PWordDef`]: texts as character sequences, maps as keyed sequences.
pub struct PWordDefV {
    pub extra: Seq<RawAttributeV>,
}

impl View for PWordDef {
    type V = PWordDefV;

    open spec fn view(&self) -> PWordDefV {
        PWordDefV {
            extra: views(self.extra@),
        }
    }
}

impl DefaultModel for PWordDef {
    open spec fn default_model() -> PWordDefV {
        PWordDefV {
            extra: Seq::<RawAttributeV>::empty(),
        }
    }

    fn default_value() -> (r: Self) {
        let r = PWordDef {
            extra: Vec::new(),
        };

        assert(views(r.extra@) =~= Seq::<RawAttributeV>::empty());
        r
    }
}

impl Default for PWordDef {
    fn default() -> (r: Self)
        ensures
            r@ == PWordDef::default_model(),
    {
        PWordDef::default_value()
    }
}

impl PWordDef {
    /// The same value; every text of the model is already owned.
    pub fn into_owned(self) -> (r: PWordDef)
        ensures
            r@ == self@,
    {
        self
    }
}

/// Embedded format definition within a P-group.
#[derive(Debug, Clone)]
pub struct PEmbeddedFormat {
    pub extra: Vec<RawAttribute>,
}

/// The model of a [`PEmbeddedFormat`]: texts as character sequences, maps as keyed sequences.
pub struct PEmbeddedFormatV {
    pub extra: Seq<RawAttributeV>,
}

impl View for PEmbeddedFormat {
    type V = PEmbeddedFormatV;

    open spec fn view(&self) -> PEmbeddedFormatV {
        PEmbeddedFormatV {
            extra: views(self.extra@),
        }
    }
}

impl DefaultModel for PEmbeddedFormat {
    open spec fn default_model() -> PEmbeddedFormatV {
        PEmbeddedFormatV {
            extra: Seq::<RawAttributeV>::empty(),
        }
    }

    fn default_value() -> (r: Self) {
        let r = PEmbeddedFormat {
            extra: Vec::new(),
        };

        assert(views(r.extra@) =~= Seq::<RawAttributeV>::empty());
        r
    }
}

impl Default for PEmbeddedFormat {
    fn default() -> (r: Self)
        ensures
            r@ == PEmbeddedFormat::default_model(),
    {
        PEmbeddedFormat::default_value()
    }
}

impl PEmbeddedFormat {
    /// The same value; every text of the model is already owned.
    pub fn into_owned(self) -> (r: PEmbeddedFormat)
        ensures
            r@ == self@,
    {
        self
    }
}

/// PCM Measurement Description group (D).
#[derive(Debug, Clone)]
pub struct DGroup {
    /// D-n\MLN — Measurement List Name (link to P-group)
    pub measurement_list_name: Option<String>,
    /// D-n\DLN — Data Link Name
    pub data_link_name: Option<String>,
    /// D-n\MN\N — Number of Measurements
    pub num_measurements: Option<u32>,
    /// Individual measurement definitions.
    pub measurements: OrderedMap<DMeasurement>,
    pub comments: Vec<String>,
    pub extra: Vec<RawAttribute>,
}

/// The model of a [`DGroup`]: texts as character sequences, maps as keyed sequences.
pub struct DGroupV {
    pub measurement_list_name: Option<Seq<char>>,
    pub data_link_name: Option<Seq<char>>,
    pub num_measurements: Option<u32>,
    pub measurements: Seq<(u32, DMeasurementV)>,
    pub comments: Seq<Seq<char>>,
    pub extra: Seq<RawAttributeV>,
}

impl View for DGroup {
    type V = DGroupV;

    open spec fn view(&self) -> DGroupV {
        DGroupV {
            measurement_list_name: opt_text(self.measurement_list_name),
            data_link_name: opt_text(self.data_link_name),
            num_measurements: self.num_measurements,
            measurements: self.measurements@,
            comments: texts(self.comments@),
            extra: views(self.extra@),
        }
    }
}

impl DefaultModel for DGroup {
    open spec fn default_model() -> DGroupV {
        DGroupV {
            measurement_list_name: None,
            data_link_name: None,
            num_measurements: None,
            measurements: Seq::<(u32, DMeasurementV)>::empty(),
            comments: Seq::<Seq<char>>::empty(),
            extra: Seq::<RawAttributeV>::empty(),
        }
    }

    fn default_value() -> (r: Self) {
        let r = DGroup {
            measurement_list_name: None,
            data_link_name: None,
            num_measurements: None,
            measurements: OrderedMap::new(),
            comments: Vec::new(),
            extra: Vec::new(),
        };

        assert(texts(r.comments@) =~= Seq::<Seq<char>>::empty());
        assert(views(r.extra@) =~= Seq::<RawAttributeV>::empty());
        r
    }
}

impl Default for DGroup {
    fn default() -> (r: Self)
        ensures
            r@ == DGroup::default_model(),
    {
        DGroup::default_value()
    }
}

impl DGroup {
    /// The same value; every text of the model is already owned.
    pub fn into_owned(self) -> (r: DGroup)
        ensures
            r@ == self@,
    {
        self
    }
}

/// Measurement definition within a D-group.
#[derive(Debug, Clone)]
pub struct DMeasurement {
    /// D-n\MN-m — Measurement Name
    pub measurement_name: Option<String>,
    /// D-n\MN-m\WP — Word Position
    pub word_position: Option<u32>,
    /// D-n\MN-m\WL — Word Length (bits)
    pub word_length: Option<u32>,
    /// D-n\MN-m\BM — Bit Mask
    pub bit_mask: Option<String>,
    /// D-n\MN-m\TO — Transfer Order (M/L/D)
    pub transfer_order: Option<String>,
    pub extra: Vec<RawAttribute>,
}

/// The model of a [`DMeasurement`]: texts as character sequences, maps as keyed sequences.
pub struct DMeasurementV {
    pub measurement_name: Option<Seq<char>>,
    pub word_position: Option<u32>,
    pub word_length: Option<u32>,
    pub bit_mask: Option<Seq<char>>,
    pub transfer_order: Option<Seq<char>>,
    pub extra: Seq<RawAttributeV>,
}

impl View for DMeasurement {
    type V = DMeasurementV;

    open spec fn view(&self) -> DMeasurementV {
        DMeasurementV {
            measurement_name: opt_text(self.measurement_name),
            word_position: self.word_position,
            word_length: self.word_length,
            bit_mask: opt_text(self.bit_mask),
            transfer_order: opt_text(self.transfer_order),
            extra: views(self.extra@),
        }
    }
}

impl DefaultModel for DMeasurement {
    open spec fn default_model() -> DMeasurementV {
        DMeasurementV {
            measurement_name: None,
            word_position: None,
            word_length: None,
            bit_mask: None,
            transfer_order: None,
            extra: Seq::<RawAttributeV>::empty(),
        }
    }

    fn default_value() -> (r: Self) {
        let r = DMeasurement {
            measurement_name: None,
            word_position: None,
            word_length: None,
            bit_mask: None,
            transfer_order: None,
            extra: Vec::new(),
        };

        assert(views(r.extra@) =~= Seq::<RawAttributeV>::empty());
        r
    }
}

impl Default for DMeasurement {
    fn default() -> (r: Self)
        ensures
            r@ == DMeasurement::default_model(),
    {
        DMeasurement::default_value()
    }
}

impl DMeasurement {
    /// The same value; every text of the model is already owned.
    pub fn into_owned(self) -> (r: DMeasurement)
        ensures
            r@ == self@,
    {
        self
    }
}

/// Bus Data Attributes group (B).
#[derive(Debug, Clone)]
pub struct BGroup {
    /// B-n\DLN — Data Link Name
    pub data_link_name: Option<String>,
    /// B-n\BT — Bus Type (1553, ARINC429, etc.)
    pub bus_type: Option<String>,
    /// B-n\NBS\N — Number of Buses
    pub num_buses: Option<u32>,
    /// Message definitions.
    pub messages: OrderedMap<BMessage>,
    pub comments: Vec<String>,
    pub extra: Vec<RawAttribute>,
}

/// The model of a [`BGroup`]: texts as character sequences, maps as keyed sequences.
pub struct BGroupV {
    pub data_link_name: Option<Seq<char>>,
    pub bus_type: Option<Seq<char>>,
    pub num_buses: Option<u32>,
    pub messages: Seq<(u32, BMessageV)>,
    pub comments: Seq<Seq<char>>,
    pub extra: Seq<RawAttributeV>,
}

impl View for BGroup {
    type V = BGroupV;

    open spec fn view(&self) -> BGroupV {
        BGroupV {
            data_link_name: opt_text(self.data_link_name),
            bus_type: opt_text(self.bus_type),
            num_buses: self.num_buses,
            messages: self.messages@,
            comments: texts(self.comments@),
            extra: views(self.extra@),
        }
    }
}

impl DefaultModel for BGroup {
    open spec fn default_model() -> BGroupV {
        BGroupV {
            data_link_name: None,
            bus_type: None,
            num_buses: None,
            messages: Seq::<(u32, BMessageV)>::empty(),
            comments: Seq::<Seq<char>>::empty(),
            extra: Seq::<RawAttributeV>::empty(),
        }
    }

    fn default_value() -> (r: Self) {
        let r = BGroup {
            data_link_name: None,
            bus_type: None,
            num_buses: None,
            messages: OrderedMap::new(),
            comments: Vec::new(),
            extra: Vec::new(),
        };

        assert(texts(r.comments@) =~= Seq::<Seq<char>>::empty());
        assert(views(r.extra@) =~= Seq::<RawAttributeV>::empty());
        r
    }
}

impl Default for BGroup {
    fn default() -> (r: Self)
        ensures
            r@ == BGroup::default_model(),
    {
        BGroup::default_value()
    }
}

impl BGroup {
    /// The same value; every text of the model is already owned.
    pub fn into_owned(self) -> (r: BGroup)
        ensures
            r@ == self@,
    {
        self
    }
}

/// Message definition within a B-group.
#[derive(Debug, Clone)]
pub struct BMessage {
    pub message_name: Option<String>,
    pub extra: Vec<RawAttribute>,
}

/// The model of a [`BMessage`]: texts as character sequences, maps as keyed sequences.
pub struct BMessageV {
    pub message_name: Option<Seq<char>>,
    pub extra: Seq<RawAttributeV>,
}

impl View for BMessage {
    type V = BMessageV;

    open spec fn view(&self) -> BMessageV {
        BMessageV {
            message_name: opt_text(self.message_name),
            extra: views(self.extra@),
        }
    }
}

impl DefaultModel for BMessage {
    open spec fn default_model() -> BMessageV {
        BMessageV {
            message_name: None,
            extra: Seq::<RawAttributeV>::empty(),
        }
    }

    fn default_value() -> (r: Self) {
        let r = BMessage {
            message_name: None,
            extra: Vec::new(),
        };

        assert(views(r.extra@) =~= Seq::<RawAttributeV>::empty());
        r
    }
}

impl Default for BMessage {
    fn default() -> (r: Self)
        ensures
            r@ == BMessage::default_model(),
    {
        BMessage::default_value()
    }
}

impl BMessage {
    /// The same value; every text of the model is already owned.
    pub fn into_owned(self) -> (r: BMessage)
        ensures
            r@ == self@,
    {
        self
    }
}

/// Message Data Attributes group (S).
#[derive(Debug, Clone)]
pub struct SGroup {
    /// S-n\DLN — Data Link Name
    pub data_link_name: Option<String>,
    /// Message definitions.
    pub message_definitions: OrderedMap<SMessageDef>,
    pub comments: Vec<String>,
    pub extra: Vec<RawAttribute>,
}

/// The model of a [`SGroup`]: texts as character sequences, maps as keyed sequences.
pub struct SGroupV {
    pub data_link_name: Option<Seq<char>>,
    pub message_definitions: Seq<(u32, SMessageDefV)>,
    pub comments: Seq<Seq<char>>,
    pub extra: Seq<RawAttributeV>,
}

impl View for SGroup {
    type V = SGroupV;

    open spec fn view(&self) -> SGroupV {
        SGroupV {
            data_link_name: opt_text(self.data_link_name),
            message_definitions: self.message_definitions@,
            comments: texts(self.comments@),
            extra: views(self.extra@),
        }
    }
}

impl DefaultModel for SGroup {
    open spec fn default_model() -> SGroupV {
        SGroupV {
            data_link_name: None,
            message_definitions: Seq::<(u32, SMessageDefV)>::empty(),
            comments: Seq::<Seq<char>>::empty(),
            extra: Seq::<RawAttributeV>::empty(),
        }
    }

    fn default_value() -> (r: Self) {
        let r = SGroup {
            data_link_name: None,
            message_definitions: OrderedMap::new(),
            comments: Vec::new(),
            extra: Vec::new(),
        };

        assert(texts(r.comments@) =~= Seq::<Seq<char>>::empty());
        assert(views(r.extra@) =~= Seq::<RawAttributeV>::empty());
        r
    }
}

impl Default for SGroup {
    fn default() -> (r: Self)
        ensures
            r@ == SGroup::default_model(),
    {
        SGroup::default_value()
    }
}

impl SGroup {
    /// The same value; every text of the model is already owned.
    pub fn into_owned(self) -> (r: SGroup)
        ensures
            r@ == self@,
    {
        self
    }
}

/// Message definition within an S-group.
#[derive(Debug, Clone)]
pub struct SMessageDef {
    pub extra: Vec<RawAttribute>,
}

/// The model of a [`SMessageDef`]: texts as character sequences, maps as keyed sequences.
pub struct SMessageDefV {
    pub extra: Seq<RawAttributeV>,
}

impl View for SMessageDef {
    type V = SMessageDefV;

    open spec fn view(&self) -> SMessageDefV {
        SMessageDefV {
            extra: views(self.extra@),
        }
    }
}

impl DefaultModel for SMessageDef {
    open spec fn default_model() -> SMessageDefV {
        SMessageDefV {
            extra: Seq::<RawAttributeV>::empty(),
        }
    }

    fn default_value() -> (r: Self) {
        let r = SMessageDef {
            extra: Vec::new(),
        };

        assert(views(r.extra@) =~= Seq::<RawAttributeV>::empty());
        r
    }
}

impl Default for SMessageDef {
    fn default() -> (r: Self)
        ensures
            r@ == SMessageDef::default_model(),
    {
        SMessageDef::default_value()
    }
}

impl SMessageDef {
    /// The same value; every text of the model is already owned.
    pub fn into_owned(self) -> (r: SMessageDef)
        ensures
            r@ == self@,
    {
        self
    }
}

/// Data Conversion Attributes group (C).
#[derive(Debug, Clone)]
pub struct CGroup {
    /// C-n\DCN — Data Conversion Name / Measurement Name
    pub measurement_name: Option<String>,
    /// C-n\DCT — Data Conversion Type
    pub conversion_type: Option<String>,
    /// C-n\EU — Engineering Units label
    pub eu_units: Option<String>,
    /// Conversion pair sets (raw → EU).
    pub pair_sets: Vec<ConversionPairSet>,
    pub comments: Vec<String>,
    pub extra: Vec<RawAttribute>,
}

/// The model of a [`CGroup`]: texts as character sequences, maps as keyed sequences.
pub struct CGroupV {
    pub measurement_name: Option<Seq<char>>,
    pub conversion_type: Option<Seq<char>>,
    pub eu_units: Option<Seq<char>>,
    pub pair_sets: Seq<ConversionPairSetV>,
    pub comments: Seq<Seq<char>>,
    pub extra: Seq<RawAttributeV>,
}

impl View for CGroup {
    type V = CGroupV;

    open spec fn view(&self) -> CGroupV {
        CGroupV {
            measurement_name: opt_text(self.measurement_name),
            conversion_type: opt_text(self.conversion_type),
            eu_units: opt_text(self.eu_units),
            pair_sets: views(self.pair_sets@),
            comments: texts(self.comments@),
            extra: views(self.extra@),
        }
    }
}

impl DefaultModel for CGroup {
    open spec fn default_model() -> CGroupV {
        CGroupV {
            measurement_name: None,
            conversion_type: None,
            eu_units: None,
            pair_sets: Seq::<ConversionPairSetV>::empty(),
            comments: Seq::<Seq<char>>::empty(),
            extra: Seq::<RawAttributeV>::empty(),
        }
    }

    fn default_value() -> (r: Self) {
        let r = CGroup {
            measurement_name: None,
            conversion_type: None,
            eu_units: None,
            pair_sets: Vec::new(),
            comments: Vec::new(),
            extra: Vec::new(),
        };

        assert(views(r.pair_sets@) =~= Seq::<ConversionPairSetV>::empty());
        assert(texts(r.comments@) =~= Seq::<Seq<char>>::empty());
        assert(views(r.extra@) =~= Seq::<RawAttributeV>::empty());
        r
    }
}

impl Default for CGroup {
    fn default() -> (r: Self)
        ensures
            r@ == CGroup::default_model(),
    {
        CGroup::default_value()
    }
}

impl CGroup {
    /// The same value; every text of the model is already owned.
    pub fn into_owned(self) -> (r: CGroup)
        ensures
            r@ == self@,
    {
        self
    }
}

// ─── The document ───────────────────────────────────────────────────────────

/// Root container for a parsed TMATS record.
#[derive(Debug, Clone)]
pub struct TmatsDocument {
    /// General Information group (G). Always exactly one.
    pub general: GGroup,
    /// Transmission Attributes groups (T), keyed by occurrence index.
    pub transmission: OrderedMap<TGroup>,
    /// Recorder-Reproducer Attributes groups (R), keyed by occurrence index.
    pub recorders: OrderedMap<RGroup>,
    /// Multiplex/Modulation Attributes groups (M), keyed by occurrence index.
    pub multiplex: OrderedMap<MGroup>,
    /// PCM Format Attributes groups (P), keyed by occurrence index.
    pub pcm_formats: OrderedMap<PGroup>,
    /// PCM Measurement Description groups (D), keyed by occurrence index.
    pub pcm_measurements: OrderedMap<DGroup>,
    /// Bus Data Attributes groups (B), keyed by occurrence index.
    pub bus_data: OrderedMap<BGroup>,
    /// Message Data Attributes groups (S), keyed by occurrence index.
    pub message_data: OrderedMap<SGroup>,
    /// Data Conversion Attributes groups (C), keyed by occurrence index.
    pub data_conversion: OrderedMap<CGroup>,
    /// Attributes that could not be mapped to any known group.
    pub unknown: Vec<RawAttribute>,
    /// Detected IRIG 106 version.
    pub source_version: Option<Irig106Version>,
    /// Diagnostics collected during parsing (lenient mode).
    pub parse_diagnostics: Vec<Diagnostic>,
}

/// The model of a [`TmatsDocument`].
pub struct TmatsDocumentV {
    pub general: GGroupV,
    pub transmission: Seq<(u32, TGroupV)>,
    pub recorders: Seq<(u32, RGroupV)>,
    pub multiplex: Seq<(u32, MGroupV)>,
    pub pcm_formats: Seq<(u32, PGroupV)>,
    pub pcm_measurements: Seq<(u32, DGroupV)>,
    pub bus_data: Seq<(u32, BGroupV)>,
    pub message_data: Seq<(u32, SGroupV)>,
    pub data_conversion: Seq<(u32, CGroupV)>,
    pub unknown: Seq<RawAttributeV>,
    pub source_version: Option<Irig106Version>,
    pub parse_diagnostics: Seq<DiagnosticV>,
}

impl View for TmatsDocument {
    type V = TmatsDocumentV;

    open spec fn view(&self) -> TmatsDocumentV {
        TmatsDocumentV {
            general: self.general@,
            transmission: self.transmission@,
            recorders: self.recorders@,
            multiplex: self.multiplex@,
            pcm_formats: self.pcm_formats@,
            pcm_measurements: self.pcm_measurements@,
            bus_data: self.bus_data@,
            message_data: self.message_data@,
            data_conversion: self.data_conversion@,
            unknown: views(self.unknown@),
            source_version: self.source_version,
            parse_diagnostics: views(self.parse_diagnostics@),
        }
    }
}

impl TmatsDocumentV {
    /// The document with no attribute in it.
    pub open spec fn empty() -> TmatsDocumentV {
        TmatsDocumentV {
            general: GGroup::default_model(),
            transmission: Seq::empty(),
            recorders: Seq::empty(),
            multiplex: Seq::empty(),
            pcm_formats: Seq::empty(),
            pcm_measurements: Seq::empty(),
            bus_data: Seq::empty(),
            message_data: Seq::empty(),
            data_conversion: Seq::empty(),
            unknown: Seq::empty(),
            source_version: None,
            parse_diagnostics: Seq::empty(),
        }
    }

    /// The number of groups plus unknown attributes, plus one for the G group.
    pub open spec fn attribute_total(self) -> nat {
        self.recorders.len() + self.transmission.len() + self.pcm_formats.len()
            + self.pcm_measurements.len() + self.bus_data.len() + self.message_data.len()
            + self.data_conversion.len() + self.multiplex.len() + self.unknown.len() + 1
    }
}

impl TmatsDocument {
    /// Create an empty document.
    pub fn empty() -> (r: Self)
        ensures
            r@ == TmatsDocumentV::empty(),
    {
        let r = TmatsDocument {
            general: GGroup::default_value(),
            transmission: OrderedMap::new(),
            recorders: OrderedMap::new(),
            multiplex: OrderedMap::new(),
            pcm_formats: OrderedMap::new(),
            pcm_measurements: OrderedMap::new(),
            bus_data: OrderedMap::new(),
            message_data: OrderedMap::new(),
            data_conversion: OrderedMap::new(),
            unknown: Vec::new(),
            source_version: None,
            parse_diagnostics: Vec::new(),
        };
        assert(views(r.unknown@) =~= Seq::<RawAttributeV>::empty());
        assert(views(r.parse_diagnostics@) =~= Seq::<DiagnosticV>::empty());
        r
    }

    /// The same document; every text of the model is already owned.
    pub fn into_owned(self) -> (r: TmatsDocument)
        ensures
            r@ == self@,
    {
        self
    }

    /// The number of repeated groups and unknown attributes, plus one for the G group.
    pub fn attribute_count(&self) -> (r: usize)
        requires
            self@.attribute_total() <= usize::MAX,
        ensures
            r == self@.attribute_total(),
    {
        self.recorders.len() + self.transmission.len() + self.pcm_formats.len()
            + self.pcm_measurements.len() + self.bus_data.len() + self.message_data.len()
            + self.data_conversion.len() + self.multiplex.len() + self.unknown.len() + 1
    }
}

/// A document that owns all of its text.
pub type OwnedTmatsDocument = TmatsDocument;

// ─── Group letters ──────────────────────────────────────────────────────────

/// The group letter of each TMATS group type.
pub trait TmatsGroup {
    fn group_prefix() -> GroupPrefix;
}

impl TmatsGroup for GGroup {
    fn group_prefix() -> (r: GroupPrefix) ensures r == GroupPrefix::G { GroupPrefix::G }
}
impl TmatsGroup for TGroup {
    fn group_prefix() -> (r: GroupPrefix) ensures r == GroupPrefix::T { GroupPrefix::T }
}
impl TmatsGroup for RGroup {
    fn group_prefix() -> (r: GroupPrefix) ensures r == GroupPrefix::R { GroupPrefix::R }
}
impl TmatsGroup for MGroup {
    fn group_prefix() -> (r: GroupPrefix) ensures r == GroupPrefix::M { GroupPrefix::M }
}
impl TmatsGroup for PGroup {
    fn group_prefix() -> (r: GroupPrefix) ensures r == GroupPrefix::P { GroupPrefix::P }
}
impl TmatsGroup for DGroup {
    fn group_prefix() -> (r: GroupPrefix) ensures r == GroupPrefix::D { GroupPrefix::D }
}
impl TmatsGroup for BGroup {
    fn group_prefix() -> (r: GroupPrefix) ensures r == GroupPrefix::B { GroupPrefix::B }
}
impl TmatsGroup for SGroup {
    fn group_prefix() -> (r: GroupPrefix) ensures r == GroupPrefix::S { GroupPrefix::S }
}
impl TmatsGroup for CGroup {
    fn group_prefix() -> (r: GroupPrefix) ensures r == GroupPrefix::C { GroupPrefix::C }
}

} // verus!
