//! The version-aware attribute registry: the Ch9 §9.5 attribute tables as
//! data, with lookups by code-name pattern, group and version, keyword and
//! field-size checks, and the migration differences between versions.
use vstd::prelude::*;
use vstd::string::StringSliceAdditionalSpecFns;
use crate::text::{upper, trim, eq_ignore_case, trimmed_chars, upper_chars, chars_of, chars_eq, chars_eq_str, chars_eq_ignore_case};
use crate::types_bridge::{GroupPrefix, Irig106Version};

verus! {

// ─── Requirement tags and value types ───────────────────────────────────────

/// Classifies how an attribute is required per the §9.5 tables.
#[derive(Debug, Clone, Copy, PartialEq, Eq, Hash, Structural)]
pub enum RequiredTag {
    /// Required in all contexts.
    Required,
    /// Required-Optional (context-dependent).
    RequiredOptional,
    /// Required for Chapter 10 setup records.
    RequiredCh10,
    /// Required-Optional for Chapter 10.
    RequiredOptionalCh10,
    /// Required when packing option is UN or PFS.
    RequiredPak,
    /// Optional.
    Optional,
}

/// The tag that a table marking names: `R`, `RO`, `R_CH10`, `RO_CH10`,
/// `RO_PAK` after trimming; anything else is optional.
pub open spec fn spec_required_tag(s: Seq<char>) -> RequiredTag {
    let t = trim(s);
    if t == "R"@ {
        RequiredTag::Required
    } else if t == "RO"@ {
        RequiredTag::RequiredOptional
    } else if t == "R_CH10"@ {
        RequiredTag::RequiredCh10
    } else if t == "RO_CH10"@ {
        RequiredTag::RequiredOptionalCh10
    } else if t == "RO_PAK"@ {
        RequiredTag::RequiredPak
    } else {
        RequiredTag::Optional
    }
}

impl RequiredTag {
    /// Read a table marking.
    pub fn parse_marking(s: &str) -> (r: RequiredTag)
        ensures
            r == spec_required_tag(s@),
    {
        let t = trimmed_chars(s);
        if chars_eq_str(&t, "R") {
            RequiredTag::Required
        } else if chars_eq_str(&t, "RO") {
            RequiredTag::RequiredOptional
        } else if chars_eq_str(&t, "R_CH10") {
            RequiredTag::RequiredCh10
        } else if chars_eq_str(&t, "RO_CH10") {
            RequiredTag::RequiredOptionalCh10
        } else if chars_eq_str(&t, "RO_PAK") {
            RequiredTag::RequiredPak
        } else {
            RequiredTag::Optional
        }
    }

    /// True if this attribute is mandatory in a Chapter 10 context.
    pub fn is_required_ch10(&self) -> (r: bool)
        ensures
            r == (*self == RequiredTag::Required || *self == RequiredTag::RequiredCh10),
    {
        match self {
            RequiredTag::Required | RequiredTag::RequiredCh10 => true,
            _ => false,
        }
    }

    /// True if this attribute is mandatory in any context.
    pub fn is_required(&self) -> (r: bool)
        ensures
            r == (*self == RequiredTag::Required),
    {
        match self {
            RequiredTag::Required => true,
            _ => false,
        }
    }
}

/// Expected type of an attribute value.
#[derive(Debug, Clone, Copy, PartialEq, Eq, Structural)]
pub enum ValueType {
    Keyword,
    Text,
    Integer,
    Decimal,
    Scientific,
    Date,
    Boolean,
    FreeForm,
}

/// The value type that a table marking names, after trimming; anything
/// unknown is free-form.
pub open spec fn spec_value_type(s: Seq<char>) -> ValueType {
    let t = trim(s);
    if t == "Keyword"@ {
        ValueType::Keyword
    } else if t == "Text"@ {
        ValueType::Text
    } else if t == "Integer"@ {
        ValueType::Integer
    } else if t == "Decimal"@ {
        ValueType::Decimal
    } else if t == "Scientific"@ {
        ValueType::Scientific
    } else if t == "Date"@ {
        ValueType::Date
    } else if t == "Boolean"@ {
        ValueType::Boolean
    } else {
        ValueType::FreeForm
    }
}

impl ValueType {
    /// Read a table marking.
    pub fn parse_marking(s: &str) -> (r: ValueType)
        ensures
            r == spec_value_type(s@),
    {
        let t = trimmed_chars(s);
        if chars_eq_str(&t, "Keyword") {
            ValueType::Keyword
        } else if chars_eq_str(&t, "Text") {
            ValueType::Text
        } else if chars_eq_str(&t, "Integer") {
            ValueType::Integer
        } else if chars_eq_str(&t, "Decimal") {
            ValueType::Decimal
        } else if chars_eq_str(&t, "Scientific") {
            ValueType::Scientific
        } else if chars_eq_str(&t, "Date") {
            ValueType::Date
        } else if chars_eq_str(&t, "Boolean") {
            ValueType::Boolean
        } else {
            ValueType::FreeForm
        }
    }
}

// ─── Attribute metadata ─────────────────────────────────────────────────────

/// Complete metadata record for one TMATS attribute.
#[derive(Debug, Clone)]
pub struct AttrMeta {
    /// Code-name pattern (e.g., "G\\PN", "R-x\\TK1-n").
    pub code_name_pattern: &'static str,
    /// Human-readable display name.
    pub display_name: &'static str,
    /// Group this attribute belongs to.
    pub group: GroupPrefix,
    /// Spec section reference.
    pub spec_section: &'static str,
    /// First IRIG 106 version containing this attribute.
    pub introduced_in: Irig106Version,
    /// Version where deprecated (still parseable with warning).
    pub deprecated_in: Option<Irig106Version>,
    /// Version where removed entirely.
    pub removed_in: Option<Irig106Version>,
    /// Requirement classification.
    pub required_tag: RequiredTag,
    /// Maximum field size in bytes.
    pub max_field_size: Option<u16>,
    /// Expected value type.
    pub value_type: ValueType,
    /// Valid keyword values (empty if not a keyword type).
    pub keywords: Vec<&'static str>,
    /// Brief description.
    pub description: &'static str,
}

/// The model of an [`AttrMeta`].
pub struct AttrMetaV {
    pub code_name_pattern: Seq<char>,
    pub display_name: Seq<char>,
    pub group: GroupPrefix,
    pub spec_section: Seq<char>,
    pub introduced_in: Irig106Version,
    pub deprecated_in: Option<Irig106Version>,
    pub removed_in: Option<Irig106Version>,
    pub required_tag: RequiredTag,
    pub max_field_size: Option<u16>,
    pub value_type: ValueType,
    pub keywords: Seq<Seq<char>>,
    pub description: Seq<char>,
}

pub open spec fn str_views(v: Seq<&'static str>) -> Seq<Seq<char>> {
    v.map_values(|s: &'static str| s@)
}

impl View for AttrMeta {
    type V = AttrMetaV;

    open spec fn view(&self) -> AttrMetaV {
        AttrMetaV {
            code_name_pattern: self.code_name_pattern@,
            display_name: self.display_name@,
            group: self.group,
            spec_section: self.spec_section@,
            introduced_in: self.introduced_in,
            deprecated_in: self.deprecated_in,
            removed_in: self.removed_in,
            required_tag: self.required_tag,
            max_field_size: self.max_field_size,
            value_type: self.value_type,
            keywords: str_views(self.keywords@),
            description: self.description@,
        }
    }
}

pub open spec fn meta_views(v: Seq<AttrMeta>) -> Seq<AttrMetaV> {
    v.map_values(|m: AttrMeta| m@)
}

pub open spec fn meta_ref_views(v: Seq<&AttrMeta>) -> Seq<AttrMetaV> {
    v.map_values(|m: &AttrMeta| m@)
}

impl AttrMetaV {
    /// Present in version `v`: introduced no later, not yet removed.
    pub open spec fn valid_for(self, v: Irig106Version) -> bool {
        &&& self.introduced_in.spec_number() <= v.spec_number()
        &&& match self.removed_in {
            Some(r) => v.spec_number() < r.spec_number(),
            None => true,
        }
    }

    /// Deprecated in version `v`.
    pub open spec fn deprecated_for(self, v: Irig106Version) -> bool {
        match self.deprecated_in {
            Some(d) => d.spec_number() <= v.spec_number(),
            None => false,
        }
    }

    /// A value is a valid keyword when there are no keywords, or its trimmed
    /// text equals one of them up to ASCII case.
    pub open spec fn keyword_ok(self, value: Seq<char>) -> bool {
        self.keywords.len() == 0 || exists|i: int| 0 <= i < self.keywords.len() && eq_ignore_case(#[trigger] self.keywords[i], upper(trim(value)))
    }

    /// A value of `n` bytes fits the maximum field size.
    pub open spec fn mfs_ok(self, n: nat) -> bool {
        match self.max_field_size {
            Some(m) => n <= m,
            None => true,
        }
    }
}

impl AttrMeta {
    /// Check if this attribute is valid for a given version.
    pub fn is_valid_for(&self, version: Irig106Version) -> (r: bool)
        ensures
            r == self@.valid_for(version),
    {
        if version.number() < self.introduced_in.number() {
            return false;
        }
        if let Some(removed) = self.removed_in {
            if version.number() >= removed.number() {
                return false;
            }
        }
        true
    }

    /// Check if this attribute is deprecated for a given version.
    pub fn is_deprecated_for(&self, version: Irig106Version) -> (r: bool)
        ensures
            r == self@.deprecated_for(version),
    {
        match self.deprecated_in {
            Some(dep) => version.number() >= dep.number(),
            None => false,
        }
    }

    /// Validate a value against this attribute's keyword set.
    pub fn validate_keyword(&self, value: &str) -> (r: bool)
        ensures
            r == self@.keyword_ok(value@),
    {
        if self.keywords.len() == 0 {
            return true;
        }
        let t = trimmed_chars(value);
        let up = upper_chars(&t);
        let n = self.keywords.len();
        for i in 0..n
            invariant
                n == self.keywords@.len(),
                up@ == upper(trim(value@)),
                forall|j: int| 0 <= j < i ==> !eq_ignore_case(self@.keywords[j], up@),
        {
            let k = chars_of(self.keywords[i]);
            if chars_eq_ignore_case(&k, &up) {
                assert(eq_ignore_case(self@.keywords[i as int], up@));
                return true;
            }
        }
        false
    }

    /// Validate a value's byte length against the maximum field size.
    pub fn validate_mfs(&self, value: &str) -> (r: bool)
        ensures
            r == self@.mfs_ok(value.spec_bytes().len()),
    {
        let n = value.as_bytes().len();
        match self.max_field_size {
            Some(mfs) => n <= mfs as usize,
            None => true,
        }
    }
}

// ─── The table ──────────────────────────────────────────────────────────────

/// Entry `i` of the attribute table (the last one for `i` past the end).
pub open spec fn attr_entry(i: int) -> AttrMetaV {
    if i == 0 {
        AttrMetaV {
            code_name_pattern: "G\\PN"@,
            display_name: "Program Name"@,
            group: GroupPrefix::G,
            spec_section: "§9.5.2 Table 9-1"@,
            introduced_in: Irig106Version::V106_04,
            deprecated_in: None,
            removed_in: None,
            required_tag: RequiredTag::Required,
            max_field_size: Some(32u16),
            value_type: ValueType::Text,
            keywords: Seq::<Seq<char>>::empty(),
            description: "Name of the test program"@,
        }
    } else if i == 1 {
        AttrMetaV {
            code_name_pattern: "G\\106"@,
            display_name: "IRIG 106 Version"@,
            group: GroupPrefix::G,
            spec_section: "§9.5.2 Table 9-1"@,
            introduced_in: Irig106Version::V106_07,
            deprecated_in: None,
            removed_in: None,
            required_tag: RequiredTag::Required,
            max_field_size: Some(2u16),
            value_type: ValueType::Keyword,
            keywords: seq!["04"@, "05"@, "07"@, "08"@, "09"@, "11"@, "13"@, "15"@, "17"@],
            description: "Version of IRIG 106 standard"@,
        }
    } else if i == 2 {
        AttrMetaV {
            code_name_pattern: "G\\OD"@,
            display_name: "Origination Date"@,
            group: GroupPrefix::G,
            spec_section: "§9.5.2 Table 9-1"@,
            introduced_in: Irig106Version::V106_04,
            deprecated_in: None,
            removed_in: None,
            required_tag: RequiredTag::Required,
            max_field_size: Some(10u16),
            value_type: ValueType::Date,
            keywords: Seq::<Seq<char>>::empty(),
            description: "Date of origination (MM-DD-YYYY)"@,
        }
    } else if i == 3 {
        AttrMetaV {
            code_name_pattern: "G\\DSI\\N"@,
            display_name: "Number of Data Sources"@,
            group: GroupPrefix::G,
            spec_section: "§9.5.2 Table 9-1"@,
            introduced_in: Irig106Version::V106_04,
            deprecated_in: None,
            removed_in: None,
            required_tag: RequiredTag::Required,
            max_field_size: Some(4u16),
            value_type: ValueType::Integer,
            keywords: Seq::<Seq<char>>::empty(),
            description: "Number of data sources"@,
        }
    } else if i == 4 {
        AttrMetaV {
            code_name_pattern: "G\\DSI-n"@,
            display_name: "Data Source Identifier"@,
            group: GroupPrefix::G,
            spec_section: "§9.5.2 Table 9-1"@,
            introduced_in: Irig106Version::V106_04,
            deprecated_in: None,
            removed_in: None,
            required_tag: RequiredTag::Required,
            max_field_size: Some(32u16),
            value_type: ValueType::Text,
            keywords: Seq::<Seq<char>>::empty(),
            description: "Descriptive name for this source"@,
        }
    } else if i == 5 {
        AttrMetaV {
            code_name_pattern: "G\\DST-n"@,
            display_name: "Data Source Type"@,
            group: GroupPrefix::G,
            spec_section: "§9.5.2 Table 9-1"@,
            introduced_in: Irig106Version::V106_04,
            deprecated_in: None,
            removed_in: None,
            required_tag: RequiredTag::Required,
            max_field_size: Some(3u16),
            value_type: ValueType::Keyword,
            keywords: seq!["REC"@, "TEL"@, "MUL"@, "PRE"@],
            description: "Type of source"@,
        }
    } else if i == 6 {
        AttrMetaV {
            code_name_pattern: "G\\DSC-n"@,
            display_name: "Data Source Classification"@,
            group: GroupPrefix::G,
            spec_section: "§9.5.2 Table 9-1"@,
            introduced_in: Irig106Version::V106_04,
            deprecated_in: None,
            removed_in: None,
            required_tag: RequiredTag::Optional,
            max_field_size: Some(1u16),
            value_type: ValueType::Keyword,
            keywords: seq!["U"@, "C"@, "S"@],
            description: "Classification of the data"@,
        }
    } else if i == 7 {
        AttrMetaV {
            code_name_pattern: "R-x\\ID"@,
            display_name: "Recorder Identification"@,
            group: GroupPrefix::R,
            spec_section: "§9.5.4"@,
            introduced_in: Irig106Version::V106_04,
            deprecated_in: None,
            removed_in: None,
            required_tag: RequiredTag::RequiredCh10,
            max_field_size: Some(32u16),
            value_type: ValueType::Text,
            keywords: Seq::<Seq<char>>::empty(),
            description: "Recorder identification"@,
        }
    } else if i == 8 {
        AttrMetaV {
            code_name_pattern: "R-x\\N"@,
            display_name: "Number of Channels"@,
            group: GroupPrefix::R,
            spec_section: "§9.5.4"@,
            introduced_in: Irig106Version::V106_04,
            deprecated_in: None,
            removed_in: None,
            required_tag: RequiredTag::RequiredCh10,
            max_field_size: Some(4u16),
            value_type: ValueType::Integer,
            keywords: Seq::<Seq<char>>::empty(),
            description: "Number of channels/tracks"@,
        }
    } else if i == 9 {
        AttrMetaV {
            code_name_pattern: "R-x\\TK1-n"@,
            display_name: "Track/Channel Number"@,
            group: GroupPrefix::R,
            spec_section: "§9.5.4"@,
            introduced_in: Irig106Version::V106_04,
            deprecated_in: None,
            removed_in: None,
            required_tag: RequiredTag::RequiredCh10,
            max_field_size: Some(5u16),
            value_type: ValueType::Integer,
            keywords: Seq::<Seq<char>>::empty(),
            description: "Track number or Channel ID"@,
        }
    } else if i == 10 {
        AttrMetaV {
            code_name_pattern: "R-x\\CDT-n"@,
            display_name: "Channel Data Type"@,
            group: GroupPrefix::R,
            spec_section: "§9.5.4"@,
            introduced_in: Irig106Version::V106_07,
            deprecated_in: None,
            removed_in: None,
            required_tag: RequiredTag::RequiredCh10,
            max_field_size: Some(7u16),
            value_type: ValueType::Keyword,
            keywords: seq!["PCMIN"@, "TIMEIN"@, "VIDIN"@, "ANAIN"@, "IMAIN"@, "UARIN"@, "1553IN"@, "16PP"@, "A429IN"@, "MSGIN"@, "DISIN"@, "CANIN"@, "FC"@, "ETHIN"@],
            description: "Channel data type"@,
        }
    } else if i == 11 {
        AttrMetaV {
            code_name_pattern: "R-x\\PDP-n"@,
            display_name: "Data Packing Option"@,
            group: GroupPrefix::R,
            spec_section: "§9.5.4"@,
            introduced_in: Irig106Version::V106_07,
            deprecated_in: None,
            removed_in: None,
            required_tag: RequiredTag::RequiredCh10,
            max_field_size: Some(3u16),
            value_type: ValueType::Keyword,
            keywords: seq!["UN"@, "PFS"@, "TM"@],
            description: "Data packing: Unpacked, Packed, Throughput"@,
        }
    } else if i == 12 {
        AttrMetaV {
            code_name_pattern: "P-n\\DLN"@,
            display_name: "Data Link Name"@,
            group: GroupPrefix::P,
            spec_section: "§9.5.6.1"@,
            introduced_in: Irig106Version::V106_04,
            deprecated_in: None,
            removed_in: None,
            required_tag: RequiredTag::Required,
            max_field_size: Some(32u16),
            value_type: ValueType::Text,
            keywords: Seq::<Seq<char>>::empty(),
            description: "PCM data link name"@,
        }
    } else if i == 13 {
        AttrMetaV {
            code_name_pattern: "P-n\\D1"@,
            display_name: "Bit Rate"@,
            group: GroupPrefix::P,
            spec_section: "§9.5.6.1"@,
            introduced_in: Irig106Version::V106_04,
            deprecated_in: None,
            removed_in: None,
            required_tag: RequiredTag::Required,
            max_field_size: Some(20u16),
            value_type: ValueType::Decimal,
            keywords: Seq::<Seq<char>>::empty(),
            description: "Data rate in bits per second"@,
        }
    } else if i == 14 {
        AttrMetaV {
            code_name_pattern: "P-n\\D2"@,
            display_name: "Encoding"@,
            group: GroupPrefix::P,
            spec_section: "§9.5.6.1"@,
            introduced_in: Irig106Version::V106_04,
            deprecated_in: None,
            removed_in: None,
            required_tag: RequiredTag::Required,
            max_field_size: Some(5u16),
            value_type: ValueType::Keyword,
            keywords: seq!["NRZ-L"@, "NRZ-M"@, "NRZ-S"@, "RNRZ-L"@, "BIO-L"@, "BIO-M"@, "BIO-S"@, "DBP-M"@, "DBP-S"@, "DBP-L"@, "FSKM"@],
            description: "PCM encoding type"@,
        }
    } else if i == 15 {
        AttrMetaV {
            code_name_pattern: "P-n\\F1"@,
            display_name: "Words per Minor Frame"@,
            group: GroupPrefix::P,
            spec_section: "§9.5.6.1"@,
            introduced_in: Irig106Version::V106_04,
            deprecated_in: None,
            removed_in: None,
            required_tag: RequiredTag::Required,
            max_field_size: Some(5u16),
            value_type: ValueType::Integer,
            keywords: Seq::<Seq<char>>::empty(),
            description: "Number of words per minor frame"@,
        }
    } else if i == 16 {
        AttrMetaV {
            code_name_pattern: "P-n\\F2"@,
            display_name: "Bits per Word"@,
            group: GroupPrefix::P,
            spec_section: "§9.5.6.1"@,
            introduced_in: Irig106Version::V106_04,
            deprecated_in: None,
            removed_in: None,
            required_tag: RequiredTag::Required,
            max_field_size: Some(2u16),
            value_type: ValueType::Integer,
            keywords: Seq::<Seq<char>>::empty(),
            description: "Common word length in bits"@,
        }
    } else if i == 17 {
        AttrMetaV {
            code_name_pattern: "P-n\\F3"@,
            display_name: "Sync Pattern"@,
            group: GroupPrefix::P,
            spec_section: "§9.5.6.1"@,
            introduced_in: Irig106Version::V106_04,
            deprecated_in: None,
            removed_in: None,
            required_tag: RequiredTag::Required,
            max_field_size: Some(64u16),
            value_type: ValueType::Text,
            keywords: Seq::<Seq<char>>::empty(),
            description: "Frame sync pattern (hex)"@,
        }
    } else if i == 18 {
        AttrMetaV {
            code_name_pattern: "B-n\\DLN"@,
            display_name: "Data Link Name"@,
            group: GroupPrefix::B,
            spec_section: "§9.5.6.3"@,
            introduced_in: Irig106Version::V106_04,
            deprecated_in: None,
            removed_in: None,
            required_tag: RequiredTag::Required,
            max_field_size: Some(32u16),
            value_type: ValueType::Text,
            keywords: Seq::<Seq<char>>::empty(),
            description: "Bus data link name"@,
        }
    } else if i == 19 {
        AttrMetaV {
            code_name_pattern: "B-n\\BT"@,
            display_name: "Bus Type"@,
            group: GroupPrefix::B,
            spec_section: "§9.5.6.3"@,
            introduced_in: Irig106Version::V106_04,
            deprecated_in: None,
            removed_in: None,
            required_tag: RequiredTag::Required,
            max_field_size: Some(4u16),
            value_type: ValueType::Keyword,
            keywords: seq!["1553"@, "A429"@],
            description: "Bus type"@,
        }
    } else if i == 20 {
        AttrMetaV {
            code_name_pattern: "C-n\\DCN"@,
            display_name: "Data Conversion Name"@,
            group: GroupPrefix::C,
            spec_section: "§9.5.8"@,
            introduced_in: Irig106Version::V106_04,
            deprecated_in: None,
            removed_in: None,
            required_tag: RequiredTag::Required,
            max_field_size: Some(32u16),
            value_type: ValueType::Text,
            keywords: Seq::<Seq<char>>::empty(),
            description: "Measurement name for conversion"@,
        }
    } else {
        AttrMetaV {
            code_name_pattern: "C-n\\DCT"@,
            display_name: "Data Conversion Type"@,
            group: GroupPrefix::C,
            spec_section: "§9.5.8"@,
            introduced_in: Irig106Version::V106_04,
            deprecated_in: None,
            removed_in: None,
            required_tag: RequiredTag::Required,
            max_field_size: Some(4u16),
            value_type: ValueType::Keyword,
            keywords: seq!["PAIR"@, "COEF"@, "TABL"@, "POLY"@, "FORM"@],
            description: "Conversion type"@,
        }
    }
}

/// All known TMATS attributes across all supported versions, from the
/// Ch9 §9.5 attribute tables.
pub open spec fn attr_table() -> Seq<AttrMetaV> {
    Seq::new(22, |i: int| attr_entry(i))
}

fn attr_entries() -> (r: Vec<AttrMeta>)
    ensures
        meta_views(r@) == attr_table(),
{
    let mut entries: Vec<AttrMeta> = Vec::new();
    let kw: Vec<&'static str> = vec![];
    assert(str_views(kw@) =~= attr_entry(0).keywords);
    entries.push(AttrMeta {
        code_name_pattern: "G\\PN",
        display_name: "Program Name",
        group: GroupPrefix::G,
        spec_section: "§9.5.2 Table 9-1",
        introduced_in: Irig106Version::V106_04,
        deprecated_in: None,
        removed_in: None,
        required_tag: RequiredTag::Required,
        max_field_size: Some(32u16),
        value_type: ValueType::Text,
        keywords: kw,
        description: "Name of the test program",
    });
    assert(meta_views(entries@) =~= attr_table().take(1));
    let kw: Vec<&'static str> = vec!["04", "05", "07", "08", "09", "11", "13", "15", "17"];
    assert(str_views(kw@) =~= attr_entry(1).keywords);
    entries.push(AttrMeta {
        code_name_pattern: "G\\106",
        display_name: "IRIG 106 Version",
        group: GroupPrefix::G,
        spec_section: "§9.5.2 Table 9-1",
        introduced_in: Irig106Version::V106_07,
        deprecated_in: None,
        removed_in: None,
        required_tag: RequiredTag::Required,
        max_field_size: Some(2u16),
        value_type: ValueType::Keyword,
        keywords: kw,
        description: "Version of IRIG 106 standard",
    });
    assert(meta_views(entries@) =~= attr_table().take(2));
    let kw: Vec<&'static str> = vec![];
    assert(str_views(kw@) =~= attr_entry(2).keywords);
    entries.push(AttrMeta {
        code_name_pattern: "G\\OD",
        display_name: "Origination Date",
        group: GroupPrefix::G,
        spec_section: "§9.5.2 Table 9-1",
        introduced_in: Irig106Version::V106_04,
        deprecated_in: None,
        removed_in: None,
        required_tag: RequiredTag::Required,
        max_field_size: Some(10u16),
        value_type: ValueType::Date,
        keywords: kw,
        description: "Date of origination (MM-DD-YYYY)",
    });
    assert(meta_views(entries@) =~= attr_table().take(3));
    let kw: Vec<&'static str> = vec![];
    assert(str_views(kw@) =~= attr_entry(3).keywords);
    entries.push(AttrMeta {
        code_name_pattern: "G\\DSI\\N",
        display_name: "Number of Data Sources",
        group: GroupPrefix::G,
        spec_section: "§9.5.2 Table 9-1",
        introduced_in: Irig106Version::V106_04,
        deprecated_in: None,
        removed_in: None,
        required_tag: RequiredTag::Required,
        max_field_size: Some(4u16),
        value_type: ValueType::Integer,
        keywords: kw,
        description: "Number of data sources",
    });
    assert(meta_views(entries@) =~= attr_table().take(4));
    let kw: Vec<&'static str> = vec![];
    assert(str_views(kw@) =~= attr_entry(4).keywords);
    entries.push(AttrMeta {
        code_name_pattern: "G\\DSI-n",
        display_name: "Data Source Identifier",
        group: GroupPrefix::G,
        spec_section: "§9.5.2 Table 9-1",
        introduced_in: Irig106Version::V106_04,
        deprecated_in: None,
        removed_in: None,
        required_tag: RequiredTag::Required,
        max_field_size: Some(32u16),
        value_type: ValueType::Text,
        keywords: kw,
        description: "Descriptive name for this source",
    });
    assert(meta_views(entries@) =~= attr_table().take(5));
    let kw: Vec<&'static str> = vec!["REC", "TEL", "MUL", "PRE"];
    assert(str_views(kw@) =~= attr_entry(5).keywords);
    entries.push(AttrMeta {
        code_name_pattern: "G\\DST-n",
        display_name: "Data Source Type",
        group: GroupPrefix::G,
        spec_section: "§9.5.2 Table 9-1",
        introduced_in: Irig106Version::V106_04,
        deprecated_in: None,
        removed_in: None,
        required_tag: RequiredTag::Required,
        max_field_size: Some(3u16),
        value_type: ValueType::Keyword,
        keywords: kw,
        description: "Type of source",
    });
    assert(meta_views(entries@) =~= attr_table().take(6));
    let kw: Vec<&'static str> = vec!["U", "C", "S"];
    assert(str_views(kw@) =~= attr_entry(6).keywords);
    entries.push(AttrMeta {
        code_name_pattern: "G\\DSC-n",
        display_name: "Data Source Classification",
        group: GroupPrefix::G,
        spec_section: "§9.5.2 Table 9-1",
        introduced_in: Irig106Version::V106_04,
        deprecated_in: None,
        removed_in: None,
        required_tag: RequiredTag::Optional,
        max_field_size: Some(1u16),
        value_type: ValueType::Keyword,
        keywords: kw,
        description: "Classification of the data",
    });
    assert(meta_views(entries@) =~= attr_table().take(7));
    let kw: Vec<&'static str> = vec![];
    assert(str_views(kw@) =~= attr_entry(7).keywords);
    entries.push(AttrMeta {
        code_name_pattern: "R-x\\ID",
        display_name: "Recorder Identification",
        group: GroupPrefix::R,
        spec_section: "§9.5.4",
        introduced_in: Irig106Version::V106_04,
        deprecated_in: None,
        removed_in: None,
        required_tag: RequiredTag::RequiredCh10,
        max_field_size: Some(32u16),
        value_type: ValueType::Text,
        keywords: kw,
        description: "Recorder identification",
    });
    assert(meta_views(entries@) =~= attr_table().take(8));
    let kw: Vec<&'static str> = vec![];
    assert(str_views(kw@) =~= attr_entry(8).keywords);
    entries.push(AttrMeta {
        code_name_pattern: "R-x\\N",
        display_name: "Number of Channels",
        group: GroupPrefix::R,
        spec_section: "§9.5.4",
        introduced_in: Irig106Version::V106_04,
        deprecated_in: None,
        removed_in: None,
        required_tag: RequiredTag::RequiredCh10,
        max_field_size: Some(4u16),
        value_type: ValueType::Integer,
        keywords: kw,
        description: "Number of channels/tracks",
    });
    assert(meta_views(entries@) =~= attr_table().take(9));
    let kw: Vec<&'static str> = vec![];
    assert(str_views(kw@) =~= attr_entry(9).keywords);
    entries.push(AttrMeta {
        code_name_pattern: "R-x\\TK1-n",
        display_name: "Track/Channel Number",
        group: GroupPrefix::R,
        spec_section: "§9.5.4",
        introduced_in: Irig106Version::V106_04,
        deprecated_in: None,
        removed_in: None,
        required_tag: RequiredTag::RequiredCh10,
        max_field_size: Some(5u16),
        value_type: ValueType::Integer,
        keywords: kw,
        description: "Track number or Channel ID",
    });
    assert(meta_views(entries@) =~= attr_table().take(10));
    let kw: Vec<&'static str> = vec!["PCMIN", "TIMEIN", "VIDIN", "ANAIN", "IMAIN", "UARIN", "1553IN", "16PP", "A429IN", "MSGIN", "DISIN", "CANIN", "FC", "ETHIN"];
    assert(str_views(kw@) =~= attr_entry(10).keywords);
    entries.push(AttrMeta {
        code_name_pattern: "R-x\\CDT-n",
        display_name: "Channel Data Type",
        group: GroupPrefix::R,
        spec_section: "§9.5.4",
        introduced_in: Irig106Version::V106_07,
        deprecated_in: None,
        removed_in: None,
        required_tag: RequiredTag::RequiredCh10,
        max_field_size: Some(7u16),
        value_type: ValueType::Keyword,
        keywords: kw,
        description: "Channel data type",
    });
    assert(meta_views(entries@) =~= attr_table().take(11));
    let kw: Vec<&'static str> = vec!["UN", "PFS", "TM"];
    assert(str_views(kw@) =~= attr_entry(11).keywords);
    entries.push(AttrMeta {
        code_name_pattern: "R-x\\PDP-n",
        display_name: "Data Packing Option",
        group: GroupPrefix::R,
        spec_section: "§9.5.4",
        introduced_in: Irig106Version::V106_07,
        deprecated_in: None,
        removed_in: None,
        required_tag: RequiredTag::RequiredCh10,
        max_field_size: Some(3u16),
        value_type: ValueType::Keyword,
        keywords: kw,
        description: "Data packing: Unpacked, Packed, Throughput",
    });
    assert(meta_views(entries@) =~= attr_table().take(12));
    let kw: Vec<&'static str> = vec![];
    assert(str_views(kw@) =~= attr_entry(12).keywords);
    entries.push(AttrMeta {
        code_name_pattern: "P-n\\DLN",
        display_name: "Data Link Name",
        group: GroupPrefix::P,
        spec_section: "§9.5.6.1",
        introduced_in: Irig106Version::V106_04,
        deprecated_in: None,
        removed_in: None,
        required_tag: RequiredTag::Required,
        max_field_size: Some(32u16),
        value_type: ValueType::Text,
        keywords: kw,
        description: "PCM data link name",
    });
    assert(meta_views(entries@) =~= attr_table().take(13));
    let kw: Vec<&'static str> = vec![];
    assert(str_views(kw@) =~= attr_entry(13).keywords);
    entries.push(AttrMeta {
        code_name_pattern: "P-n\\D1",
        display_name: "Bit Rate",
        group: GroupPrefix::P,
        spec_section: "§9.5.6.1",
        introduced_in: Irig106Version::V106_04,
        deprecated_in: None,
        removed_in: None,
        required_tag: RequiredTag::Required,
        max_field_size: Some(20u16),
        value_type: ValueType::Decimal,
        keywords: kw,
        description: "Data rate in bits per second",
    });
    assert(meta_views(entries@) =~= attr_table().take(14));
    let kw: Vec<&'static str> = vec!["NRZ-L", "NRZ-M", "NRZ-S", "RNRZ-L", "BIO-L", "BIO-M", "BIO-S", "DBP-M", "DBP-S", "DBP-L", "FSKM"];
    assert(str_views(kw@) =~= attr_entry(14).keywords);
    entries.push(AttrMeta {
        code_name_pattern: "P-n\\D2",
        display_name: "Encoding",
        group: GroupPrefix::P,
        spec_section: "§9.5.6.1",
        introduced_in: Irig106Version::V106_04,
        deprecated_in: None,
        removed_in: None,
        required_tag: RequiredTag::Required,
        max_field_size: Some(5u16),
        value_type: ValueType::Keyword,
        keywords: kw,
        description: "PCM encoding type",
    });
    assert(meta_views(entries@) =~= attr_table().take(15));
    let kw: Vec<&'static str> = vec![];
    assert(str_views(kw@) =~= attr_entry(15).keywords);
    entries.push(AttrMeta {
        code_name_pattern: "P-n\\F1",
        display_name: "Words per Minor Frame",
        group: GroupPrefix::P,
        spec_section: "§9.5.6.1",
        introduced_in: Irig106Version::V106_04,
        deprecated_in: None,
        removed_in: None,
        required_tag: RequiredTag::Required,
        max_field_size: Some(5u16),
        value_type: ValueType::Integer,
        keywords: kw,
        description: "Number of words per minor frame",
    });
    assert(meta_views(entries@) =~= attr_table().take(16));
    let kw: Vec<&'static str> = vec![];
    assert(str_views(kw@) =~= attr_entry(16).keywords);
    entries.push(AttrMeta {
        code_name_pattern: "P-n\\F2",
        display_name: "Bits per Word",
        group: GroupPrefix::P,
        spec_section: "§9.5.6.1",
        introduced_in: Irig106Version::V106_04,
        deprecated_in: None,
        removed_in: None,
        required_tag: RequiredTag::Required,
        max_field_size: Some(2u16),
        value_type: ValueType::Integer,
        keywords: kw,
        description: "Common word length in bits",
    });
    assert(meta_views(entries@) =~= attr_table().take(17));
    let kw: Vec<&'static str> = vec![];
    assert(str_views(kw@) =~= attr_entry(17).keywords);
    entries.push(AttrMeta {
        code_name_pattern: "P-n\\F3",
        display_name: "Sync Pattern",
        group: GroupPrefix::P,
        spec_section: "§9.5.6.1",
        introduced_in: Irig106Version::V106_04,
        deprecated_in: None,
        removed_in: None,
        required_tag: RequiredTag::Required,
        max_field_size: Some(64u16),
        value_type: ValueType::Text,
        keywords: kw,
        description: "Frame sync pattern (hex)",
    });
    assert(meta_views(entries@) =~= attr_table().take(18));
    let kw: Vec<&'static str> = vec![];
    assert(str_views(kw@) =~= attr_entry(18).keywords);
    entries.push(AttrMeta {
        code_name_pattern: "B-n\\DLN",
        display_name: "Data Link Name",
        group: GroupPrefix::B,
        spec_section: "§9.5.6.3",
        introduced_in: Irig106Version::V106_04,
        deprecated_in: None,
        removed_in: None,
        required_tag: RequiredTag::Required,
        max_field_size: Some(32u16),
        value_type: ValueType::Text,
        keywords: kw,
        description: "Bus data link name",
    });
    assert(meta_views(entries@) =~= attr_table().take(19));
    let kw: Vec<&'static str> = vec!["1553", "A429"];
    assert(str_views(kw@) =~= attr_entry(19).keywords);
    entries.push(AttrMeta {
        code_name_pattern: "B-n\\BT",
        display_name: "Bus Type",
        group: GroupPrefix::B,
        spec_section: "§9.5.6.3",
        introduced_in: Irig106Version::V106_04,
        deprecated_in: None,
        removed_in: None,
        required_tag: RequiredTag::Required,
        max_field_size: Some(4u16),
        value_type: ValueType::Keyword,
        keywords: kw,
        description: "Bus type",
    });
    assert(meta_views(entries@) =~= attr_table().take(20));
    let kw: Vec<&'static str> = vec![];
    assert(str_views(kw@) =~= attr_entry(20).keywords);
    entries.push(AttrMeta {
        code_name_pattern: "C-n\\DCN",
        display_name: "Data Conversion Name",
        group: GroupPrefix::C,
        spec_section: "§9.5.8",
        introduced_in: Irig106Version::V106_04,
        deprecated_in: None,
        removed_in: None,
        required_tag: RequiredTag::Required,
        max_field_size: Some(32u16),
        value_type: ValueType::Text,
        keywords: kw,
        description: "Measurement name for conversion",
    });
    assert(meta_views(entries@) =~= attr_table().take(21));
    let kw: Vec<&'static str> = vec!["PAIR", "COEF", "TABL", "POLY", "FORM"];
    assert(str_views(kw@) =~= attr_entry(21).keywords);
    entries.push(AttrMeta {
        code_name_pattern: "C-n\\DCT",
        display_name: "Data Conversion Type",
        group: GroupPrefix::C,
        spec_section: "§9.5.8",
        introduced_in: Irig106Version::V106_04,
        deprecated_in: None,
        removed_in: None,
        required_tag: RequiredTag::Required,
        max_field_size: Some(4u16),
        value_type: ValueType::Keyword,
        keywords: kw,
        description: "Conversion type",
    });
    assert(meta_views(entries@) =~= attr_table().take(22));
    assert(attr_table().take(22) =~= attr_table());
    entries
}

// ─── The registry ───────────────────────────────────────────────────────────

/// The entries of `s` that satisfy `p`, in order.
pub open spec fn keep(s: Seq<AttrMetaV>, p: spec_fn(AttrMetaV) -> bool) -> Seq<AttrMetaV>
    decreases s.len(),
{
    if s.len() == 0 {
        s
    } else if p(s.last()) {
        keep(s.drop_last(), p).push(s.last())
    } else {
        keep(s.drop_last(), p)
    }
}

/// Position of the first entry from `i` on whose pattern is `p`, or -1.
pub open spec fn pattern_index_from(s: Seq<AttrMetaV>, p: Seq<char>, i: int) -> int
    decreases s.len() - i,
{
    if i < 0 || i >= s.len() {
        -1
    } else if s[i].code_name_pattern == p {
        i
    } else {
        pattern_index_from(s, p, i + 1)
    }
}

pub proof fn lemma_pattern_index_from(s: Seq<AttrMetaV>, p: Seq<char>, i: int)
    requires
        0 <= i,
    ensures
        pattern_index_from(s, p, i) == -1 || (i <= pattern_index_from(s, p, i) < s.len()
            && s[pattern_index_from(s, p, i)].code_name_pattern == p),
    decreases s.len() - i,
{
    if i < s.len() && s[i].code_name_pattern != p {
        lemma_pattern_index_from(s, p, i + 1);
    }
}

pub open spec fn group_pred(g: GroupPrefix) -> spec_fn(AttrMetaV) -> bool {
    |m: AttrMetaV| m.group == g
}

pub open spec fn valid_pred(v: Irig106Version) -> spec_fn(AttrMetaV) -> bool {
    |m: AttrMetaV| m.valid_for(v)
}

pub open spec fn required_pred(v: Irig106Version) -> spec_fn(AttrMetaV) -> bool {
    |m: AttrMetaV| m.valid_for(v) && m.required_tag == RequiredTag::Required
}

pub open spec fn required_ch10_pred(v: Irig106Version) -> spec_fn(AttrMetaV) -> bool {
    |m: AttrMetaV| m.valid_for(v) && (m.required_tag == RequiredTag::Required || m.required_tag == RequiredTag::RequiredCh10)
}

/// The code-name patterns of entries.
pub open spec fn patterns(s: Seq<AttrMetaV>) -> Seq<Seq<char>> {
    s.map_values(|m: AttrMetaV| m.code_name_pattern)
}

pub open spec fn added_pred(fs: Seq<Seq<char>>, ts: Seq<Seq<char>>) -> spec_fn(AttrMetaV) -> bool {
    |m: AttrMetaV| !fs.contains(m.code_name_pattern) && ts.contains(m.code_name_pattern)
}

pub open spec fn removed_pred(fs: Seq<Seq<char>>, ts: Seq<Seq<char>>) -> spec_fn(AttrMetaV) -> bool {
    |m: AttrMetaV| fs.contains(m.code_name_pattern) && !ts.contains(m.code_name_pattern)
}

pub open spec fn deprecated_pred(from: Irig106Version, to: Irig106Version) -> spec_fn(AttrMetaV) -> bool {
    |m: AttrMetaV| m.valid_for(to) && m.deprecated_for(to) && !m.deprecated_for(from)
}

/// Indexed registry of attribute metadata.
pub struct AttrMetaRegistry {
    entries: Vec<AttrMeta>,
}

impl View for AttrMetaRegistry {
    type V = Seq<AttrMetaV>;

    closed spec fn view(&self) -> Seq<AttrMetaV> {
        meta_views(self.entries@)
    }
}

impl Default for AttrMetaRegistry {
    fn default() -> (r: Self)
        ensures
            r@ == attr_table(),
    {
        Self::new()
    }
}

/// Results of comparing attribute sets between two IRIG 106 versions.
#[derive(Debug)]
pub struct MigrationDiff<'a> {
    pub from: Irig106Version,
    pub to: Irig106Version,
    pub added: Vec<&'a AttrMeta>,
    pub removed: Vec<&'a AttrMeta>,
    pub deprecated: Vec<&'a AttrMeta>,
}

impl<'a> MigrationDiff<'a> {
    pub fn has_changes(&self) -> (r: bool)
        ensures
            r == (self.added@.len() > 0 || self.removed@.len() > 0 || self.deprecated@.len() > 0),
    {
        self.added.len() > 0 || self.removed.len() > 0 || self.deprecated.len() > 0
    }
}

/// Whether the text `x` is among `v`.
fn str_in(v: &Vec<&'static str>, x: &str) -> (r: bool)
    ensures
        r == str_views(v@).contains(x@),
{
    let xv = chars_of(x);
    let n = v.len();
    for i in 0..n
        invariant
            n == v@.len(),
            xv@ == x@,
            forall|j: int| 0 <= j < i ==> v@[j]@ != x@,
    {
        if chars_eq_str(&xv, v[i]) {
            assert(str_views(v@)[i as int] == x@);
            return true;
        }
    }
    proof {
        if str_views(v@).contains(x@) {
            let j = choose|j: int| 0 <= j < str_views(v@).len() && str_views(v@)[j] == x@;
            assert(v@[j]@ == x@);
        }
    }
    false
}

impl AttrMetaRegistry {
    /// Build the registry from the attribute table.
    pub fn new() -> (r: Self)
        ensures
            r@ == attr_table(),
    {
        AttrMetaRegistry { entries: attr_entries() }
    }

    /// Look up attribute metadata by exact code-name pattern.
    pub fn get(&self, pattern: &str) -> (r: Option<&AttrMeta>)
        ensures
            match r {
                Some(m) => pattern_index_from(self@, pattern@, 0) >= 0 && m@ == self@[pattern_index_from(self@, pattern@, 0)],
                None => pattern_index_from(self@, pattern@, 0) == -1,
            },
    {
        let p = chars_of(pattern);
        let n = self.entries.len();
        let mut i: usize = 0;
        while i < n
            invariant
                i <= n,
                n == self@.len(),
                p@ == pattern@,
                pattern_index_from(self@, pattern@, 0) == pattern_index_from(self@, pattern@, i as int),
            decreases n - i,
        {
            if chars_eq_str(&p, self.entries[i].code_name_pattern) {
                return Some(&self.entries[i]);
            }
            i = i + 1;
        }
        None
    }

    /// All attributes of a group, in table order.
    pub fn group(&self, prefix: GroupPrefix) -> (r: Vec<&AttrMeta>)
        ensures
            meta_ref_views(r@) == keep(self@, group_pred(prefix)),
    {
        let mut out: Vec<&AttrMeta> = Vec::new();
        let n = self.entries.len();
        for i in 0..n
            invariant
                n == self@.len(),
                meta_ref_views(out@) == keep(self@.take(i as int), group_pred(prefix)),
        {
            assert(self@.take(i + 1).drop_last() =~= self@.take(i as int));
            let m = &self.entries[i];
            if m.group.same(&prefix) {
                out.push(m);
            }
            assert(meta_ref_views(out@) =~= keep(self@.take(i + 1), group_pred(prefix)));
        }
        assert(self@.take(n as int) =~= self@);
        out
    }

    /// All attributes present in a given version, in table order.
    pub fn for_version(&self, version: Irig106Version) -> (r: Vec<&AttrMeta>)
        ensures
            meta_ref_views(r@) == keep(self@, valid_pred(version)),
    {
        let mut out: Vec<&AttrMeta> = Vec::new();
        let n = self.entries.len();
        for i in 0..n
            invariant
                n == self@.len(),
                meta_ref_views(out@) == keep(self@.take(i as int), valid_pred(version)),
        {
            assert(self@.take(i + 1).drop_last() =~= self@.take(i as int));
            let m = &self.entries[i];
            if m.is_valid_for(version) {
                out.push(m);
            }
            assert(meta_ref_views(out@) =~= keep(self@.take(i + 1), valid_pred(version)));
        }
        assert(self@.take(n as int) =~= self@);
        out
    }

    /// All attributes required in every context in a given version.
    pub fn required_for_version(&self, version: Irig106Version) -> (r: Vec<&AttrMeta>)
        ensures
            meta_ref_views(r@) == keep(self@, required_pred(version)),
    {
        let mut out: Vec<&AttrMeta> = Vec::new();
        let n = self.entries.len();
        for i in 0..n
            invariant
                n == self@.len(),
                meta_ref_views(out@) == keep(self@.take(i as int), required_pred(version)),
        {
            assert(self@.take(i + 1).drop_last() =~= self@.take(i as int));
            let m = &self.entries[i];
            if m.is_valid_for(version) && m.required_tag.is_required() {
                out.push(m);
            }
            assert(meta_ref_views(out@) =~= keep(self@.take(i + 1), required_pred(version)));
        }
        assert(self@.take(n as int) =~= self@);
        out
    }

    /// All attributes required in a Chapter 10 context in a given version.
    pub fn required_for_ch10(&self, version: Irig106Version) -> (r: Vec<&AttrMeta>)
        ensures
            meta_ref_views(r@) == keep(self@, required_ch10_pred(version)),
    {
        let mut out: Vec<&AttrMeta> = Vec::new();
        let n = self.entries.len();
        for i in 0..n
            invariant
                n == self@.len(),
                meta_ref_views(out@) == keep(self@.take(i as int), required_ch10_pred(version)),
        {
            assert(self@.take(i + 1).drop_last() =~= self@.take(i as int));
            let m = &self.entries[i];
            if m.is_valid_for(version) && m.required_tag.is_required_ch10() {
                out.push(m);
            }
            assert(meta_ref_views(out@) =~= keep(self@.take(i + 1), required_ch10_pred(version)));
        }
        assert(self@.take(n as int) =~= self@);
        out
    }

    /// The patterns of the attributes present in a version.
    fn patterns_for(&self, version: Irig106Version) -> (r: Vec<&'static str>)
        ensures
            str_views(r@) == patterns(keep(self@, valid_pred(version))),
    {
        let metas = self.for_version(version);
        let mut out: Vec<&'static str> = Vec::new();
        let n = metas.len();
        for i in 0..n
            invariant
                n == metas@.len(),
                meta_ref_views(metas@) == keep(self@, valid_pred(version)),
                str_views(out@) == patterns(meta_ref_views(metas@).take(i as int)),
        {
            let ghost prev = str_views(out@);
            let p = metas[i].code_name_pattern;
            out.push(p);
            assert(str_views(out@) =~= prev.push(p@));
            assert(meta_ref_views(metas@).take(i + 1) =~= meta_ref_views(metas@).take(i as int).push(metas@[i as int]@));
            assert(str_views(out@) =~= patterns(meta_ref_views(metas@).take(i + 1)));
        }
        assert(meta_ref_views(metas@).take(n as int) =~= meta_ref_views(metas@));
        out
    }

    /// Compute the migration differences between two versions.
    pub fn migration_diff(&self, from: Irig106Version, to: Irig106Version) -> (r: MigrationDiff)
        ensures
            r.from == from,
            r.to == to,
            ({
                let fs = patterns(keep(self@, valid_pred(from)));
                let ts = patterns(keep(self@, valid_pred(to)));
                &&& meta_ref_views(r.added@) == keep(self@, added_pred(fs, ts))
                &&& meta_ref_views(r.removed@) == keep(self@, removed_pred(fs, ts))
                &&& meta_ref_views(r.deprecated@) == keep(self@, deprecated_pred(from, to))
            }),
    {
        let from_set = self.patterns_for(from);
        let to_set = self.patterns_for(to);
        let ghost fs = str_views(from_set@);
        let ghost ts = str_views(to_set@);
        let mut added: Vec<&AttrMeta> = Vec::new();
        let mut removed: Vec<&AttrMeta> = Vec::new();
        let mut deprecated: Vec<&AttrMeta> = Vec::new();
        let n = self.entries.len();
        for i in 0..n
            invariant
                n == self@.len(),
                fs == str_views(from_set@),
                ts == str_views(to_set@),
                meta_ref_views(added@) == keep(self@.take(i as int), added_pred(fs, ts)),
                meta_ref_views(removed@) == keep(self@.take(i as int), removed_pred(fs, ts)),
                meta_ref_views(deprecated@) == keep(self@.take(i as int), deprecated_pred(from, to)),
        {
            assert(self@.take(i + 1).drop_last() =~= self@.take(i as int));
            let m = &self.entries[i];
            let in_from = str_in(&from_set, m.code_name_pattern);
            let in_to = str_in(&to_set, m.code_name_pattern);
            if !in_from && in_to {
                added.push(m);
            }
            if in_from && !in_to {
                removed.push(m);
            }
            if m.is_valid_for(to) && m.is_deprecated_for(to) && !m.is_deprecated_for(from) {
                deprecated.push(m);
            }
            assert(meta_ref_views(added@) =~= keep(self@.take(i + 1), added_pred(fs, ts)));
            assert(meta_ref_views(removed@) =~= keep(self@.take(i + 1), removed_pred(fs, ts)));
            assert(meta_ref_views(deprecated@) =~= keep(self@.take(i + 1), deprecated_pred(from, to)));
        }
        assert(self@.take(n as int) =~= self@);
        MigrationDiff { from, to, added, removed, deprecated }
    }

    /// All registered entries.
    pub fn all(&self) -> (r: &[AttrMeta])
        ensures
            meta_views(r@) == self@,
    {
        self.entries.as_slice()
    }

    /// Total number of registered attributes.
    pub fn len(&self) -> (r: usize)
        ensures
            r == self@.len(),
    {
        self.entries.len()
    }

    /// Whether the registry has no entries.
    pub fn is_empty(&self) -> (r: bool)
        ensures
            r == (self@.len() == 0),
    {
        self.entries.len() == 0
    }
}

/// The attribute metadata registry.
pub fn registry() -> (r: AttrMetaRegistry)
    ensures
        r@ == attr_table(),
{
    AttrMetaRegistry::new()
}

// ─── Laws ───────────────────────────────────────────────────────────────────

/// A filter whose predicate no entry meets is empty.
proof fn lemma_filter_none(s: Seq<AttrMetaV>, p: spec_fn(AttrMetaV) -> bool)
    requires
        forall|m: AttrMetaV| !#[trigger] p(m),
    ensures
        keep(s, p).len() == 0,
    decreases s.len(),
{
    if s.len() > 0 {
        lemma_filter_none(s.drop_last(), p);
    }
}

/// Migrating from a version to itself adds, removes and deprecates nothing.
pub proof fn law_migration_to_same_version(s: Seq<AttrMetaV>, v: Irig106Version)
    ensures
        ({
            let fs = patterns(keep(s, valid_pred(v)));
            &&& keep(s, added_pred(fs, fs)).len() == 0
            &&& keep(s, removed_pred(fs, fs)).len() == 0
            &&& keep(s, deprecated_pred(v, v)).len() == 0
        }),
{
    let fs = patterns(keep(s, valid_pred(v)));
    lemma_filter_none(s, added_pred(fs, fs));
    lemma_filter_none(s, removed_pred(fs, fs));
    lemma_filter_none(s, deprecated_pred(v, v));
}

/// Lookup by pattern finds an entry with exactly that pattern.
pub proof fn law_lookup_matches_pattern(s: Seq<AttrMetaV>, p: Seq<char>)
    ensures
        pattern_index_from(s, p, 0) >= 0 ==> s[pattern_index_from(s, p, 0)].code_name_pattern == p,
{
    lemma_pattern_index_from(s, p, 0);
}

} // verus!
