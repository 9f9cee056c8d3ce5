//! Types shared with the rest of the IRIG 106 tool family: the standard's
//! version, Chapter 10 data type codes, channel IDs and TMATS group letters.
use vstd::prelude::*;
use crate::text::{to_ascii_upper_char, upper_char, is_digit, is_white, trim, trim_start, trim_end, trimmed_chars, chars_eq_str, push_str, push_dec, dec};

verus! {

/// IRIG 106 standard version identifiers.
///
/// Maps to the `G\106` TMATS attribute and the `iCh10Ver` CSDW field.
#[derive(Debug, Clone, Copy, PartialEq, Eq, Hash, PartialOrd, Ord, Structural)]
pub enum Irig106Version {
    /// IRIG 106-04 (no CSDW structure)
    V106_04,
    /// IRIG 106-05
    V106_05,
    /// IRIG 106-07 (introduced CSDW for setup records)
    V106_07,
    /// IRIG 106-09
    V106_09,
    /// IRIG 106-11
    V106_11,
    /// IRIG 106-13 (removed PAM attributes)
    V106_13,
    /// IRIG 106-15
    V106_15,
    /// IRIG 106-17 (Chapter 10/11 split)
    V106_17,
}

/// Length of the run of ASCII digits at the end of `s`.
pub open spec fn trailing_digit_count(s: Seq<char>) -> nat
    decreases s.len(),
{
    if s.len() > 0 && is_digit(s.last()) {
        1 + trailing_digit_count(s.drop_last())
    } else {
        0
    }
}

/// The run of ASCII digits at the end of `s`.
pub open spec fn trailing_digits(s: Seq<char>) -> Seq<char> {
    s.skip(s.len() - trailing_digit_count(s))
}

proof fn lemma_trailing_digit_count(s: Seq<char>, k: int)
    requires
        0 <= k <= s.len(),
        forall|j: int| s.len() - k <= j < s.len() ==> is_digit(s[j]),
        k < s.len() ==> !is_digit(s[s.len() - k - 1]),
    ensures
        trailing_digit_count(s) == k,
    decreases k,
{
    if k > 0 {
        let t = s.drop_last();
        assert forall|j: int| t.len() - (k - 1) <= j < t.len() implies is_digit(t[j]) by {
            assert(t[j] == s[j]);
        }
        if k < s.len() {
            assert(t[t.len() - (k - 1) - 1] == s[s.len() - k - 1]);
        }
        lemma_trailing_digit_count(t, k - 1);
    }
}

impl Irig106Version {
    /// The version's two-digit number (4, 5, 7, ... 17); versions are ordered by it.
    pub open spec fn spec_number(self) -> nat {
        match self {
            Irig106Version::V106_04 => 4,
            Irig106Version::V106_05 => 5,
            Irig106Version::V106_07 => 7,
            Irig106Version::V106_09 => 9,
            Irig106Version::V106_11 => 11,
            Irig106Version::V106_13 => 13,
            Irig106Version::V106_15 => 15,
            Irig106Version::V106_17 => 17,
        }
    }

    /// The version's number; versions are ordered by it.
    pub fn number(&self) -> (r: u8)
        ensures
            r == self.spec_number(),
    {
        match self {
            Irig106Version::V106_04 => 4,
            Irig106Version::V106_05 => 5,
            Irig106Version::V106_07 => 7,
            Irig106Version::V106_09 => 9,
            Irig106Version::V106_11 => 11,
            Irig106Version::V106_13 => 13,
            Irig106Version::V106_15 => 15,
            Irig106Version::V106_17 => 17,
        }
    }

    /// The `G\106` text of the version.
    pub open spec fn spec_g106(self) -> Seq<char> {
        match self {
            Irig106Version::V106_04 => "04"@,
            Irig106Version::V106_05 => "05"@,
            Irig106Version::V106_07 => "07"@,
            Irig106Version::V106_09 => "09"@,
            Irig106Version::V106_11 => "11"@,
            Irig106Version::V106_13 => "13"@,
            Irig106Version::V106_15 => "15"@,
            Irig106Version::V106_17 => "17"@,
        }
    }

    /// The version that a `G\106` value names: the run of digits that ends
    /// the trimmed value must be one of the two-digit version numbers.
    pub open spec fn spec_from_g106(s: Seq<char>) -> Option<Irig106Version> {
        let d = trailing_digits(trim(s));
        if d == "04"@ {
            Some(Irig106Version::V106_04)
        } else if d == "05"@ {
            Some(Irig106Version::V106_05)
        } else if d == "07"@ {
            Some(Irig106Version::V106_07)
        } else if d == "09"@ {
            Some(Irig106Version::V106_09)
        } else if d == "11"@ {
            Some(Irig106Version::V106_11)
        } else if d == "13"@ {
            Some(Irig106Version::V106_13)
        } else if d == "15"@ {
            Some(Irig106Version::V106_15)
        } else if d == "17"@ {
            Some(Irig106Version::V106_17)
        } else {
            None
        }
    }

    /// Parse from the `G\106` attribute string value.
    ///
    /// Accepts formats like "07", "106-07", "IRIG 106-07", etc.
    pub fn from_g106_str(s: &str) -> (r: Option<Self>)
        ensures
            r == Self::spec_from_g106(s@),
    {
        let v = trimmed_chars(s);
        let n = v.len();
        let mut k: usize = 0;
        while k < n && '0' <= v[n - k - 1] && v[n - k - 1] <= '9'
            invariant
                k <= n,
                n == v@.len(),
                forall|j: int| n - k <= j < n ==> is_digit(v@[j]),
            decreases n - k,
        {
            k = k + 1;
        }
        proof {
            lemma_trailing_digit_count(v@, k as int);
        }
        let mut d: Vec<char> = Vec::new();
        let mut i = n - k;
        while i < n
            invariant
                k <= n,
                n - k <= i <= n,
                n == v@.len(),
                d@ == v@.subrange(n - k, i as int),
            decreases n - i,
        {
            d.push(v[i]);
            assert(d@ =~= v@.subrange(n - k, i + 1));
            i = i + 1;
        }
        assert(d@ =~= trailing_digits(v@));
        if chars_eq_str(&d, "04") {
            Some(Irig106Version::V106_04)
        } else if chars_eq_str(&d, "05") {
            Some(Irig106Version::V106_05)
        } else if chars_eq_str(&d, "07") {
            Some(Irig106Version::V106_07)
        } else if chars_eq_str(&d, "09") {
            Some(Irig106Version::V106_09)
        } else if chars_eq_str(&d, "11") {
            Some(Irig106Version::V106_11)
        } else if chars_eq_str(&d, "13") {
            Some(Irig106Version::V106_13)
        } else if chars_eq_str(&d, "15") {
            Some(Irig106Version::V106_15)
        } else if chars_eq_str(&d, "17") {
            Some(Irig106Version::V106_17)
        } else {
            None
        }
    }

    pub open spec fn spec_from_csdw(ver: u8) -> Option<Irig106Version> {
        if ver == 7 {
            Some(Irig106Version::V106_07)
        } else if ver == 8 {
            Some(Irig106Version::V106_09)
        } else if ver == 9 {
            Some(Irig106Version::V106_11)
        } else if ver == 10 {
            Some(Irig106Version::V106_13)
        } else if ver == 11 {
            Some(Irig106Version::V106_15)
        } else if ver == 12 {
            Some(Irig106Version::V106_17)
        } else {
            None
        }
    }

    /// Map from the CSDW `iCh10Ver` field value (0, before 106-07, maps to none).
    pub fn from_csdw_version(ver: u8) -> (r: Option<Self>)
        ensures
            r == Self::spec_from_csdw(ver),
    {
        match ver {
            7 => Some(Irig106Version::V106_07),
            8 => Some(Irig106Version::V106_09),
            9 => Some(Irig106Version::V106_11),
            10 => Some(Irig106Version::V106_13),
            11 => Some(Irig106Version::V106_15),
            12 => Some(Irig106Version::V106_17),
            _ => None,
        }
    }

    pub open spec fn spec_to_csdw(self) -> u8 {
        match self {
            Irig106Version::V106_04 => 0,
            Irig106Version::V106_05 => 0,
            Irig106Version::V106_07 => 7,
            Irig106Version::V106_09 => 8,
            Irig106Version::V106_11 => 9,
            Irig106Version::V106_13 => 10,
            Irig106Version::V106_15 => 11,
            Irig106Version::V106_17 => 12,
        }
    }

    /// Convert to the CSDW `iCh10Ver` encoding.
    pub fn to_csdw_version(self) -> (r: u8)
        ensures
            r == self.spec_to_csdw(),
    {
        match self {
            Irig106Version::V106_04 | Irig106Version::V106_05 => 0,
            Irig106Version::V106_07 => 7,
            Irig106Version::V106_09 => 8,
            Irig106Version::V106_11 => 9,
            Irig106Version::V106_13 => 10,
            Irig106Version::V106_15 => 11,
            Irig106Version::V106_17 => 12,
        }
    }

    /// Return the `G\106` attribute string representation.
    pub fn as_g106_str(&self) -> (r: &'static str)
        ensures
            r@ == self.spec_g106(),
    {
        match self {
            Irig106Version::V106_04 => "04",
            Irig106Version::V106_05 => "05",
            Irig106Version::V106_07 => "07",
            Irig106Version::V106_09 => "09",
            Irig106Version::V106_11 => "11",
            Irig106Version::V106_13 => "13",
            Irig106Version::V106_15 => "15",
            Irig106Version::V106_17 => "17",
        }
    }

    /// The display text, `IRIG 106-NN`.
    pub fn to_string(&self) -> (r: String)
        ensures
            r@ == "IRIG 106-"@ + self.spec_g106(),
    {
        let mut s = String::new();
        push_str(&mut s, "IRIG 106-");
        push_str(&mut s, self.as_g106_str());
        s
    }
}

/// Chapter 10 data type codes.
///
/// Used to identify the type of data in a Ch10 packet and to map
/// channels to TMATS format groups during generation.
#[derive(Debug, Clone, Copy, PartialEq, Eq, Hash, Structural)]
pub enum DataTypeCode {
    ComputerGeneratedFormat0,
    ComputerGeneratedFormat1,
    ComputerGeneratedFormat2,
    ComputerGeneratedFormat3,
    Pcm,
    TimeDataFormat1,
    Mil1553Format1,
    Mil1553Format2,
    AnalogFormat1,
    DiscreteFormat1,
    MessageData,
    Arinc429Format0,
    VideoFormat0,
    VideoFormat1,
    VideoFormat2,
    ImageFormat0,
    ImageFormat1,
    UartFormat0,
    Ieee1394Format0,
    ParallelFormat0,
    EthernetFormat0,
    CanBusFormat0,
    FibreChannelFormat0,
    /// Any unrecognized type code
    Other(u8),
}

impl DataTypeCode {
    /// The code of each named data type.
    pub open spec fn spec_code(self) -> u8 {
        match self {
            DataTypeCode::ComputerGeneratedFormat0 => 0x00,
            DataTypeCode::ComputerGeneratedFormat1 => 0x01,
            DataTypeCode::ComputerGeneratedFormat2 => 0x02,
            DataTypeCode::ComputerGeneratedFormat3 => 0x03,
            DataTypeCode::Pcm => 0x09,
            DataTypeCode::TimeDataFormat1 => 0x11,
            DataTypeCode::Mil1553Format1 => 0x19,
            DataTypeCode::Mil1553Format2 => 0x1A,
            DataTypeCode::AnalogFormat1 => 0x21,
            DataTypeCode::DiscreteFormat1 => 0x29,
            DataTypeCode::MessageData => 0x30,
            DataTypeCode::Arinc429Format0 => 0x38,
            DataTypeCode::VideoFormat0 => 0x40,
            DataTypeCode::VideoFormat1 => 0x41,
            DataTypeCode::VideoFormat2 => 0x42,
            DataTypeCode::ImageFormat0 => 0x48,
            DataTypeCode::ImageFormat1 => 0x49,
            DataTypeCode::UartFormat0 => 0x50,
            DataTypeCode::Ieee1394Format0 => 0x58,
            DataTypeCode::ParallelFormat0 => 0x60,
            DataTypeCode::EthernetFormat0 => 0x68,
            DataTypeCode::CanBusFormat0 => 0x78,
            DataTypeCode::FibreChannelFormat0 => 0x79,
            DataTypeCode::Other(v) => v,
        }
    }

    /// Whether `v` is the code of a named data type.
    pub open spec fn is_named_code(v: u8) -> bool {
        v == 0x00 || v == 0x01 || v == 0x02 || v == 0x03 || v == 0x09 || v == 0x11 || v == 0x19
            || v == 0x1A || v == 0x21 || v == 0x29 || v == 0x30 || v == 0x38 || v == 0x40 || v
            == 0x41 || v == 0x42 || v == 0x48 || v == 0x49 || v == 0x50 || v == 0x58 || v == 0x60
            || v == 0x68 || v == 0x78 || v == 0x79
    }

    /// The data type of a code: the named type with that code, else `Other`.
    pub open spec fn spec_from_u8(v: u8) -> Self {
        match v {
            0x00 => DataTypeCode::ComputerGeneratedFormat0,
            0x01 => DataTypeCode::ComputerGeneratedFormat1,
            0x02 => DataTypeCode::ComputerGeneratedFormat2,
            0x03 => DataTypeCode::ComputerGeneratedFormat3,
            0x09 => DataTypeCode::Pcm,
            0x11 => DataTypeCode::TimeDataFormat1,
            0x19 => DataTypeCode::Mil1553Format1,
            0x1A => DataTypeCode::Mil1553Format2,
            0x21 => DataTypeCode::AnalogFormat1,
            0x29 => DataTypeCode::DiscreteFormat1,
            0x30 => DataTypeCode::MessageData,
            0x38 => DataTypeCode::Arinc429Format0,
            0x40 => DataTypeCode::VideoFormat0,
            0x41 => DataTypeCode::VideoFormat1,
            0x42 => DataTypeCode::VideoFormat2,
            0x48 => DataTypeCode::ImageFormat0,
            0x49 => DataTypeCode::ImageFormat1,
            0x50 => DataTypeCode::UartFormat0,
            0x58 => DataTypeCode::Ieee1394Format0,
            0x60 => DataTypeCode::ParallelFormat0,
            0x68 => DataTypeCode::EthernetFormat0,
            0x78 => DataTypeCode::CanBusFormat0,
            0x79 => DataTypeCode::FibreChannelFormat0,
            other => DataTypeCode::Other(other),
        }
    }

    pub fn from_u8(v: u8) -> (r: Self)
        ensures
            r == Self::spec_from_u8(v),
            r.spec_code() == v,
            Self::is_named_code(v) <==> !(r is Other),
    {
        match v {
            0x00 => DataTypeCode::ComputerGeneratedFormat0,
            0x01 => DataTypeCode::ComputerGeneratedFormat1,
            0x02 => DataTypeCode::ComputerGeneratedFormat2,
            0x03 => DataTypeCode::ComputerGeneratedFormat3,
            0x09 => DataTypeCode::Pcm,
            0x11 => DataTypeCode::TimeDataFormat1,
            0x19 => DataTypeCode::Mil1553Format1,
            0x1A => DataTypeCode::Mil1553Format2,
            0x21 => DataTypeCode::AnalogFormat1,
            0x29 => DataTypeCode::DiscreteFormat1,
            0x30 => DataTypeCode::MessageData,
            0x38 => DataTypeCode::Arinc429Format0,
            0x40 => DataTypeCode::VideoFormat0,
            0x41 => DataTypeCode::VideoFormat1,
            0x42 => DataTypeCode::VideoFormat2,
            0x48 => DataTypeCode::ImageFormat0,
            0x49 => DataTypeCode::ImageFormat1,
            0x50 => DataTypeCode::UartFormat0,
            0x58 => DataTypeCode::Ieee1394Format0,
            0x60 => DataTypeCode::ParallelFormat0,
            0x68 => DataTypeCode::EthernetFormat0,
            0x78 => DataTypeCode::CanBusFormat0,
            0x79 => DataTypeCode::FibreChannelFormat0,
            other => DataTypeCode::Other(other),
        }
    }

    /// The numeric type code.
    pub fn to_u8(&self) -> (r: u8)
        ensures
            r == self.spec_code(),
    {
        match self {
            DataTypeCode::ComputerGeneratedFormat0 => 0x00,
            DataTypeCode::ComputerGeneratedFormat1 => 0x01,
            DataTypeCode::ComputerGeneratedFormat2 => 0x02,
            DataTypeCode::ComputerGeneratedFormat3 => 0x03,
            DataTypeCode::Pcm => 0x09,
            DataTypeCode::TimeDataFormat1 => 0x11,
            DataTypeCode::Mil1553Format1 => 0x19,
            DataTypeCode::Mil1553Format2 => 0x1A,
            DataTypeCode::AnalogFormat1 => 0x21,
            DataTypeCode::DiscreteFormat1 => 0x29,
            DataTypeCode::MessageData => 0x30,
            DataTypeCode::Arinc429Format0 => 0x38,
            DataTypeCode::VideoFormat0 => 0x40,
            DataTypeCode::VideoFormat1 => 0x41,
            DataTypeCode::VideoFormat2 => 0x42,
            DataTypeCode::ImageFormat0 => 0x48,
            DataTypeCode::ImageFormat1 => 0x49,
            DataTypeCode::UartFormat0 => 0x50,
            DataTypeCode::Ieee1394Format0 => 0x58,
            DataTypeCode::ParallelFormat0 => 0x60,
            DataTypeCode::EthernetFormat0 => 0x68,
            DataTypeCode::CanBusFormat0 => 0x78,
            DataTypeCode::FibreChannelFormat0 => 0x79,
            DataTypeCode::Other(v) => *v,
        }
    }

    pub open spec fn spec_tmats_group(self) -> Option<GroupPrefix> {
        match self {
            DataTypeCode::Pcm => Some(GroupPrefix::P),
            DataTypeCode::Mil1553Format1 => Some(GroupPrefix::B),
            DataTypeCode::Mil1553Format2 => Some(GroupPrefix::B),
            DataTypeCode::Arinc429Format0 => Some(GroupPrefix::B),
            DataTypeCode::MessageData => Some(GroupPrefix::S),
            DataTypeCode::UartFormat0 => Some(GroupPrefix::S),
            DataTypeCode::EthernetFormat0 => Some(GroupPrefix::S),
            _ => None,
        }
    }

    /// Map data type to the TMATS format group it belongs to.
    pub fn tmats_group(&self) -> (r: Option<GroupPrefix>)
        ensures
            r == self.spec_tmats_group(),
    {
        match self {
            DataTypeCode::Pcm => Some(GroupPrefix::P),
            DataTypeCode::Mil1553Format1 | DataTypeCode::Mil1553Format2
            | DataTypeCode::Arinc429Format0 => Some(GroupPrefix::B),
            DataTypeCode::MessageData | DataTypeCode::UartFormat0
            | DataTypeCode::EthernetFormat0 => Some(GroupPrefix::S),
            _ => None,
        }
    }
}

/// Newtype wrapper for Chapter 10 channel IDs.
///
/// Channel IDs are u16 values matching the `R-x\TK1-n` TMATS track numbers.
#[derive(Debug, Clone, Copy, PartialEq, Eq, Hash, PartialOrd, Ord, Structural)]
pub struct ChannelId(pub u16);

impl ChannelId {
    /// The display text, `Ch` followed by the number.
    pub fn to_string(&self) -> (r: String)
        ensures
            r@ == "Ch"@ + dec(self.0 as nat),
    {
        let mut s = String::new();
        push_str(&mut s, "Ch");
        push_dec(&mut s, self.0 as u64);
        s
    }
}

/// TMATS attribute group prefix identifiers.
#[derive(Debug, Clone, Copy, PartialEq, Eq, Hash, Structural)]
pub enum GroupPrefix {
    /// General Information (§9.5.2)
    G,
    /// Transmission Attributes (§9.5.3)
    T,
    /// Recorder-Reproducer Attributes (§9.5.4)
    R,
    /// Multiplex/Modulation Attributes (§9.5.5)
    M,
    /// PCM Format Attributes (§9.5.6.1)
    P,
    /// PCM Measurement Description (§9.5.6.2)
    D,
    /// Bus Data Attributes (§9.5.6.3)
    B,
    /// Message Data Attributes (§9.5.7)
    S,
    /// Data Conversion Attributes (§9.5.8)
    C,
    /// Unknown/forward-compatible group
    Unknown(char),
}

impl GroupPrefix {
    pub open spec fn spec_from_char(c: char) -> GroupPrefix {
        let u = upper_char(c);
        if u == 'G' {
            GroupPrefix::G
        } else if u == 'T' {
            GroupPrefix::T
        } else if u == 'R' {
            GroupPrefix::R
        } else if u == 'M' {
            GroupPrefix::M
        } else if u == 'P' {
            GroupPrefix::P
        } else if u == 'D' {
            GroupPrefix::D
        } else if u == 'B' {
            GroupPrefix::B
        } else if u == 'S' {
            GroupPrefix::S
        } else if u == 'C' {
            GroupPrefix::C
        } else {
            GroupPrefix::Unknown(u)
        }
    }

    /// Parse a group prefix from the first character of a code-name.
    pub fn from_char(c: char) -> (r: Self)
        ensures
            r == Self::spec_from_char(c),
    {
        let u = to_ascii_upper_char(c);
        match u {
            'G' => GroupPrefix::G,
            'T' => GroupPrefix::T,
            'R' => GroupPrefix::R,
            'M' => GroupPrefix::M,
            'P' => GroupPrefix::P,
            'D' => GroupPrefix::D,
            'B' => GroupPrefix::B,
            'S' => GroupPrefix::S,
            'C' => GroupPrefix::C,
            other => GroupPrefix::Unknown(other),
        }
    }

    pub open spec fn spec_as_char(self) -> char {
        match self {
            GroupPrefix::G => 'G',
            GroupPrefix::T => 'T',
            GroupPrefix::R => 'R',
            GroupPrefix::M => 'M',
            GroupPrefix::P => 'P',
            GroupPrefix::D => 'D',
            GroupPrefix::B => 'B',
            GroupPrefix::S => 'S',
            GroupPrefix::C => 'C',
            GroupPrefix::Unknown(c) => c,
        }
    }

    /// Convert to the canonical character representation.
    pub fn as_char(&self) -> (r: char)
        ensures
            r == self.spec_as_char(),
    {
        match self {
            GroupPrefix::G => 'G',
            GroupPrefix::T => 'T',
            GroupPrefix::R => 'R',
            GroupPrefix::M => 'M',
            GroupPrefix::P => 'P',
            GroupPrefix::D => 'D',
            GroupPrefix::B => 'B',
            GroupPrefix::S => 'S',
            GroupPrefix::C => 'C',
            GroupPrefix::Unknown(c) => *c,
        }
    }

    /// Whether two prefixes are the same group.
    pub fn same(&self, other: &GroupPrefix) -> (r: bool)
        ensures
            r == (*self == *other),
    {
        match (self, other) {
            (GroupPrefix::G, GroupPrefix::G) => true,
            (GroupPrefix::T, GroupPrefix::T) => true,
            (GroupPrefix::R, GroupPrefix::R) => true,
            (GroupPrefix::M, GroupPrefix::M) => true,
            (GroupPrefix::P, GroupPrefix::P) => true,
            (GroupPrefix::D, GroupPrefix::D) => true,
            (GroupPrefix::B, GroupPrefix::B) => true,
            (GroupPrefix::S, GroupPrefix::S) => true,
            (GroupPrefix::C, GroupPrefix::C) => true,
            (GroupPrefix::Unknown(a), GroupPrefix::Unknown(b)) => *a == *b,
            _ => false,
        }
    }
}

// ─── Laws ───────────────────────────────────────────────────────────────────

/// A version's `G\106` text names that version again.
pub proof fn law_g106_round_trip(v: Irig106Version)
    ensures
        Irig106Version::spec_from_g106(v.spec_g106()) == Some(v),
{
    reveal_strlit("04");
    reveal_strlit("05");
    reveal_strlit("07");
    reveal_strlit("09");
    reveal_strlit("11");
    reveal_strlit("13");
    reveal_strlit("15");
    reveal_strlit("17");
    let s = v.spec_g106();
    assert(s.len() == 2);
    assert(is_digit(s[0]) && is_digit(s[1]));
    assert(!is_white(s[0]) && !is_white(s[1]));
    assert(trim_start(s) == s);
    assert(trim_end(s) == s);
    assert(trim(s) == s);
    lemma_trailing_digit_count(s, 2);
    assert(trailing_digits(s) =~= s);
}

/// From 106-07 on, a version survives the trip through the CSDW version field.
pub proof fn law_csdw_version_round_trip(v: Irig106Version)
    requires
        v.spec_number() >= 7,
    ensures
        Irig106Version::spec_from_csdw(v.spec_to_csdw()) == Some(v),
{
}

/// The CSDW `iCh10Ver` numbering: the values 7 to 12 name the versions from
/// 106-07 on in release order, value `c` naming the version numbered
/// `2c - 7` (7 is 106-07, 8 is 106-09, ..., 12 is 106-17); no other value
/// names a version.  Encoding is the inverse, and versions before 106-07
/// encode as 0.
pub proof fn law_csdw_version_numbering(c: u8, v: Irig106Version)
    ensures
        7 <= c <= 12 <==> Irig106Version::spec_from_csdw(c) is Some,
        Irig106Version::spec_from_csdw(c) matches Some(w) ==> w.spec_number() == 2 * c - 7,
        v.spec_number() >= 7 ==> 2 * v.spec_to_csdw() - 7 == v.spec_number(),
        v.spec_number() < 7 ==> v.spec_to_csdw() == 0,
{
}

/// The CSDW version value grows with the version: a later version never has
/// a smaller value.
pub proof fn law_csdw_version_monotone(a: Irig106Version, b: Irig106Version)
    requires
        a.spec_number() <= b.spec_number(),
    ensures
        a.spec_to_csdw() <= b.spec_to_csdw(),
{
}

/// A data type code survives the trip through its number, unless it is an
/// `Other` holding the number of a named type; and every number survives the
/// trip through its data type.
pub proof fn law_data_type_code_round_trip(c: DataTypeCode, v: u8)
    requires
        c is Other ==> !DataTypeCode::is_named_code(c.spec_code()),
    ensures
        DataTypeCode::spec_from_u8(c.spec_code()) == c,
        DataTypeCode::spec_from_u8(v).spec_code() == v,
{
}

/// A group prefix survives the trip through its character, for every group
/// whose character is already upper case.
pub proof fn law_group_prefix_round_trip(g: GroupPrefix)
    requires
        g is Unknown ==> upper_char(g.spec_as_char()) == g.spec_as_char(),
        g is Unknown ==> {
            let c = g.spec_as_char();
            c != 'G' && c != 'T' && c != 'R' && c != 'M' && c != 'P' && c != 'D' && c != 'B' && c
                != 'S' && c != 'C'
        },
    ensures
        GroupPrefix::spec_from_char(g.spec_as_char()) == g,
{
}

} // verus!
