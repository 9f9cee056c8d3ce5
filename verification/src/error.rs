//! Error and diagnostic types for all crate operations.
use vstd::prelude::*;
use crate::text::{push_str, push_dec, push_dec_padded, dec, dec_padded};

verus! {

/// The text of an optional string.
pub open spec fn opt_text(o: Option<String>) -> Option<Seq<char>> {
    match o {
        Some(s) => Some(s@),
        None => None,
    }
}

/// The texts of a sequence of strings.
pub open spec fn texts(v: Seq<String>) -> Seq<Seq<char>> {
    v.map_values(|s: String| s@)
}

/// The views of a sequence of values.
pub open spec fn views<T: View>(v: Seq<T>) -> Seq<T::V> {
    v.map_values(|x: T| x@)
}

/// Top-level error enum for all crate operations.
#[derive(Debug)]
pub enum TmatsError {
    /// Error during ASCII tokenization or structuring.
    Parse(ParseError),
    /// Validation produced errors (may also contain warnings/info).
    Validate(Vec<Diagnostic>),
    /// Error during ASCII or XML serialization.
    Serialize(SerializeError),
    /// Error during Ch10 payload decode/encode.
    Ch10(Ch10Error),
    /// Error during XML parsing or serialization.
    Xml(XmlError),
    /// Error during TMATS generation.
    Generate(GenerateError),
    /// Error during TMATS repair.
    Repair(RepairError),
}

/// Collection of errors from parsing or validation.
#[derive(Debug)]
pub struct TmatsErrors {
    pub errors: Vec<TmatsError>,
}

impl TmatsErrors {
    pub fn new() -> (r: Self)
        ensures
            r.errors@.len() == 0,
    {
        TmatsErrors { errors: Vec::new() }
    }

    pub fn push(&mut self, error: TmatsError)
        ensures
            final(self).errors@ == old(self).errors@.push(error),
    {
        self.errors.push(error);
    }

    pub fn is_empty(&self) -> (r: bool)
        ensures
            r == (self.errors@.len() == 0),
    {
        self.errors.len() == 0
    }

    pub fn len(&self) -> (r: usize)
        ensures
            r == self.errors@.len(),
    {
        self.errors.len()
    }

    /// The display text, `N error(s)`.
    pub fn to_string(&self) -> (r: String)
        ensures
            r@ == dec(self.errors@.len() as nat) + " error(s)"@,
    {
        let mut s = String::new();
        push_dec(&mut s, self.errors.len() as u64);
        push_str(&mut s, " error(s)");
        s
    }
}

impl Default for TmatsErrors {
    fn default() -> (r: Self)
        ensures
            r.errors@.len() == 0,
    {
        Self::new()
    }
}

/// A specific parse error with location context.
#[derive(Debug, Clone)]
pub struct ParseError {
    /// Classification of the error.
    pub kind: ParseErrorKind,
    /// Byte offset in the source input.
    pub byte_offset: usize,
    /// 1-based line number (if determinable).
    pub line: u32,
    /// The code-name that triggered the error, if applicable.
    pub code_name: Option<String>,
    /// Human-readable description.
    pub message: String,
}

/// A parse error with its texts as character sequences.
pub struct ParseErrorV {
    pub kind: ParseErrorKind,
    pub byte_offset: usize,
    pub line: u32,
    pub code_name: Option<Seq<char>>,
    pub message: Seq<char>,
}

impl View for ParseError {
    type V = ParseErrorV;

    open spec fn view(&self) -> ParseErrorV {
        ParseErrorV {
            kind: self.kind,
            byte_offset: self.byte_offset,
            line: self.line,
            code_name: opt_text(self.code_name),
            message: self.message@,
        }
    }
}

#[derive(Debug, Clone, Copy, PartialEq, Eq, Structural)]
pub enum ParseErrorKind {
    /// Missing or invalid colon/semicolon delimiter.
    InvalidDelimiter,
    /// Code-name does not match expected `GROUP\ATTR` pattern.
    MalformedCodeName,
    /// Attribute value could not be parsed to expected type.
    InvalidValue,
    /// Group prefix character is not recognized.
    UnknownGroup,
    /// Same code-name appears more than once.
    DuplicateAttribute,
    /// Exceeded configured maximum attribute count (DoS protection).
    MaxAttributesExceeded,
    /// Attribute value exceeds configured maximum size (DoS protection).
    MaxValueSizeExceeded,
    /// Input contains non-7-bit-ASCII bytes outside CR/LF.
    InvalidAscii,
    /// Unexpected end of input during tokenization.
    UnexpectedEof,
}

impl ParseErrorKind {
    /// The kind's number in the `TMATS-P###` error codes.
    pub open spec fn spec_code(self) -> u8 {
        match self {
            ParseErrorKind::InvalidDelimiter => 0,
            ParseErrorKind::MalformedCodeName => 1,
            ParseErrorKind::InvalidValue => 2,
            ParseErrorKind::UnknownGroup => 3,
            ParseErrorKind::DuplicateAttribute => 4,
            ParseErrorKind::MaxAttributesExceeded => 5,
            ParseErrorKind::MaxValueSizeExceeded => 6,
            ParseErrorKind::InvalidAscii => 7,
            ParseErrorKind::UnexpectedEof => 8,
        }
    }

    /// The kind's number in the `TMATS-P###` error codes.
    pub fn code(&self) -> (r: u8)
        ensures
            r == self.spec_code(),
    {
        match self {
            ParseErrorKind::InvalidDelimiter => 0,
            ParseErrorKind::MalformedCodeName => 1,
            ParseErrorKind::InvalidValue => 2,
            ParseErrorKind::UnknownGroup => 3,
            ParseErrorKind::DuplicateAttribute => 4,
            ParseErrorKind::MaxAttributesExceeded => 5,
            ParseErrorKind::MaxValueSizeExceeded => 6,
            ParseErrorKind::InvalidAscii => 7,
            ParseErrorKind::UnexpectedEof => 8,
        }
    }
}

/// Appends the text of an optional suffix ` [X]`.
fn push_bracketed(s: &mut String, prefix: &str, o: &Option<String>)
    ensures
        final(s)@ == old(s)@ + match opt_text(*o) {
            Some(t) => prefix@ + t + "]"@,
            None => Seq::<char>::empty(),
        },
{
    match o {
        Some(t) => {
            push_str(s, prefix);
            push_str(s, t.as_str());
            push_str(s, "]");
            assert(final(s)@ =~= old(s)@ + (prefix@ + t@ + "]"@));
        },
        None => {
            assert(final(s)@ =~= old(s)@ + Seq::<char>::empty());
        },
    }
}

impl ParseError {
    pub open spec fn spec_display(e: ParseErrorV) -> Seq<char> {
        "[ERROR] TMATS-P"@ + dec_padded(e.kind.spec_code() as nat, 3) + ": "@ + e.message
            + " (at byte "@ + dec(e.byte_offset as nat) + ", line "@ + dec(e.line as nat) + ")"@
            + match e.code_name {
            Some(cn) => " [code-name: "@ + cn + "]"@,
            None => Seq::<char>::empty(),
        }
    }

    /// The display text of the error.
    pub fn to_string(&self) -> (r: String)
        ensures
            r@ == Self::spec_display(self@),
    {
        let mut s = String::new();
        push_str(&mut s, "[ERROR] TMATS-P");
        push_dec_padded(&mut s, self.kind.code() as u64, 3);
        push_str(&mut s, ": ");
        push_str(&mut s, self.message.as_str());
        push_str(&mut s, " (at byte ");
        push_dec(&mut s, self.byte_offset as u64);
        push_str(&mut s, ", line ");
        push_dec(&mut s, self.line as u64);
        push_str(&mut s, ")");
        push_bracketed(&mut s, " [code-name: ", &self.code_name);
        assert(s@ =~= Self::spec_display(self@));
        s
    }
}

/// Severity level for validation findings.
#[derive(Debug, Clone, Copy, PartialEq, Eq, PartialOrd, Ord, Hash, Structural)]
pub enum Severity {
    /// Advisory information, not a spec violation.
    Info,
    /// Suspicious but technically allowed by spec.
    Warning,
    /// Definite spec violation.
    Error,
}

impl Severity {
    pub open spec fn spec_display(self) -> Seq<char> {
        match self {
            Severity::Info => "INFO"@,
            Severity::Warning => "WARN"@,
            Severity::Error => "ERROR"@,
        }
    }

    /// The display text of the severity.
    pub fn as_str(&self) -> (r: &'static str)
        ensures
            r@ == self.spec_display(),
    {
        match self {
            Severity::Info => "INFO",
            Severity::Warning => "WARN",
            Severity::Error => "ERROR",
        }
    }

    /// Whether two severities are the same.
    pub fn same(&self, other: &Severity) -> (r: bool)
        ensures
            r == (*self == *other),
    {
        match (self, other) {
            (Severity::Info, Severity::Info) => true,
            (Severity::Warning, Severity::Warning) => true,
            (Severity::Error, Severity::Error) => true,
            _ => false,
        }
    }
}

/// A single validation finding.
#[derive(Debug, Clone)]
pub struct Diagnostic {
    /// Severity of this finding.
    pub severity: Severity,
    /// Unique rule identifier (e.g., "TMATS-V001").
    pub rule_id: String,
    /// Human-readable description of the issue.
    pub message: String,
    /// Spec section reference (e.g., "Ch9 §9.5.2 Table 9-1").
    pub spec_reference: String,
    /// TMATS attribute path if applicable (e.g., "R-1\\TK1-1").
    pub attribute_path: Option<String>,
    /// What the spec requires.
    pub expected: Option<String>,
    /// What was actually found.
    pub actual: Option<String>,
    /// Suggested corrective action.
    pub suggested_fix: Option<String>,
}

/// A diagnostic with its texts as character sequences.
pub struct DiagnosticV {
    pub severity: Severity,
    pub rule_id: Seq<char>,
    pub message: Seq<char>,
    pub spec_reference: Seq<char>,
    pub attribute_path: Option<Seq<char>>,
    pub expected: Option<Seq<char>>,
    pub actual: Option<Seq<char>>,
    pub suggested_fix: Option<Seq<char>>,
}

impl View for Diagnostic {
    type V = DiagnosticV;

    open spec fn view(&self) -> DiagnosticV {
        DiagnosticV {
            severity: self.severity,
            rule_id: self.rule_id@,
            message: self.message@,
            spec_reference: self.spec_reference@,
            attribute_path: opt_text(self.attribute_path),
            expected: opt_text(self.expected),
            actual: opt_text(self.actual),
            suggested_fix: opt_text(self.suggested_fix),
        }
    }
}

impl Diagnostic {
    pub open spec fn spec_display(d: DiagnosticV) -> Seq<char> {
        "["@ + d.severity.spec_display() + "] "@ + d.rule_id + ": "@ + d.message + match d.attribute_path {
            Some(p) => " ["@ + p + "]"@,
            None => Seq::<char>::empty(),
        } + " → "@ + d.spec_reference
    }

    /// The display text of the diagnostic.
    pub fn to_string(&self) -> (r: String)
        ensures
            r@ == Self::spec_display(self@),
    {
        let mut s = String::new();
        push_str(&mut s, "[");
        push_str(&mut s, self.severity.as_str());
        push_str(&mut s, "] ");
        push_str(&mut s, self.rule_id.as_str());
        push_str(&mut s, ": ");
        push_str(&mut s, self.message.as_str());
        push_bracketed(&mut s, " [", &self.attribute_path);
        push_str(&mut s, " → ");
        push_str(&mut s, self.spec_reference.as_str());
        assert(s@ =~= Self::spec_display(self@));
        s
    }
}

#[derive(Debug, Clone)]
pub struct SerializeError {
    pub message: String,
    pub attribute_path: Option<String>,
}

impl SerializeError {
    /// The display text of the error.
    pub fn to_string(&self) -> (r: String)
        ensures
            r@ == "[ERROR] TMATS-S: "@ + self.message@ + match opt_text(self.attribute_path) {
                Some(p) => " ["@ + p + "]"@,
                None => Seq::<char>::empty(),
            },
    {
        let mut s = String::new();
        push_str(&mut s, "[ERROR] TMATS-S: ");
        push_str(&mut s, self.message.as_str());
        push_bracketed(&mut s, " [", &self.attribute_path);
        s
    }
}

#[derive(Debug, Clone)]
pub struct Ch10Error {
    pub message: String,
}

impl Ch10Error {
    /// The display text of the error.
    pub fn to_string(&self) -> (r: String)
        ensures
            r@ == "[ERROR] TMATS-C: "@ + self.message@,
    {
        let mut s = String::new();
        push_str(&mut s, "[ERROR] TMATS-C: ");
        push_str(&mut s, self.message.as_str());
        s
    }
}

#[derive(Debug, Clone)]
pub struct XmlError {
    pub message: String,
}

impl XmlError {
    /// The display text of the error.
    pub fn to_string(&self) -> (r: String)
        ensures
            r@ == "[ERROR] TMATS-X: "@ + self.message@,
    {
        let mut s = String::new();
        push_str(&mut s, "[ERROR] TMATS-X: ");
        push_str(&mut s, self.message.as_str());
        s
    }
}

#[derive(Debug, Clone)]
pub struct GenerateError {
    pub message: String,
}

impl GenerateError {
    /// The display text of the error.
    pub fn to_string(&self) -> (r: String)
        ensures
            r@ == "[ERROR] TMATS-G: "@ + self.message@,
    {
        let mut s = String::new();
        push_str(&mut s, "[ERROR] TMATS-G: ");
        push_str(&mut s, self.message.as_str());
        s
    }
}

#[derive(Debug, Clone)]
pub struct RepairError {
    pub message: String,
}

impl RepairError {
    /// The display text of the error.
    pub fn to_string(&self) -> (r: String)
        ensures
            r@ == "[ERROR] TMATS-R: "@ + self.message@,
    {
        let mut s = String::new();
        push_str(&mut s, "[ERROR] TMATS-R: ");
        push_str(&mut s, self.message.as_str());
        s
    }
}

/// Number of diagnostics of severity `sev`.
pub open spec fn count_severity(d: Seq<Diagnostic>, sev: Severity) -> nat
    decreases d.len(),
{
    if d.len() == 0 {
        0
    } else {
        count_severity(d.drop_last(), sev) + if d.last().severity == sev {
            1nat
        } else {
            0nat
        }
    }
}

/// Number of diagnostics of severity `sev`, over their models.
pub open spec fn count_severity_v(d: Seq<DiagnosticV>, sev: Severity) -> nat
    decreases d.len(),
{
    if d.len() == 0 {
        0
    } else {
        count_severity_v(d.drop_last(), sev) + if d.last().severity == sev {
            1nat
        } else {
            0nat
        }
    }
}

/// Every diagnostic has exactly one severity: the errors, warnings and
/// infos of a list add up to its length.
pub proof fn law_severity_counts_sum(d: Seq<DiagnosticV>)
    ensures
        count_severity_v(d, Severity::Error) + count_severity_v(d, Severity::Warning)
            + count_severity_v(d, Severity::Info) == d.len(),
    decreases d.len(),
{
    if d.len() > 0 {
        law_severity_counts_sum(d.drop_last());
    }
}

pub proof fn lemma_count_severity_views(d: Seq<Diagnostic>, sev: Severity)
    ensures
        count_severity(d, sev) == count_severity_v(views(d), sev),
    decreases d.len(),
{
    if d.len() > 0 {
        lemma_count_severity_views(d.drop_last(), sev);
        assert(views(d).drop_last() =~= views(d.drop_last()));
    }
}

/// Counts the diagnostics of severity `sev`.
pub fn count_of_severity(d: &Vec<Diagnostic>, sev: Severity) -> (r: usize)
    ensures
        r == count_severity(d@, sev),
{
    let mut n: usize = 0;
    let len = d.len();
    for i in 0..len
        invariant
            len == d@.len(),
            n == count_severity(d@.take(i as int), sev),
            n <= i,
    {
        proof {
            assert(d@.take(i + 1).drop_last() =~= d@.take(i as int));
        }
        if d[i].severity.same(&sev) {
            n = n + 1;
        }
    }
    assert(d@.take(len as int) =~= d@);
    n
}

impl TmatsError {
    /// The display text of the error.
    pub fn to_string(&self) -> (r: String)
        ensures
            self matches TmatsError::Parse(e) ==> r@ == ParseError::spec_display(e@),
            self matches TmatsError::Validate(d) ==> r@ == "validation failed with "@ + dec(
                count_severity(d@, Severity::Error),
            ) + " error(s)"@,
            self matches TmatsError::Ch10(e) ==> r@ == "[ERROR] TMATS-C: "@ + e.message@,
            self matches TmatsError::Xml(e) ==> r@ == "[ERROR] TMATS-X: "@ + e.message@,
            self matches TmatsError::Generate(e) ==> r@ == "[ERROR] TMATS-G: "@ + e.message@,
            self matches TmatsError::Repair(e) ==> r@ == "[ERROR] TMATS-R: "@ + e.message@,
            self matches TmatsError::Serialize(e) ==> r@ == "[ERROR] TMATS-S: "@ + e.message@
                + match opt_text(e.attribute_path) {
                Some(p) => " ["@ + p + "]"@,
                None => Seq::<char>::empty(),
            },
    {
        match self {
            TmatsError::Parse(e) => e.to_string(),
            TmatsError::Validate(diags) => {
                let n = count_of_severity(diags, Severity::Error);
                let mut s = String::new();
                push_str(&mut s, "validation failed with ");
                push_dec(&mut s, n as u64);
                push_str(&mut s, " error(s)");
                s
            },
            TmatsError::Serialize(e) => e.to_string(),
            TmatsError::Ch10(e) => e.to_string(),
            TmatsError::Xml(e) => e.to_string(),
            TmatsError::Generate(e) => e.to_string(),
            TmatsError::Repair(e) => e.to_string(),
        }
    }
}

impl From<ParseError> for TmatsError {
    fn from(e: ParseError) -> (r: Self)
        ensures
            r == TmatsError::Parse(e),
    {
        TmatsError::Parse(e)
    }
}

impl vstd::std_specs::convert::FromSpecImpl<ParseError> for TmatsError {
    open spec fn obeys_from_spec() -> bool {
        true
    }

    open spec fn from_spec(e: ParseError) -> Self {
        TmatsError::Parse(e)
    }
}

impl From<SerializeError> for TmatsError {
    fn from(e: SerializeError) -> (r: Self)
        ensures
            r == TmatsError::Serialize(e),
    {
        TmatsError::Serialize(e)
    }
}

impl vstd::std_specs::convert::FromSpecImpl<SerializeError> for TmatsError {
    open spec fn obeys_from_spec() -> bool {
        true
    }

    open spec fn from_spec(e: SerializeError) -> Self {
        TmatsError::Serialize(e)
    }
}

impl From<Ch10Error> for TmatsError {
    fn from(e: Ch10Error) -> (r: Self)
        ensures
            r == TmatsError::Ch10(e),
    {
        TmatsError::Ch10(e)
    }
}

impl vstd::std_specs::convert::FromSpecImpl<Ch10Error> for TmatsError {
    open spec fn obeys_from_spec() -> bool {
        true
    }

    open spec fn from_spec(e: Ch10Error) -> Self {
        TmatsError::Ch10(e)
    }
}

} // verus!
